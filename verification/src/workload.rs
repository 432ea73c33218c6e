//! Sustained HTTP traffic against a subject (`dstest.workload.http`).
//!
//! The requests come from a list in the script, from the paths of an
//! OpenAPI document (JSON, or YAML turned into JSON), or default to
//! `GET /get`. Requests are sent in turn at
//! a fixed rate; each is retried on transport errors; the run is summed up
//! in counts and latencies, overall and per method. The sending and timing
//! are done by the application, which reports each request here.
use vstd::prelude::*;

use crate::keyed::Keyed;
use crate::text::{join2, join3, starts_with, str_eq, trim, trim_of, to_unicode_upper, unicode_upper};

verus! {

/// One request of a workload.
pub struct HttpReq {
    pub method: String,
    pub path: String,
    pub body: Option<String>,
    pub content_type: Option<String>,
}

/// The request of a workload that names none: `GET /get`.
pub fn default_requests() -> (v: Vec<HttpReq>)
    ensures
        v@.len() == 1,
        v@[0].method@ == "GET"@,
        v@[0].path@ == "/get"@,
        v@[0].body is None,
        v@[0].content_type is None,
{
    let mut v: Vec<HttpReq> = Vec::new();
    v.push(
        HttpReq {
            method: String::from_str("GET"),
            path: String::from_str("/get"),
            body: None,
            content_type: None,
        },
    );
    v
}

/// A script's request list, which must not be empty.
pub fn require_requests(reqs: Vec<HttpReq>) -> (r: Result<Vec<HttpReq>, String>)
    ensures
        match r {
            Ok(v) => v == reqs && reqs@.len() > 0,
            Err(e) => reqs@.len() == 0 && e@ == "requests list is empty"@,
        },
{
    if reqs.len() == 0 {
        Err(String::from_str("requests list is empty"))
    } else {
        Ok(reqs)
    }
}

/// A JSON document (an OpenAPI document read as JSON, or as YAML turned
/// into JSON). Object members are kept in the order they are given; the
/// document reader hands them over sorted by key.
pub enum Json {
    Null,
    Bool(bool),
    /// The number's text.
    Number(String),
    Str(String),
    Array(Vec<Json>),
    Object(Vec<(String, Json)>),
}

/// A parsed JSON value of the `serde_json` crate.
#[verifier::external_type_specification]
#[verifier::external_body]
pub struct ExJsonValue(serde_json::Value);

/// `serde_json::Value` as a [`Json`] document, variant by variant: numbers
/// by their text, arrays and objects member by member in the value's order.
#[verifier::external_body]
fn json_of_value(v: serde_json::Value) -> Json {
    match v {
        serde_json::Value::Null => Json::Null,
        serde_json::Value::Bool(b) => Json::Bool(b),
        serde_json::Value::Number(n) => Json::Number(n.to_string()),
        serde_json::Value::String(s) => Json::Str(s),
        serde_json::Value::Array(a) => Json::Array(a.into_iter().map(json_of_value).collect()),
        serde_json::Value::Object(o) => Json::Object(o.into_iter().map(|(k, v)| (k, json_of_value(v))).collect()),
    }
}

/// The document `serde_json::from_str::<serde_json::Value>` reads from
/// `text`, or the text of its error.
pub uninterp spec fn json_document(text: Seq<char>) -> Result<Json, Seq<char>>;

/// Why a YAML document could not be read as JSON, with the reader's error
/// text: `serde_yaml` did not parse it, could not write it back, could not
/// turn it into JSON text, or `serde_json` could not read that text.
pub enum YamlFailure {
    Parse(String),
    Emit(String),
    ToJson(String),
    Reparse(String),
}

/// What reading `text` as YAML and turning it into JSON gives: the document
/// (as [`json_document`] reads the JSON text that `serde_json` writes for
/// the YAML value), or the step that failed.
pub uninterp spec fn yaml_document(text: Seq<char>) -> Result<Json, YamlFailure>;

/// A JSON reading with its error as text.
pub open spec fn json_text_result(r: Result<Json, String>) -> Result<Json, Seq<char>> {
    match r {
        Ok(j) => Ok(j),
        Err(e) => Err(e@),
    }
}

/// `serde_json::from_str::<serde_json::Value>`, as a [`Json`] document or
/// the error's text; a function of the text alone.
#[verifier::external_body]
fn parse_json_document(text: &str) -> (r: Result<Json, String>)
    ensures
        json_text_result(r) == json_document(text@),
{
    match serde_json::from_str::<serde_json::Value>(text) {
        Ok(v) => Ok(json_of_value(v)),
        Err(e) => Err(e.to_string()),
    }
}

/// `serde_yaml::from_str::<serde_yaml::Value>`, then `serde_yaml::to_string`
/// and `serde_json::to_string` of that value, and `serde_json::from_str` of
/// the JSON text, as a [`Json`] document or the step that failed; a
/// function of the text alone.
#[verifier::external_body]
fn parse_yaml_document(text: &str) -> (r: Result<Json, YamlFailure>)
    ensures
        r == yaml_document(text@),
{
    let v: serde_yaml::Value = match serde_yaml::from_str(text) {
        Ok(v) => v,
        Err(e) => return Err(YamlFailure::Parse(e.to_string())),
    };
    if let Err(e) = serde_yaml::to_string(&v) {
        return Err(YamlFailure::Emit(e.to_string()));
    }
    let t = match serde_json::to_string(&v) {
        Ok(t) => t,
        Err(e) => return Err(YamlFailure::ToJson(e.to_string())),
    };
    match serde_json::from_str::<serde_json::Value>(&t) {
        Ok(j) => Ok(json_of_value(j)),
        Err(e) => Err(YamlFailure::Reparse(e.to_string())),
    }
}

/// The document of an OpenAPI spec: read as JSON when its trimmed text
/// starts with `{`, else as YAML turned into JSON; errors carry what failed.
pub open spec fn openapi_document(spec: Seq<char>) -> Result<Json, Seq<char>> {
    if "{"@.is_prefix_of(trim_of(spec)) {
        match json_document(spec) {
            Ok(j) => Ok(j),
            Err(e) => Err("invalid OpenAPI JSON: "@ + e),
        }
    } else {
        match yaml_document(spec) {
            Ok(j) => Ok(j),
            Err(YamlFailure::Parse(e)) => Err("invalid OpenAPI YAML: "@ + e@),
            Err(YamlFailure::Emit(e)) => Err("failed to convert YAML: "@ + e@),
            Err(YamlFailure::ToJson(e)) => Err("YAML to JSON conversion failed: "@ + e@),
            Err(YamlFailure::Reparse(e)) => Err("invalid OpenAPI YAML: "@ + e@),
        }
    }
}

/// Read an OpenAPI spec's document (see [`openapi_document`]).
pub fn parse_openapi_document(spec: &str) -> (r: Result<Json, String>)
    ensures
        json_text_result(r) == openapi_document(spec@),
{
    if is_json_text(spec) {
        match parse_json_document(spec) {
            Ok(j) => Ok(j),
            Err(e) => Err(join2("invalid OpenAPI JSON: ", e.as_str())),
        }
    } else {
        match parse_yaml_document(spec) {
            Ok(j) => Ok(j),
            Err(YamlFailure::Parse(e)) => Err(join2("invalid OpenAPI YAML: ", e.as_str())),
            Err(YamlFailure::Emit(e)) => Err(join2("failed to convert YAML: ", e.as_str())),
            Err(YamlFailure::ToJson(e)) => Err(join2("YAML to JSON conversion failed: ", e.as_str())),
            Err(YamlFailure::Reparse(e)) => Err(join2("invalid OpenAPI YAML: ", e.as_str())),
        }
    }
}

/// The requests of an OpenAPI spec: its document (see
/// [`openapi_document`]) and then the requests of that document (see
/// [`openapi_of`]); each has no body and no content type.
pub fn parse_openapi(spec: &str) -> (r: Result<Vec<HttpReq>, String>)
    ensures
        match openapi_document(spec@) {
            Err(m) => r matches Err(e) && e@ == m,
            Ok(root) => match r {
                Ok(v) => openapi_of(root) == Ok::<Seq<(Seq<char>, Seq<char>)>, Seq<char>>(request_pairs(v@))
                    && forall|i: int| 0 <= i < v@.len() ==> (#[trigger] v@[i]).body is None && v@[i].content_type is None,
                Err(e) => openapi_of(root) == Err::<Seq<(Seq<char>, Seq<char>)>, Seq<char>>(e@),
            },
        },
{
    let root = match parse_openapi_document(spec) {
        Ok(j) => j,
        Err(e) => return Err(e),
    };
    openapi_requests(&root)
}

/// The methods a workload sends.
pub open spec fn is_http_method(m: Seq<char>) -> bool {
    m == "GET"@ || m == "POST"@ || m == "PUT"@ || m == "DELETE"@ || m == "PATCH"@ || m == "HEAD"@
        || m == "OPTIONS"@
}

/// The value of the first member named `key`.
pub open spec fn member(entries: Seq<(String, Json)>, key: Seq<char>) -> Option<Json>
    decreases entries.len(),
{
    if entries.len() == 0 {
        None
    } else if entries[0].0@ == key {
        Some(entries[0].1)
    } else {
        member(entries.drop_first(), key)
    }
}

/// The (method, path) requests of one path's operations: each member name
/// upper-cased, kept when it is an HTTP method.
pub open spec fn operation_requests(path: Seq<char>, ops: Seq<(String, Json)>) -> Seq<(Seq<char>, Seq<char>)>
    decreases ops.len(),
{
    if ops.len() == 0 {
        Seq::empty()
    } else {
        let rest = operation_requests(path, ops.drop_last());
        let m = unicode_upper(ops.last().0@);
        if is_http_method(m) {
            rest.push((m, path))
        } else {
            rest
        }
    }
}

/// The (method, path) requests of the `paths` members, in order; a path
/// whose value is not an object has none.
pub open spec fn path_requests(paths: Seq<(String, Json)>) -> Seq<(Seq<char>, Seq<char>)>
    decreases paths.len(),
{
    if paths.len() == 0 {
        Seq::empty()
    } else {
        let rest = path_requests(paths.drop_last());
        match paths.last().1 {
            Json::Object(ops) => rest + operation_requests(paths.last().0@, ops@),
            _ => rest,
        }
    }
}

/// The requests of an OpenAPI document: those of its `paths` object, of
/// which there must be at least one.
pub open spec fn openapi_of(root: Json) -> Result<Seq<(Seq<char>, Seq<char>)>, Seq<char>> {
    let paths = match root {
        Json::Object(e) => member(e@, "paths"@),
        _ => None,
    };
    match paths {
        Some(Json::Object(p)) => {
            let r = path_requests(p@);
            if r.len() == 0 {
                Err("no HTTP methods found in OpenAPI spec"@)
            } else {
                Ok(r)
            }
        },
        _ => Err("OpenAPI spec missing 'paths'"@),
    }
}

pub open spec fn request_pairs(v: Seq<HttpReq>) -> Seq<(Seq<char>, Seq<char>)> {
    v.map_values(|r: HttpReq| (r.method@, r.path@))
}

/// An operation whose upper-cased name is an HTTP method gives a request.
proof fn operation_requests_keep(path: Seq<char>, ops: Seq<(String, Json)>, b: int)
    requires
        0 <= b < ops.len(),
        is_http_method(unicode_upper(ops[b].0@)),
    ensures
        operation_requests(path, ops).contains((unicode_upper(ops[b].0@), path)),
    decreases ops.len(),
{
    let rest = operation_requests(path, ops.drop_last());
    if b == ops.len() - 1 {
        assert(operation_requests(path, ops) == rest.push((unicode_upper(ops[b].0@), path)));
        assert(operation_requests(path, ops)[rest.len() as int] == (unicode_upper(ops[b].0@), path));
    } else {
        assert(ops.drop_last()[b] == ops[b]);
        operation_requests_keep(path, ops.drop_last(), b);
        let k = choose|k: int| 0 <= k < rest.len() && rest[k] == (unicode_upper(ops[b].0@), path);
        let m = unicode_upper(ops.last().0@);
        if is_http_method(m) {
            assert(operation_requests(path, ops)[k] == rest.push((m, path))[k]);
        }
    }
}

/// Every request of an operation list has an HTTP method and the path.
proof fn operation_requests_methods(path: Seq<char>, ops: Seq<(String, Json)>)
    ensures
        forall|k: int| 0 <= k < operation_requests(path, ops).len() ==> is_http_method(
            #[trigger] operation_requests(path, ops)[k].0,
        ) && operation_requests(path, ops)[k].1 == path && exists|b: int|
            0 <= b < ops.len() && unicode_upper(#[trigger] ops[b].0@) == operation_requests(path, ops)[k].0,
    decreases ops.len(),
{
    if ops.len() > 0 {
        let prev = ops.drop_last();
        operation_requests_methods(path, prev);
        let rest = operation_requests(path, prev);
        let m = unicode_upper(ops.last().0@);
        assert forall|k: int| 0 <= k < operation_requests(path, ops).len() implies is_http_method(
            #[trigger] operation_requests(path, ops)[k].0,
        ) && operation_requests(path, ops)[k].1 == path && exists|b: int|
            0 <= b < ops.len() && unicode_upper(#[trigger] ops[b].0@) == operation_requests(path, ops)[k].0 by {
            if k < rest.len() {
                if is_http_method(m) {
                    assert(operation_requests(path, ops)[k] == rest.push((m, path))[k]);
                }
                assert(operation_requests(path, ops)[k] == rest[k]);
                let b = choose|b: int| 0 <= b < prev.len() && unicode_upper(#[trigger] prev[b].0@) == rest[k].0;
                assert(ops[b] == prev[b]);
            } else {
                assert(operation_requests(path, ops)[k] == (m, path));
                assert(unicode_upper(ops[ops.len() - 1].0@) == m);
            }
        }
    }
}

/// The requests of one path object are among those of the paths.
proof fn path_requests_keep(paths: Seq<(String, Json)>, a: int, ops: Vec<(String, Json)>, pair: (Seq<char>, Seq<char>))
    requires
        0 <= a < paths.len(),
        paths[a].1 == Json::Object(ops),
        operation_requests(paths[a].0@, ops@).contains(pair),
    ensures
        path_requests(paths).contains(pair),
    decreases paths.len(),
{
    let rest = path_requests(paths.drop_last());
    if a == paths.len() - 1 {
        let k = choose|k: int| 0 <= k < operation_requests(paths[a].0@, ops@).len() && operation_requests(paths[a].0@, ops@)[k] == pair;
        assert(path_requests(paths) == rest + operation_requests(paths[a].0@, ops@));
        assert(path_requests(paths)[rest.len() + k] == pair);
    } else {
        assert(paths.drop_last()[a] == paths[a]);
        path_requests_keep(paths.drop_last(), a, ops, pair);
        let k = choose|k: int| 0 <= k < rest.len() && rest[k] == pair;
        match paths.last().1 {
            Json::Object(o) => {
                assert(path_requests(paths)[k] == (rest + operation_requests(paths.last().0@, o@))[k]);
            },
            _ => {},
        }
    }
}

/// Whether `(m, path)` comes from an operation of the paths: `path` names
/// one whose value is an object with a member that upper-cases to `m`.
pub open spec fn from_operation(paths: Seq<(String, Json)>, m: Seq<char>, path: Seq<char>) -> bool {
    exists|a: int|
        0 <= a < paths.len() && (#[trigger] paths[a]).0@ == path && (paths[a].1 matches Json::Object(o) && exists|b: int|
            0 <= b < o@.len() && unicode_upper(#[trigger] o@[b].0@) == m)
}

/// Every request of the paths has an HTTP method and comes from one of
/// their operations.
proof fn path_requests_methods(paths: Seq<(String, Json)>)
    ensures
        forall|k: int| 0 <= k < path_requests(paths).len() ==> is_http_method(#[trigger] path_requests(paths)[k].0)
            && from_operation(paths, path_requests(paths)[k].0, path_requests(paths)[k].1),
    decreases paths.len(),
{
    if paths.len() > 0 {
        let prev = paths.drop_last();
        path_requests_methods(prev);
        let rest = path_requests(prev);
        assert forall|k: int| 0 <= k < rest.len() implies from_operation(paths, rest[k].0, rest[k].1) by {
            assert(from_operation(prev, rest[k].0, rest[k].1));
            let a = choose|a: int|
                0 <= a < prev.len() && (#[trigger] prev[a]).0@ == rest[k].1 && (prev[a].1 matches Json::Object(o) && exists|b: int|
                    0 <= b < o@.len() && unicode_upper(#[trigger] o@[b].0@) == rest[k].0);
            assert(paths[a] == prev[a]);
        }
        match paths.last().1 {
            Json::Object(o) => {
                operation_requests_methods(paths.last().0@, o@);
                let ops = operation_requests(paths.last().0@, o@);
                assert forall|k: int| 0 <= k < path_requests(paths).len() implies is_http_method(
                    #[trigger] path_requests(paths)[k].0,
                ) && from_operation(paths, path_requests(paths)[k].0, path_requests(paths)[k].1) by {
                    if k < rest.len() {
                        assert(path_requests(paths)[k] == rest[k]);
                    } else {
                        let q = k - rest.len();
                        assert(path_requests(paths)[k] == ops[q]);
                        let b = choose|b: int| 0 <= b < o@.len() && unicode_upper(#[trigger] o@[b].0@) == ops[q].0;
                        assert(paths[paths.len() - 1] == paths.last());
                        assert(unicode_upper(o@[b].0@) == ops[q].0);
                    }
                }
            },
            _ => {
                assert forall|k: int| 0 <= k < path_requests(paths).len() implies is_http_method(
                    #[trigger] path_requests(paths)[k].0,
                ) && from_operation(paths, path_requests(paths)[k].0, path_requests(paths)[k].1) by {
                    assert(path_requests(paths)[k] == rest[k]);
                }
            },
        }
    }
}

/// Every operation of an OpenAPI document's paths whose upper-cased name is
/// GET, POST, PUT, DELETE, PATCH, HEAD or OPTIONS gives a request with that
/// method and the operation's path (so the document has requests).
pub proof fn openapi_keeps_every_operation(
    root: Json,
    entries: Vec<(String, Json)>,
    paths: Vec<(String, Json)>,
    a: int,
    ops: Vec<(String, Json)>,
    b: int,
)
    requires
        root == Json::Object(entries),
        member(entries@, "paths"@) == Some(Json::Object(paths)),
        0 <= a < paths@.len(),
        paths@[a].1 == Json::Object(ops),
        0 <= b < ops@.len(),
        ({
            let m = unicode_upper(ops@[b].0@);
            m == "GET"@ || m == "POST"@ || m == "PUT"@ || m == "DELETE"@ || m == "PATCH"@ || m == "HEAD"@
                || m == "OPTIONS"@
        }),
    ensures
        openapi_of(root) matches Ok(r) && r.contains((unicode_upper(ops@[b].0@), paths@[a].0@)),
{
    operation_requests_keep(paths@[a].0@, ops@, b);
    path_requests_keep(paths@, a, ops, (unicode_upper(ops@[b].0@), paths@[a].0@));
}

/// Every request an OpenAPI document gives has one of the methods GET,
/// POST, PUT, DELETE, PATCH, HEAD or OPTIONS, and comes from an operation
/// of the document's paths: its path names a path object that has a member
/// whose upper-cased name is the method.
pub proof fn openapi_requests_have_http_methods(root: Json)
    ensures
        openapi_of(root) matches Ok(r) ==> forall|k: int| 0 <= k < r.len() ==> {
            let m = (#[trigger] r[k]).0;
            &&& m == "GET"@ || m == "POST"@ || m == "PUT"@ || m == "DELETE"@ || m == "PATCH"@ || m == "HEAD"@
                || m == "OPTIONS"@
            &&& root matches Json::Object(e) && member(e@, "paths"@) matches Some(Json::Object(p))
                && from_operation(p@, m, r[k].1)
        },
{
    match root {
        Json::Object(e) => match member(e@, "paths"@) {
            Some(Json::Object(p)) => path_requests_methods(p@),
            _ => {},
        },
        _ => {},
    }
}

fn find_member<'a>(entries: &'a Vec<(String, Json)>, key: &str) -> (r: Option<&'a Json>)
    ensures
        match r {
            Some(j) => member(entries@, key@) == Some(*j),
            None => member(entries@, key@) is None,
        },
{
    let mut i: usize = 0;
    assert(entries@.subrange(0, entries@.len() as int) =~= entries@);
    while i < entries.len()
        invariant
            i <= entries@.len(),
            member(entries@, key@) == member(entries@.subrange(i as int, entries@.len() as int), key@),
        decreases entries.len() - i,
    {
        let ghost rest = entries@.subrange(i as int, entries@.len() as int);
        assert(rest.drop_first() =~= entries@.subrange(i + 1, entries@.len() as int));
        if str_eq(entries[i].0.as_str(), key) {
            return Some(&entries[i].1);
        }
        i += 1;
    }
    None
}

/// The requests of an OpenAPI document (see [`openapi_of`]); each has no
/// body and no content type.
pub fn openapi_requests(root: &Json) -> (r: Result<Vec<HttpReq>, String>)
    ensures
        match r {
            Ok(v) => openapi_of(*root) == Ok::<Seq<(Seq<char>, Seq<char>)>, Seq<char>>(request_pairs(v@))
                && forall|i: int| 0 <= i < v@.len() ==> (#[trigger] v@[i]).body is None && v@[i].content_type is None,
            Err(e) => openapi_of(*root) == Err::<Seq<(Seq<char>, Seq<char>)>, Seq<char>>(e@),
        },
{
    let paths = match root {
        Json::Object(e) => find_member(e, "paths"),
        _ => None,
    };
    let p = match paths {
        Some(Json::Object(p)) => p,
        _ => return Err(String::from_str("OpenAPI spec missing 'paths'")),
    };
    let mut reqs: Vec<HttpReq> = Vec::new();
    let mut i: usize = 0;
    while i < p.len()
        invariant
            i <= p@.len(),
            request_pairs(reqs@) == path_requests(p@.subrange(0, i as int)),
            forall|k: int| 0 <= k < reqs@.len() ==> (#[trigger] reqs@[k]).body is None && reqs@[k].content_type is None,
        decreases p.len() - i,
    {
        assert(p@.subrange(0, i + 1).drop_last() =~= p@.subrange(0, i as int));
        let path = &p[i].0;
        match &p[i].1 {
            Json::Object(ops) => {
                let ghost start = request_pairs(reqs@);
                let mut j: usize = 0;
                while j < ops.len()
                    invariant
                        j <= ops@.len(),
                        request_pairs(reqs@) == start + operation_requests(path@, ops@.subrange(0, j as int)),
                        forall|k: int|
                            0 <= k < reqs@.len() ==> (#[trigger] reqs@[k]).body is None && reqs@[k].content_type is None,
                    decreases ops.len() - j,
                {
                    assert(ops@.subrange(0, j + 1).drop_last() =~= ops@.subrange(0, j as int));
                    let upper = to_unicode_upper(ops[j].0.as_str());
                    let u = upper.as_str();
                    if str_eq(u, "GET") || str_eq(u, "POST") || str_eq(u, "PUT") || str_eq(u, "DELETE")
                        || str_eq(u, "PATCH") || str_eq(u, "HEAD") || str_eq(u, "OPTIONS") {
                        let ghost before = request_pairs(reqs@);
                        reqs.push(HttpReq { method: upper, path: path.clone(), body: None, content_type: None });
                        assert(request_pairs(reqs@) =~= before.push((unicode_upper(ops@[j as int].0@), path@)));
                    }
                    j += 1;
                }
                assert(ops@.subrange(0, ops@.len() as int) =~= ops@);
            },
            _ => {},
        }
        i += 1;
    }
    assert(p@.subrange(0, p@.len() as int) =~= p@);
    if reqs.len() == 0 {
        return Err(String::from_str("no HTTP methods found in OpenAPI spec"));
    }
    Ok(reqs)
}

/// Whether an OpenAPI document is read as JSON (its text, trimmed, starts
/// with `{`) rather than as YAML.
pub fn is_json_text(spec: &str) -> (b: bool)
    ensures
        b == "{"@.is_prefix_of(trim_of(spec@)),
{
    starts_with(trim(spec), "{")
}

/// The pause between requests at `rate` requests per second (a rate of 0
/// counts as 1): `1000 / rate` milliseconds.
pub fn interval_ms(rate: u64) -> (ms: u64)
    ensures
        ms == 1000u64 / (if rate == 0 {
            1u64
        } else {
            rate
        }),
{
    let r = if rate == 0 {
        1
    } else {
        rate
    };
    1000 / r
}

/// Whether a failed attempt is followed by a pause before the next one:
/// every attempt but the last.
pub fn pause_after(attempt: u32, retries: u32) -> (b: bool)
    requires
        attempt < retries,
    ensures
        b == (attempt + 1 < retries),
{
    attempt < retries - 1
}

/// The counts and latencies of a workload run.
pub struct WorkloadStats {
    total: u64,
    ok: u64,
    failed: u64,
    total_latency_ms: u64,
    max_latency_ms: u64,
    method_ok: Keyed<u64>,
    method_failed: Keyed<u64>,
}

/// The count of a method, 0 when it has none.
pub open spec fn count_of(m: Map<Seq<char>, u64>, method: Seq<char>) -> u64 {
    if m.contains_key(method) {
        m[method]
    } else {
        0
    }
}

impl WorkloadStats {
    pub closed spec fn spec_total(&self) -> u64 {
        self.total
    }

    pub closed spec fn spec_ok(&self) -> u64 {
        self.ok
    }

    pub closed spec fn spec_failed(&self) -> u64 {
        self.failed
    }

    pub closed spec fn spec_total_latency(&self) -> u64 {
        self.total_latency_ms
    }

    pub closed spec fn spec_max_latency(&self) -> u64 {
        self.max_latency_ms
    }

    /// Requests sent.
    pub fn total(&self) -> (n: u64)
        ensures
            n == self.spec_total(),
    {
        self.total
    }

    /// Requests that succeeded.
    pub fn ok(&self) -> (n: u64)
        ensures
            n == self.spec_ok(),
    {
        self.ok
    }

    /// Requests that failed.
    pub fn failed(&self) -> (n: u64)
        ensures
            n == self.spec_failed(),
    {
        self.failed
    }

    /// The summed latency of all requests, in milliseconds.
    pub fn total_latency_ms(&self) -> (n: u64)
        ensures
            n == self.spec_total_latency(),
    {
        self.total_latency_ms
    }

    /// The longest request, in milliseconds.
    pub fn max_latency_ms(&self) -> (n: u64)
        ensures
            n == self.spec_max_latency(),
    {
        self.max_latency_ms
    }

    /// Successful requests by method.
    pub closed spec fn spec_ok_by_method(&self) -> Map<Seq<char>, u64> {
        self.method_ok.spec_map()
    }

    /// Failed requests by method.
    pub closed spec fn spec_failed_by_method(&self) -> Map<Seq<char>, u64> {
        self.method_failed.spec_map()
    }

    /// The totals agree: every request succeeded or failed, and no method
    /// counts more requests than the totals.
    pub closed spec fn wf(&self) -> bool {
        &&& self.method_ok.wf()
        &&& self.method_failed.wf()
        &&& self.total == self.ok + self.failed
        &&& forall|m: Seq<char>| #[trigger] self.method_ok.spec_map().contains_key(m) ==> self.method_ok.spec_map()[m] <= self.ok
        &&& forall|m: Seq<char>| #[trigger] self.method_failed.spec_map().contains_key(m) ==> self.method_failed.spec_map()[m] <= self.failed
    }

    pub fn new() -> (s: WorkloadStats)
        ensures
            s.wf(),
            s.spec_total() == 0 && s.spec_ok() == 0 && s.spec_failed() == 0 && s.spec_total_latency() == 0
                && s.spec_max_latency() == 0,
            s.spec_ok_by_method() == Map::<Seq<char>, u64>::empty(),
            s.spec_failed_by_method() == Map::<Seq<char>, u64>::empty(),
    {
        WorkloadStats {
            total: 0,
            ok: 0,
            failed: 0,
            total_latency_ms: 0,
            max_latency_ms: 0,
            method_ok: Keyed::new(),
            method_failed: Keyed::new(),
        }
    }

    /// The index of the request sent next: requests are sent in turn.
    pub fn next_index(&self, len: usize) -> (i: usize)
        requires
            len > 0,
        ensures
            i == (self.spec_total() as usize) % len,
            i < len,
    {
        (self.total as usize) % len
    }

    /// Count one request of `method` that took `elapsed_ms`.
    pub fn record(&mut self, method: &str, success: bool, elapsed_ms: u64)
        requires
            old(self).wf(),
            old(self).spec_total() < u64::MAX,
            old(self).spec_total_latency() + elapsed_ms <= u64::MAX,
        ensures
            final(self).wf(),
            final(self).spec_total() == old(self).spec_total() + 1,
            final(self).spec_ok() == old(self).spec_ok() + if success {
                1int
            } else {
                0
            },
            final(self).spec_failed() == old(self).spec_failed() + if success {
                0int
            } else {
                1
            },
            final(self).spec_total_latency() == old(self).spec_total_latency() + elapsed_ms,
            final(self).spec_max_latency() == if elapsed_ms > old(self).spec_max_latency() {
                elapsed_ms
            } else {
                old(self).spec_max_latency()
            },
            final(self).spec_ok_by_method() == if success {
                old(self).spec_ok_by_method().insert(method@, (count_of(old(self).spec_ok_by_method(), method@) + 1) as u64)
            } else {
                old(self).spec_ok_by_method()
            },
            final(self).spec_failed_by_method() == if success {
                old(self).spec_failed_by_method()
            } else {
                old(self).spec_failed_by_method().insert(
                    method@,
                    (count_of(old(self).spec_failed_by_method(), method@) + 1) as u64,
                )
            },
    {
        self.total = self.total + 1;
        if success {
            self.ok = self.ok + 1;
            let c: u64 = match self.method_ok.get(method) {
                Some(c) => *c,
                None => 0,
            };
            self.method_ok.insert(String::from_str(method), c + 1);
        } else {
            self.failed = self.failed + 1;
            let c: u64 = match self.method_failed.get(method) {
                Some(c) => *c,
                None => 0,
            };
            self.method_failed.insert(String::from_str(method), c + 1);
        }
        self.total_latency_ms = self.total_latency_ms + elapsed_ms;
        if elapsed_ms > self.max_latency_ms {
            self.max_latency_ms = elapsed_ms;
        }
    }

    /// The mean latency, 0 before any request.
    pub fn avg_latency_ms(&self) -> (a: u64)
        ensures
            a == if self.spec_total() == 0 {
                0
            } else {
                self.spec_total_latency() / self.spec_total()
            },
    {
        if self.total == 0 {
            0
        } else {
            self.total_latency_ms / self.total
        }
    }

    /// The per-request breakdown: for each request, `<method> <path>` with
    /// the successes and failures of its method.
    pub fn breakdown(&self, reqs: &Vec<HttpReq>) -> (b: Vec<(String, u64, u64)>)
        requires
            self.wf(),
        ensures
            b@.len() == reqs@.len(),
            forall|i: int|
                0 <= i < reqs@.len() ==> (#[trigger] b@[i]).0@ == reqs@[i].method@ + " "@ + reqs@[i].path@
                    && b@[i].1 == count_of(self.spec_ok_by_method(), reqs@[i].method@)
                    && b@[i].2 == count_of(self.spec_failed_by_method(), reqs@[i].method@),
    {
        let mut b: Vec<(String, u64, u64)> = Vec::new();
        let mut i: usize = 0;
        while i < reqs.len()
            invariant
                self.wf(),
                i <= reqs@.len(),
                b@.len() == i,
                forall|k: int|
                    0 <= k < i ==> (#[trigger] b@[k]).0@ == reqs@[k].method@ + " "@ + reqs@[k].path@
                        && b@[k].1 == count_of(self.spec_ok_by_method(), reqs@[k].method@)
                        && b@[k].2 == count_of(self.spec_failed_by_method(), reqs@[k].method@),
            decreases reqs.len() - i,
        {
            let m = reqs[i].method.as_str();
            let ok: u64 = match self.method_ok.get(m) {
                Some(c) => *c,
                None => 0,
            };
            let failed: u64 = match self.method_failed.get(m) {
                Some(c) => *c,
                None => 0,
            };
            b.push((join3(m, " ", reqs[i].path.as_str()), ok, failed));
            i += 1;
        }
        b
    }
}

} // verus!
