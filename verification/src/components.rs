//! Virtualised components a substrate may offer: network links between
//! subjects and fault-injectable storage. These are the values their
//! controls exchange, with the parsing and validation rules for them.
use vstd::prelude::*;

use crate::text::{ascii_lower_seq, join3, starts_with, str_eq, string_of, chars_of, to_ascii_lower};

verus! {

pub const NETWORK_NOT_SUPPORTED: &'static str = "network control not supported by this substrate";

pub const STORAGE_NOT_SUPPORTED: &'static str = "storage control not supported by this substrate";

pub const CLOCK_NOT_SUPPORTED: &'static str = "virtual clocks not supported by this substrate";

/// Opaque identifier for an established link, owned by the substrate.
pub struct LinkId(pub String);

impl LinkId {
    /// Whether two link ids are the same.
    pub fn same(&self, other: &LinkId) -> (b: bool)
        ensures
            b == (self.0@ == other.0@),
    {
        str_eq(self.0.as_str(), other.0.as_str())
    }
}

impl Clone for LinkId {
    fn clone(&self) -> (l: LinkId)
        ensures
            l == *self,
    {
        LinkId(self.0.clone())
    }
}

/// Direction of a directional impairment or partition.
#[derive(Clone, Copy, Debug, PartialEq, Eq, Structural)]
pub enum Direction {
    /// Only traffic from the first subject to the second.
    AToB,
    /// Only traffic from the second subject to the first.
    BToA,
    /// Both directions.
    Both,
}

/// ASCII lower-casing with `_` turned into `-`.
pub open spec fn direction_key(s: Seq<char>) -> Seq<char> {
    ascii_lower_seq(s).map_values(|c: char| if c == '_' { '-' } else { c })
}

fn underscores_to_dashes(s: &str) -> (r: String)
    ensures
        r@ == s@.map_values(|c: char| if c == '_' { '-' } else { c }),
{
    let v = chars_of(s);
    let mut out: Vec<char> = Vec::new();
    let mut i: usize = 0;
    while i < v.len()
        invariant
            i <= v.len(),
            v@ == s@,
            out@ == s@.subrange(0, i as int).map_values(|c: char| if c == '_' { '-' } else { c }),
        decreases v.len() - i,
    {
        let c = v[i];
        out.push(if c == '_' { '-' } else { c });
        i += 1;
        assert(out@ =~= s@.subrange(0, i as int).map_values(|c: char| if c == '_' { '-' } else { c }));
    }
    assert(s@.subrange(0, v.len() as int) =~= s@);
    string_of(&out)
}

impl Direction {
    /// Parsing a direction: after ASCII lower-casing and turning `_` into
    /// `-`, one of `a-to-b`, `a->b`, `ab`, `b-to-a`, `b->a`, `ba`, `both`,
    /// `bidirectional`.
    pub open spec fn spec_parse(s: Seq<char>) -> Result<Direction, Seq<char>> {
        let k = direction_key(s);
        if k == "a-to-b"@ || k == "a->b"@ || k == "ab"@ {
            Ok(Direction::AToB)
        } else if k == "b-to-a"@ || k == "b->a"@ || k == "ba"@ {
            Ok(Direction::BToA)
        } else if k == "both"@ || k == "bidirectional"@ {
            Ok(Direction::Both)
        } else {
            Err("unknown direction '"@ + k + "' (expected \"a->b\", \"b->a\", or \"both\")"@)
        }
    }

    pub fn from_str(s: &str) -> (r: Result<Direction, String>)
        ensures
            crate::text::err_view(r) == Self::spec_parse(s@),
    {
        let lower = to_ascii_lower(s);
        let k = underscores_to_dashes(lower.as_str());
        let ks = k.as_str();
        if str_eq(ks, "a-to-b") || str_eq(ks, "a->b") || str_eq(ks, "ab") {
            Ok(Direction::AToB)
        } else if str_eq(ks, "b-to-a") || str_eq(ks, "b->a") || str_eq(ks, "ba") {
            Ok(Direction::BToA)
        } else if str_eq(ks, "both") || str_eq(ks, "bidirectional") {
            Ok(Direction::Both)
        } else {
            Err(join3("unknown direction '", ks, "' (expected \"a->b\", \"b->a\", or \"both\")"))
        }
    }
}

/// How a partition manifests on the wire.
#[derive(Clone, Copy, Debug, PartialEq, Eq, Structural)]
pub enum PartitionMode {
    /// Silently drop traffic (peers see timeouts).
    Blackhole,
    /// Actively reset connections (peers see connection resets).
    Reset,
}

impl PartitionMode {
    /// Parsing a mode: after ASCII lower-casing, `blackhole` or `drop`, or
    /// `reset`, `rst` or `reject`.
    pub open spec fn spec_parse(s: Seq<char>) -> Result<PartitionMode, Seq<char>> {
        let k = ascii_lower_seq(s);
        if k == "blackhole"@ || k == "drop"@ {
            Ok(PartitionMode::Blackhole)
        } else if k == "reset"@ || k == "rst"@ || k == "reject"@ {
            Ok(PartitionMode::Reset)
        } else {
            Err("unknown partition mode '"@ + k + "' (expected \"blackhole\" or \"reset\")"@)
        }
    }

    pub fn from_str(s: &str) -> (r: Result<PartitionMode, String>)
        ensures
            crate::text::err_view(r) == Self::spec_parse(s@),
    {
        let lower = to_ascii_lower(s);
        let k = lower.as_str();
        if str_eq(k, "blackhole") || str_eq(k, "drop") {
            Ok(PartitionMode::Blackhole)
        } else if str_eq(k, "reset") || str_eq(k, "rst") || str_eq(k, "reject") {
            Ok(PartitionMode::Reset)
        } else {
            Err(join3("unknown partition mode '", k, "' (expected \"blackhole\" or \"reset\")"))
        }
    }
}

/// The direction and mode of a partition from its options; an absent
/// direction is `both` and an absent mode `blackhole`. The direction is
/// read first.
pub fn partition_options(direction: Option<String>, mode: Option<String>) -> (r: Result<
    (Direction, PartitionMode),
    String,
>)
    ensures
        ({
            let d = match direction {
                Some(x) => x@,
                None => "both"@,
            };
            let m = match mode {
                Some(x) => x@,
                None => "blackhole"@,
            };
            match r {
                Ok((dir, md)) => Direction::spec_parse(d) == Ok::<Direction, Seq<char>>(dir)
                    && PartitionMode::spec_parse(m) == Ok::<PartitionMode, Seq<char>>(md),
                Err(e) => match Direction::spec_parse(d) {
                    Err(x) => e@ == x,
                    Ok(_) => PartitionMode::spec_parse(m) == Err::<PartitionMode, Seq<char>>(e@),
                },
            }
        }),
{
    let d = match direction {
        Some(x) => x,
        None => String::from_str("both"),
    };
    let m = match mode {
        Some(x) => x,
        None => String::from_str("blackhole"),
    };
    let dir = match Direction::from_str(d.as_str()) {
        Ok(x) => x,
        Err(e) => return Err(e),
    };
    match PartitionMode::from_str(m.as_str()) {
        Ok(md) => Ok((dir, md)),
        Err(e) => Err(e),
    }
}

/// Options for attaching a virtual disk to a subject.
pub struct StorageOpts {
    /// Disk capacity in mebibytes; reaching it yields ENOSPC in the subject.
    pub size_mb: u64,
    /// Mount point inside the subject.
    pub mount: String,
}

impl StorageOpts {
    /// Checking storage options: the size must be positive and the mount
    /// point an absolute path.
    pub open spec fn spec_validate(size_mb: u64, mount: Seq<char>) -> Result<(), Seq<char>> {
        if size_mb == 0 {
            Err("storage: size_mb must be > 0"@)
        } else if !"/"@.is_prefix_of(mount) {
            Err("storage: mount must be an absolute path"@)
        } else {
            Ok(())
        }
    }

    pub fn validate(&self) -> (r: Result<(), String>)
        ensures
            crate::text::err_view(r) == Self::spec_validate(self.size_mb, self.mount@),
    {
        if self.size_mb == 0 {
            return Err(String::from_str("storage: size_mb must be > 0"));
        }
        if !starts_with(self.mount.as_str(), "/") {
            return Err(String::from_str("storage: mount must be an absolute path"));
        }
        Ok(())
    }
}

} // verus!
