//! Character-level text helpers with exact specifications.
//!
//! The harness builds names, device-mapper tables, shell commands and error
//! messages out of smaller strings, and parses short tokens (fault names,
//! tiers, directions). These helpers state precisely what they produce, so
//! the contracts of the functions built on them can be exact.
use vstd::prelude::*;

verus! {

/// Appending one character to a `String` extends its character sequence by
/// exactly that character (documented behaviour of `String::push`).
pub assume_specification[ String::push ](s: &mut String, ch: char)
    ensures
        final(s)@ == old(s)@.push(ch),
;

/// ASCII lower-casing of one character; other characters are unchanged.
pub open spec fn ascii_lower(c: char) -> char {
    if 'A' <= c && c <= 'Z' {
        ((c as u32) + 32) as char
    } else {
        c
    }
}

/// A `Result` whose error text is seen as a character sequence.
pub open spec fn err_view<T>(r: Result<T, String>) -> Result<T, Seq<char>> {
    match r {
        Ok(v) => Ok(v),
        Err(e) => Err(e@),
    }
}

/// A `Result` of strings seen as character sequences.
pub open spec fn text_result(r: Result<String, String>) -> Result<Seq<char>, Seq<char>> {
    match r {
        Ok(v) => Ok(v@),
        Err(e) => Err(e@),
    }
}

/// An optional string seen as a character sequence.
pub open spec fn opt_text(s: Option<String>) -> Option<Seq<char>> {
    match s {
        Some(x) => Some(x@),
        None => None,
    }
}

/// ASCII lower-casing of a whole character sequence.
pub open spec fn ascii_lower_seq(s: Seq<char>) -> Seq<char> {
    s.map_values(|c: char| ascii_lower(c))
}

pub fn lower_char(c: char) -> (r: char)
    ensures
        r == ascii_lower(c),
{
    if 'A' <= c && c <= 'Z' {
        let u: u32 = (c as u32) + 32;
        assert(0x61 <= u <= 0x7a);
        char_from_ascii(u)
    } else {
        c
    }
}

/// Character for an ASCII code point.
fn char_from_ascii(u: u32) -> (c: char)
    requires
        u < 128,
    ensures
        c == u as char,
{
    (u as u8) as char
}

/// The characters of `s`, in order.
pub fn chars_of(s: &str) -> (v: Vec<char>)
    ensures
        v@ == s@,
{
    let n = s.unicode_len();
    let mut v: Vec<char> = Vec::new();
    let mut i: usize = 0;
    while i < n
        invariant
            n == s@.len(),
            i <= n,
            v@ == s@.subrange(0, i as int),
        decreases n - i,
    {
        v.push(s.get_char(i));
        i += 1;
        assert(v@ =~= s@.subrange(0, i as int));
    }
    assert(v@ =~= s@);
    v
}

/// A string holding exactly the characters of `v`.
pub fn string_of(v: &Vec<char>) -> (s: String)
    ensures
        s@ == v@,
{
    let mut s = String::new();
    let mut i: usize = 0;
    while i < v.len()
        invariant
            i <= v.len(),
            s@ == v@.subrange(0, i as int),
        decreases v.len() - i,
    {
        s.push(v[i]);
        i += 1;
        assert(s@ =~= v@.subrange(0, i as int));
    }
    assert(s@ =~= v@);
    s
}

/// ASCII lower-cased copy of `s`.
pub fn to_ascii_lower(s: &str) -> (r: String)
    ensures
        r@ == ascii_lower_seq(s@),
{
    let v = chars_of(s);
    let mut out = String::new();
    let mut i: usize = 0;
    while i < v.len()
        invariant
            i <= v.len(),
            v@ == s@,
            out@ == ascii_lower_seq(s@.subrange(0, i as int)),
        decreases v.len() - i,
    {
        let c = lower_char(v[i]);
        out.push(c);
        i += 1;
        assert(out@ =~= ascii_lower_seq(s@.subrange(0, i as int)));
    }
    assert(s@.subrange(0, v.len() as int) =~= s@);
    out
}

/// Exact equality of two character sequences.
pub fn str_eq(a: &str, b: &str) -> (r: bool)
    ensures
        r == (a@ == b@),
{
    let va = chars_of(a);
    let vb = chars_of(b);
    if va.len() != vb.len() {
        return false;
    }
    let mut i: usize = 0;
    while i < va.len()
        invariant
            va@ == a@,
            vb@ == b@,
            va.len() == vb.len(),
            i <= va.len(),
            forall|j: int| 0 <= j < i ==> va@[j] == vb@[j],
        decreases va.len() - i,
    {
        if va[i] != vb[i] {
            return false;
        }
        i += 1;
    }
    assert(a@ =~= b@);
    true
}

/// ASCII case-insensitive equality (`str::eq_ignore_ascii_case`).
pub fn eq_ignore_ascii_case(a: &str, b: &str) -> (r: bool)
    ensures
        r == (ascii_lower_seq(a@) == ascii_lower_seq(b@)),
{
    let la = to_ascii_lower(a);
    let lb = to_ascii_lower(b);
    str_eq(la.as_str(), lb.as_str())
}

/// `s` with `prefix` removed from its front, when `s` starts with it.
pub fn strip_prefix<'a>(s: &'a str, prefix: &str) -> (r: Option<&'a str>)
    ensures
        match r {
            Some(rest) => s@ == prefix@ + rest@,
            None => !prefix@.is_prefix_of(s@),
        },
{
    let n = s.unicode_len();
    let m = prefix.unicode_len();
    if m > n {
        return None;
    }
    let head = s.substring_char(0, m);
    if str_eq(head, prefix) {
        let rest = s.substring_char(m, n);
        assert(s@ =~= prefix@ + rest@);
        Some(rest)
    } else {
        assert(!prefix@.is_prefix_of(s@)) by {
            if prefix@.is_prefix_of(s@) {
                assert(head@ =~= prefix@);
            }
        }
        None
    }
}

/// Whether `s` begins with `prefix`.
pub fn starts_with(s: &str, prefix: &str) -> (r: bool)
    ensures
        r == prefix@.is_prefix_of(s@),
{
    match strip_prefix(s, prefix) {
        Some(_) => true,
        None => false,
    }
}

/// `s` with `suffix` removed from its end, when `s` ends with it.
pub fn strip_suffix<'a>(s: &'a str, suffix: &str) -> (r: Option<&'a str>)
    ensures
        match r {
            Some(rest) => s@ == rest@ + suffix@,
            None => !suffix@.is_suffix_of(s@),
        },
{
    let n = s.unicode_len();
    let m = suffix.unicode_len();
    if m > n {
        return None;
    }
    let tail = s.substring_char(n - m, n);
    if str_eq(tail, suffix) {
        let rest = s.substring_char(0, n - m);
        assert(s@ =~= rest@ + suffix@);
        Some(rest)
    } else {
        assert(!suffix@.is_suffix_of(s@)) by {
            if suffix@.is_suffix_of(s@) {
                assert(tail@ =~= suffix@);
            }
        }
        None
    }
}

/// Whether `s` ends with `suffix`.
pub fn ends_with(s: &str, suffix: &str) -> (r: bool)
    ensures
        r == suffix@.is_suffix_of(s@),
{
    let n = s.unicode_len();
    let m = suffix.unicode_len();
    if m > n {
        return false;
    }
    let tail = s.substring_char(n - m, n);
    let r = str_eq(tail, suffix);
    proof {
        if suffix@.is_suffix_of(s@) {
            assert(tail@ =~= suffix@);
        }
    }
    r
}

/// Decimal digit character for `d < 10`.
pub open spec fn digit_char(d: nat) -> char {
    (('0' as u32) + d) as char
}

/// Decimal representation of a natural number, most significant digit
/// first, without leading zeros (`"0"` for zero).
pub open spec fn decimal(n: nat) -> Seq<char>
    decreases n,
{
    if n < 10 {
        seq![digit_char(n)]
    } else {
        decimal(n / 10).push(digit_char(n % 10))
    }
}

/// Decimal representation of an integer, with a leading `-` when negative.
pub open spec fn signed_decimal(n: int) -> Seq<char> {
    if n < 0 {
        seq!['-'] + decimal((-n) as nat)
    } else {
        decimal(n as nat)
    }
}

/// Decimal representations are never empty, and have at least two digits
/// from ten on.
pub proof fn decimal_len(n: nat)
    ensures
        decimal(n).len() >= 1,
        n >= 10 ==> decimal(n).len() >= 2,
    decreases n,
{
    if n >= 10 {
        decimal_len(n / 10);
    }
}

/// Different numbers have different decimal representations.
pub proof fn decimal_injective(a: nat, b: nat)
    requires
        decimal(a) == decimal(b),
    ensures
        a == b,
    decreases a,
{
    decimal_len(a);
    decimal_len(b);
    if a >= 10 && b >= 10 {
        assert(decimal(a).drop_last() == decimal(a / 10));
        assert(decimal(b).drop_last() == decimal(b / 10));
        decimal_injective(a / 10, b / 10);
        assert(decimal(a).last() == digit_char(a % 10));
        assert(decimal(b).last() == digit_char(b % 10));
    } else if a < 10 && b < 10 {
        assert(decimal(a)[0] == digit_char(a));
        assert(decimal(b)[0] == digit_char(b));
    }
}

fn digit(d: u128) -> (c: char)
    requires
        d < 10,
    ensures
        c == digit_char(d as nat),
{
    char_from_ascii((d as u32) + 48)
}

/// Decimal text of an unsigned number (as `u128::to_string` writes it).
pub fn u128_text(n: u128) -> (s: String)
    ensures
        s@ == decimal(n as nat),
    decreases n,
{
    if n < 10 {
        let mut s = String::new();
        s.push(digit(n));
        assert(s@ =~= decimal(n as nat));
        s
    } else {
        let mut s = u128_text(n / 10);
        s.push(digit(n % 10));
        s
    }
}

/// Decimal text of an unsigned number (as `u64::to_string` writes it).
pub fn u64_text(n: u64) -> (s: String)
    ensures
        s@ == decimal(n as nat),
{
    u128_text(n as u128)
}

/// Decimal text of a signed number (as `i64::to_string` writes it).
pub fn i64_text(n: i64) -> (s: String)
    ensures
        s@ == signed_decimal(n as int),
{
    if n < 0 {
        let magnitude: u64 = if n == i64::MIN {
            9_223_372_036_854_775_808u64
        } else {
            (-n) as u64
        };
        let digits = u64_text(magnitude);
        let mut s = String::new();
        s.push('-');
        let r = s.concat(digits.as_str());
        assert(r@ =~= signed_decimal(n as int));
        r
    } else {
        u64_text(n as u64)
    }
}

/// Concatenation of two strings into a fresh `String`.
pub fn join2(a: &str, b: &str) -> (s: String)
    ensures
        s@ == a@ + b@,
{
    let s = String::from_str(a);
    s.concat(b)
}

/// Concatenation of three strings into a fresh `String`.
pub fn join3(a: &str, b: &str, c: &str) -> (s: String)
    ensures
        s@ == a@ + b@ + c@,
{
    join2(a, b).concat(c)
}

/// The parts joined with `sep` between consecutive parts.
pub open spec fn seq_join(parts: Seq<Seq<char>>, sep: Seq<char>) -> Seq<char>
    decreases parts.len(),
{
    if parts.len() == 0 {
        Seq::empty()
    } else if parts.len() == 1 {
        parts[0]
    } else {
        seq_join(parts.drop_last(), sep) + sep + parts.last()
    }
}

/// Join strings with a separator (as `[String]::join` does).
pub fn join_with(parts: &Vec<String>, sep: &str) -> (s: String)
    ensures
        s@ == seq_join(parts@.map_values(|p: String| p@), sep@),
{
    let ghost views = parts@.map_values(|p: String| p@);
    let mut out = String::new();
    let mut i: usize = 0;
    while i < parts.len()
        invariant
            i <= parts@.len(),
            views == parts@.map_values(|p: String| p@),
            out@ == seq_join(views.subrange(0, i as int), sep@),
        decreases parts.len() - i,
    {
        assert(views.subrange(0, i + 1).drop_last() =~= views.subrange(0, i as int));
        if i == 0 {
            out.append(parts[i].as_str());
            assert(out@ =~= seq_join(views.subrange(0, 1), sep@));
        } else {
            out.append(sep);
            out.append(parts[i].as_str());
        }
        i += 1;
    }
    assert(views.subrange(0, parts@.len() as int) =~= views);
    out
}

/// `dir` with the relative path `name` appended (as `Path::join` does on
/// Unix): no separator is added after an empty `dir` or one ending in `/`.
pub open spec fn path_join(dir: Seq<char>, name: Seq<char>) -> Seq<char> {
    if dir.len() == 0 || dir.last() == '/' {
        dir + name
    } else {
        dir + "/"@ + name
    }
}

/// Append the relative path `name` to `dir` (see [`path_join`]).
pub fn join_path(dir: &str, name: &str) -> (p: String)
    ensures
        p@ == path_join(dir@, name@),
{
    let n = dir.unicode_len();
    if n == 0 || dir.get_char(n - 1) == '/' {
        join2(dir, name)
    } else {
        join3(dir, "/", name)
    }
}

/// Integer division rounding toward zero (as Rust's `/` on signed
/// integers), for a positive divisor.
pub open spec fn trunc_div(a: int, b: int) -> int {
    if a >= 0 {
        a / b
    } else {
        -((-a) / b)
    }
}

/// The Unicode lower-case mapping of a character sequence, as
/// `str::to_lowercase` computes it (full case mapping, including the
/// context-dependent final sigma).
pub uninterp spec fn unicode_lower(s: Seq<char>) -> Seq<char>;

/// The Unicode upper-case mapping of a character sequence, as
/// `str::to_uppercase` computes it (full case mapping).
pub uninterp spec fn unicode_upper(s: Seq<char>) -> Seq<char>;

/// ASCII upper-casing of one character.
pub open spec fn ascii_upper(c: char) -> char {
    if 'a' as u32 <= c as u32 <= 'z' as u32 {
        ((c as u32) - 32) as char
    } else {
        c
    }
}

/// `str::to_uppercase`: the result is the Unicode upper-case mapping of the
/// argument, a function of its characters alone. Of the mapping itself only
/// this is stated: on ASCII text it is the ASCII upper-casing (Unicode maps
/// `a`..`z` to `A`..`Z` and leaves every other ASCII character alone).
#[verifier::external_body]
pub(crate) fn to_unicode_upper(s: &str) -> (r: String)
    ensures
        r@ == unicode_upper(s@),
        all_ascii(s@) ==> r@ == s@.map_values(|c: char| ascii_upper(c)),
{
    s.to_uppercase()
}

/// Every character is in the ASCII range.
pub open spec fn all_ascii(s: Seq<char>) -> bool {
    forall|i: int| 0 <= i < s.len() ==> (s[i] as u32) < 128
}

/// `str::to_lowercase`: the result is the Unicode lower-case mapping of the
/// argument, a function of its characters alone. Of the mapping itself only
/// this is stated: on ASCII text it is the ASCII lower-casing (Unicode maps
/// `A`..`Z` to `a`..`z` and leaves every other ASCII character alone).
#[verifier::external_body]
pub(crate) fn to_unicode_lower(s: &str) -> (r: String)
    ensures
        r@ == unicode_lower(s@),
        all_ascii(s@) ==> r@ == ascii_lower_seq(s@),
{
    s.to_lowercase()
}

/// The text integer parsing gives for an empty string.
pub const PARSE_EMPTY: &'static str = "cannot parse integer from empty string";

/// The text integer parsing gives for a character that is not a digit.
pub const PARSE_INVALID_DIGIT: &'static str = "invalid digit found in string";

/// The text integer parsing gives for a value above the type's maximum.
pub const PARSE_OVERFLOW: &'static str = "number too large to fit in target type";

/// The text integer parsing gives for a value below the type's minimum.
pub const PARSE_UNDERFLOW: &'static str = "number too small to fit in target type";

pub open spec fn is_digit(c: char) -> bool {
    '0' as u32 <= c as u32 <= '9' as u32
}

pub open spec fn digit_value(c: char) -> nat {
    (c as u32 - '0' as u32) as nat
}

/// Reading the digits of `s` from left to right into a magnitude of at most
/// `bound`: the first character that is not a digit, or the first digit
/// that takes the magnitude above `bound` (error `over`), decides the error.
pub open spec fn parse_digits(s: Seq<char>, bound: nat, over: Seq<char>) -> Result<nat, Seq<char>>
    decreases s.len(),
{
    if s.len() == 0 {
        Ok(0)
    } else {
        match parse_digits(s.drop_last(), bound, over) {
            Err(e) => Err(e),
            Ok(a) => if !is_digit(s.last()) {
                Err(PARSE_INVALID_DIGIT@)
            } else if a * 10 + digit_value(s.last()) > bound {
                Err(over)
            } else {
                Ok(a * 10 + digit_value(s.last()))
            },
        }
    }
}

/// Parsing an unsigned 64-bit decimal number as `u64::from_str` does: an
/// optional leading `+`, then at least one digit.
pub open spec fn parse_u64_spec(s: Seq<char>) -> Result<nat, Seq<char>> {
    if s.len() == 0 {
        Err(PARSE_EMPTY@)
    } else {
        let digits = if s[0] == '+' {
            s.drop_first()
        } else {
            s
        };
        if digits.len() == 0 {
            Err(PARSE_INVALID_DIGIT@)
        } else {
            parse_digits(digits, u64::MAX as nat, PARSE_OVERFLOW@)
        }
    }
}

/// Parsing a signed 64-bit decimal number as `i64::from_str` does: an
/// optional leading `+` or `-`, then at least one digit.
pub open spec fn parse_i64_spec(s: Seq<char>) -> Result<int, Seq<char>> {
    if s.len() == 0 {
        Err(PARSE_EMPTY@)
    } else if s[0] == '-' {
        if s.len() == 1 {
            Err(PARSE_INVALID_DIGIT@)
        } else {
            match parse_digits(s.drop_first(), 0x8000_0000_0000_0000nat, PARSE_UNDERFLOW@) {
                Ok(m) => Ok(-m),
                Err(e) => Err(e),
            }
        }
    } else {
        let digits = if s[0] == '+' {
            s.drop_first()
        } else {
            s
        };
        if digits.len() == 0 {
            Err(PARSE_INVALID_DIGIT@)
        } else {
            match parse_digits(digits, i64::MAX as nat, PARSE_OVERFLOW@) {
                Ok(m) => Ok(m as int),
                Err(e) => Err(e),
            }
        }
    }
}

/// Once reading a prefix of the digits fails, reading any longer prefix
/// fails the same way.
proof fn lemma_parse_digits_stuck(s: Seq<char>, k: int, bound: nat, over: Seq<char>)
    requires
        0 <= k <= s.len(),
        parse_digits(s.subrange(0, k), bound, over) is Err,
    ensures
        parse_digits(s, bound, over) == parse_digits(s.subrange(0, k), bound, over),
    decreases s.len() - k,
{
    if k < s.len() {
        let next = s.subrange(0, k + 1);
        assert(next.drop_last() =~= s.subrange(0, k));
        lemma_parse_digits_stuck(s, k + 1, bound, over);
    } else {
        assert(s.subrange(0, k) =~= s);
    }
}

/// Read the digits of `v[start..]` (see [`parse_digits`]).
fn read_digits(v: &Vec<char>, start: usize, bound: u64, over: &str) -> (r: Result<u64, String>)
    requires
        start <= v@.len(),
    ensures
        match r {
            Ok(n) => parse_digits(v@.subrange(start as int, v@.len() as int), bound as nat, over@)
                == Ok::<nat, Seq<char>>(n as nat),
            Err(e) => parse_digits(v@.subrange(start as int, v@.len() as int), bound as nat, over@)
                == Err::<nat, Seq<char>>(e@),
        },
{
    let ghost digits = v@.subrange(start as int, v@.len() as int);
    let mut acc: u64 = 0;
    let mut i: usize = start;
    assert(digits.subrange(0, 0) =~= Seq::<char>::empty());
    while i < v.len()
        invariant
            start <= i <= v@.len(),
            digits == v@.subrange(start as int, v@.len() as int),
            acc <= bound,
            parse_digits(digits.subrange(0, i - start), bound as nat, over@) == Ok::<nat, Seq<char>>(acc as nat),
        decreases v.len() - i,
    {
        let c = v[i];
        let ghost pre = digits.subrange(0, i - start);
        let ghost next = digits.subrange(0, i + 1 - start);
        assert(next.drop_last() =~= pre);
        assert(next.last() == c);
        let u = c as u32;
        assert(('0' as u32) == 48 && ('9' as u32) == 57);
        if u < 48 || u > 57 {
            proof {
                assert(parse_digits(next, bound as nat, over@) == Err::<nat, Seq<char>>(PARSE_INVALID_DIGIT@));
                lemma_parse_digits_stuck(digits, (i + 1 - start) as int, bound as nat, over@);
            }
            return Err(String::from_str(PARSE_INVALID_DIGIT));
        }
        let d = (u - 48) as u64;
        if d > bound || acc > (bound - d) / 10 {
            proof {
                if d <= bound {
                    assert(acc * 10 + d > bound) by (nonlinear_arith)
                        requires acc > (bound - d) / 10, d <= bound;
                }
                assert(parse_digits(next, bound as nat, over@) == Err::<nat, Seq<char>>(over@));
                lemma_parse_digits_stuck(digits, (i + 1 - start) as int, bound as nat, over@);
            }
            return Err(String::from_str(over));
        }
        assert(acc * 10 + d <= bound) by (nonlinear_arith)
            requires acc <= (bound - d) / 10, d <= bound;
        acc = acc * 10 + d;
        i += 1;
    }
    assert(digits.subrange(0, v@.len() - start) =~= digits);
    Ok(acc)
}

/// Parse an unsigned 64-bit decimal number (see [`parse_u64_spec`]).
pub fn parse_u64(s: &str) -> (r: Result<u64, String>)
    ensures
        match r {
            Ok(n) => parse_u64_spec(s@) == Ok::<nat, Seq<char>>(n as nat),
            Err(e) => parse_u64_spec(s@) == Err::<nat, Seq<char>>(e@),
        },
{
    let v = chars_of(s);
    if v.len() == 0 {
        return Err(String::from_str(PARSE_EMPTY));
    }
    let start: usize = if v[0] == '+' { 1 } else { 0 };
    assert((if s@[0] == '+' { s@.drop_first() } else { s@ }) =~= s@.subrange(start as int, s@.len() as int));
    if start == v.len() {
        return Err(String::from_str(PARSE_INVALID_DIGIT));
    }
    read_digits(&v, start, u64::MAX, PARSE_OVERFLOW)
}

/// Parse a signed 64-bit decimal number (see [`parse_i64_spec`]).
pub fn parse_i64(s: &str) -> (r: Result<i64, String>)
    ensures
        match r {
            Ok(n) => parse_i64_spec(s@) == Ok::<int, Seq<char>>(n as int),
            Err(e) => parse_i64_spec(s@) == Err::<int, Seq<char>>(e@),
        },
{
    let v = chars_of(s);
    if v.len() == 0 {
        return Err(String::from_str(PARSE_EMPTY));
    }
    if v[0] == '-' {
        if v.len() == 1 {
            return Err(String::from_str(PARSE_INVALID_DIGIT));
        }
        assert(s@.drop_first() =~= s@.subrange(1, s@.len() as int));
        match read_digits(&v, 1, 0x8000_0000_0000_0000u64, PARSE_UNDERFLOW) {
            Err(e) => Err(e),
            Ok(m) => {
                if m == 0x8000_0000_0000_0000u64 {
                    Ok(i64::MIN)
                } else {
                    Ok(-(m as i64))
                }
            },
        }
    } else {
        let start: usize = if v[0] == '+' { 1 } else { 0 };
        assert((if s@[0] == '+' { s@.drop_first() } else { s@ }) =~= s@.subrange(start as int, s@.len() as int));
        if start == v.len() {
            return Err(String::from_str(PARSE_INVALID_DIGIT));
        }
        match read_digits(&v, start, i64::MAX as u64, PARSE_OVERFLOW) {
            Err(e) => Err(e),
            Ok(m) => Ok(m as i64),
        }
    }
}

/// The characters `char::is_whitespace` accepts: Unicode `White_Space`.
pub open spec fn is_space(c: char) -> bool {
    let u = c as u32;
    (0x9 <= u <= 0xd) || u == 0x20 || u == 0x85 || u == 0xa0 || u == 0x1680 || (0x2000 <= u <= 0x200a)
        || u == 0x2028 || u == 0x2029 || u == 0x202f || u == 0x205f || u == 0x3000
}

fn space(c: char) -> (b: bool)
    ensures
        b == is_space(c),
{
    let u = c as u32;
    (0x9 <= u && u <= 0xd) || u == 0x20 || u == 0x85 || u == 0xa0 || u == 0x1680 || (0x2000 <= u && u
        <= 0x200a) || u == 0x2028 || u == 0x2029 || u == 0x202f || u == 0x205f || u == 0x3000
}

/// The separator of [`split_on`]: a line feed, or any white space.
pub open spec fn is_sep(newline: bool, c: char) -> bool {
    if newline {
        c == '\n'
    } else {
        is_space(c)
    }
}

/// `s` cut at every separator (which is dropped); `k` separators give
/// `k + 1` pieces, some of them possibly empty.
pub open spec fn split_on(s: Seq<char>, newline: bool) -> Seq<Seq<char>>
    decreases s.len(),
{
    if s.len() == 0 {
        seq![Seq::empty()]
    } else {
        let r = split_on(s.drop_last(), newline);
        if is_sep(newline, s.last()) {
            r.push(Seq::empty())
        } else {
            r.update(r.len() - 1, r.last().push(s.last()))
        }
    }
}

pub open spec fn strip_cr(l: Seq<char>) -> Seq<char> {
    if l.len() > 0 && l.last() == '\r' {
        l.drop_last()
    } else {
        l
    }
}

/// The lines of `s` as `str::lines` gives them: cut at each line feed,
/// with a carriage return before a line feed dropped; a last line without
/// a line feed counts when it is not empty.
pub open spec fn lines_of(s: Seq<char>) -> Seq<Seq<char>> {
    let p = split_on(s, true);
    let ended = p.drop_last().map_values(|l: Seq<char>| strip_cr(l));
    if p.last().len() > 0 {
        ended.push(p.last())
    } else {
        ended
    }
}

/// The words of `s` as `str::split_whitespace` gives them: the non-empty
/// runs of characters between white space.
pub open spec fn words_of(s: Seq<char>) -> Seq<Seq<char>> {
    drop_empty(split_on(s, false))
}

/// The non-empty pieces, in order.
pub open spec fn drop_empty(p: Seq<Seq<char>>) -> Seq<Seq<char>>
    decreases p.len(),
{
    if p.len() == 0 {
        p
    } else if p.last().len() > 0 {
        drop_empty(p.drop_last()).push(p.last())
    } else {
        drop_empty(p.drop_last())
    }
}

proof fn lemma_split_nonempty(s: Seq<char>, newline: bool)
    ensures
        split_on(s, newline).len() >= 1,
    decreases s.len(),
{
    if s.len() > 0 {
        lemma_split_nonempty(s.drop_last(), newline);
    }
}

/// `s` cut at each separator (see [`split_on`]).
fn split(s: &str, newline: bool) -> (r: Vec<String>)
    ensures
        r@.map_values(|x: String| x@) == split_on(s@, newline),
{
    let v = chars_of(s);
    let mut done: Vec<String> = Vec::new();
    let mut cur: Vec<char> = Vec::new();
    let mut i: usize = 0;
    while i < v.len()
        invariant
            i <= v@.len(),
            v@ == s@,
            done@.map_values(|x: String| x@).push(cur@) == split_on(s@.subrange(0, i as int), newline),
        decreases v.len() - i,
    {
        let c = v[i];
        let ghost pre = s@.subrange(0, i as int);
        assert(s@.subrange(0, i + 1).drop_last() =~= pre);
        let sep = if newline { c == '\n' } else { space(c) };
        if sep {
            done.push(string_of(&cur));
            cur = Vec::new();
            proof {
                lemma_split_nonempty(pre, newline);
            }
            assert(done@.map_values(|x: String| x@).push(cur@) =~= split_on(s@.subrange(0, i + 1), newline));
        } else {
            let ghost old_done = done@.map_values(|x: String| x@);
            cur.push(c);
            proof {
                lemma_split_nonempty(pre, newline);
            }
            assert(done@.map_values(|x: String| x@).push(cur@) =~= split_on(s@.subrange(0, i + 1), newline));
        }
        i += 1;
    }
    assert(s@.subrange(0, v@.len() as int) =~= s@);
    done.push(string_of(&cur));
    assert(done@.map_values(|x: String| x@) =~= split_on(s@, newline));
    done
}

/// The lines of `s` (see [`lines_of`]).
pub fn lines(s: &str) -> (r: Vec<String>)
    ensures
        r@.map_values(|x: String| x@) == lines_of(s@),
{
    let pieces = split(s, true);
    let ghost p = split_on(s@, true);
    proof {
        lemma_split_nonempty(s@, true);
    }
    let n = pieces.len();
    let mut out: Vec<String> = Vec::new();
    let mut i: usize = 0;
    while i + 1 < n
        invariant
            n == pieces@.len(),
            n >= 1,
            i < n,
            pieces@.map_values(|x: String| x@) == p,
            out@.map_values(|x: String| x@) == p.subrange(0, i as int).map_values(|l: Seq<char>| strip_cr(l)),
        decreases n - i,
    {
        let piece = pieces[i].as_str();
        let m = piece.unicode_len();
        let line = if m > 0 && piece.get_char(m - 1) == '\r' {
            assert(piece@.subrange(0, m - 1) =~= piece@.drop_last());
            String::from_str(piece.substring_char(0, m - 1))
        } else {
            String::from_str(piece)
        };
        assert(line@ == strip_cr(piece@));
        assert(pieces@.map_values(|x: String| x@)[i as int] == piece@);
        let ghost before = out@.map_values(|x: String| x@);
        out.push(line);
        assert(out@.map_values(|x: String| x@) =~= before.push(strip_cr(p[i as int])));
        assert(p.subrange(0, i + 1).map_values(|l: Seq<char>| strip_cr(l)) =~= p.subrange(0, i as int).map_values(
            |l: Seq<char>| strip_cr(l),
        ).push(strip_cr(p[i as int])));
        i += 1;
        assert(out@.map_values(|x: String| x@) =~= p.subrange(0, i as int).map_values(|l: Seq<char>| strip_cr(l)));
    }
    assert(p.subrange(0, n - 1) =~= p.drop_last());
    let last = pieces[n - 1].as_str();
    assert(pieces@.map_values(|x: String| x@)[n - 1] == last@);
    if last.unicode_len() > 0 {
        out.push(String::from_str(last));
        assert(out@.map_values(|x: String| x@) =~= lines_of(s@));
    }
    out
}

/// The words of `s` (see [`words_of`]).
pub fn words(s: &str) -> (r: Vec<String>)
    ensures
        r@.map_values(|x: String| x@) == words_of(s@),
{
    let pieces = split(s, false);
    let ghost p = split_on(s@, false);
    let mut out: Vec<String> = Vec::new();
    let mut i: usize = 0;
    while i < pieces.len()
        invariant
            i <= pieces@.len(),
            pieces@.map_values(|x: String| x@) == p,
            out@.map_values(|x: String| x@) == drop_empty(p.subrange(0, i as int)),
        decreases pieces.len() - i,
    {
        let ghost sub = p.subrange(0, i + 1);
        assert(sub.drop_last() =~= p.subrange(0, i as int));
        assert(pieces@.map_values(|x: String| x@)[i as int] == pieces[i as int]@);
        let ghost before = out@.map_values(|x: String| x@);
        assert(sub.last() == pieces@[i as int]@);
        if pieces[i].unicode_len() > 0 {
            out.push(pieces[i].clone());
            assert(out@.map_values(|x: String| x@) =~= before.push(sub.last()));
        } else {
            assert(out@.map_values(|x: String| x@) =~= before);
        }
        i += 1;
        assert(out@.map_values(|x: String| x@) == drop_empty(p.subrange(0, i as int)));
    }
    assert(p.subrange(0, pieces@.len() as int) =~= p);
    out
}

/// `s` without white space at either end (as `str::trim` gives it).
pub open spec fn trim_of(s: Seq<char>) -> Seq<char>
    decreases s.len(),
{
    if s.len() > 0 && is_space(s[0]) {
        trim_of(s.drop_first())
    } else if s.len() > 0 && is_space(s.last()) {
        trim_of(s.drop_last())
    } else {
        s
    }
}

/// `s` without white space at either end (see [`trim_of`]).
pub fn trim(s: &str) -> (r: &str)
    ensures
        r@ == trim_of(s@),
{
    let n = s.unicode_len();
    let mut a: usize = 0;
    assert(s@.subrange(0, n as int) =~= s@);
    while a < n && space(s.get_char(a))
        invariant
            a <= n,
            n == s@.len(),
            trim_of(s@) == trim_of(s@.subrange(a as int, n as int)),
        decreases n - a,
    {
        assert(s@.subrange(a as int, n as int).drop_first() =~= s@.subrange(a + 1, n as int));
        a += 1;
    }
    let mut b: usize = n;
    while b > a && space(s.get_char(b - 1))
        invariant
            a <= b <= n,
            n == s@.len(),
            a < n ==> !is_space(s@[a as int]),
            trim_of(s@) == trim_of(s@.subrange(a as int, b as int)),
        decreases b - a,
    {
        let ghost t = s@.subrange(a as int, b as int);
        assert(t.drop_last() =~= s@.subrange(a as int, b - 1));
        assert(t[0] == s@[a as int]);
        b -= 1;
    }
    s.substring_char(a, b)
}

/// Reading back the decimal text of a number within `bound` gives the
/// number.
proof fn lemma_parse_decimal(n: nat, bound: nat, over: Seq<char>)
    requires
        n <= bound,
    ensures
        parse_digits(decimal(n), bound, over) == Ok::<nat, Seq<char>>(n),
    decreases n,
{
    assert(('0' as u32) == 48);
    if n < 10 {
        let d = decimal(n);
        assert(d.drop_last() =~= Seq::<char>::empty());
        assert(d.last() == digit_char(n));
        assert(digit_char(n) as u32 == 48 + n);
        assert(is_digit(digit_char(n)));
        assert(digit_value(digit_char(n)) == n);
        assert(parse_digits(d.drop_last(), bound, over) == Ok::<nat, Seq<char>>(0));
    } else {
        lemma_parse_decimal(n / 10, bound, over);
        let d = decimal(n);
        assert(d.drop_last() =~= decimal(n / 10));
        assert(d.last() == digit_char(n % 10));
        assert(digit_char(n % 10) as u32 == 48 + n % 10);
        assert(is_digit(digit_char(n % 10)));
        assert(digit_value(digit_char(n % 10)) == n % 10);
        assert((n / 10) * 10 + n % 10 == n);
    }
}

/// Parsing the decimal text of a 64-bit number gives the number back.
pub proof fn parse_u64_round_trip(n: u64)
    ensures
        parse_u64_spec(decimal(n as nat)) == Ok::<nat, Seq<char>>(n as nat),
{
    lemma_parse_decimal(n as nat, u64::MAX as nat, PARSE_OVERFLOW@);
    decimal_len(n as nat);
    let d = decimal(n as nat);
    assert(d[0] != '+') by {
        lemma_decimal_digits(n as nat);
    }
}

/// Every character of a decimal text is a digit.
pub proof fn lemma_decimal_digits(n: nat)
    ensures
        forall|i: int| 0 <= i < decimal(n).len() ==> is_digit(#[trigger] decimal(n)[i]),
    decreases n,
{
    assert(('0' as u32) == 48 && ('9' as u32) == 57);
    if n >= 10 {
        lemma_decimal_digits(n / 10);
        let d = decimal(n);
        assert forall|i: int| 0 <= i < d.len() implies is_digit(#[trigger] d[i]) by {
            if i < d.len() - 1 {
                assert(d[i] == decimal(n / 10)[i]);
            }
        }
    }
}

} // verus!
