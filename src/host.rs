use vstd::prelude::*;
use vstd::string::StringExecFns;
use regex::Regex;

verus! {

#[verifier::external_type_specification]
#[verifier::external_body]
pub struct ExRegex(Regex);

#[verifier::external_type_specification]
#[verifier::external_body]
pub struct ExRegexError(regex::Error);

/// `k` stands somewhere in `s` as a run of consecutive characters.
pub open spec fn is_substring(k: Seq<char>, s: Seq<char>) -> bool {
    exists|i: int, j: int| 0 <= i <= j <= s.len() && k == s.subrange(i, j)
}

/// Whether `regex::Regex::new` accepts the pattern `p`.
pub uninterp spec fn pattern_compiles(p: Seq<char>) -> bool;

/// The text of the first capture group of the host pattern's leftmost match
/// in `host`, if the pattern matches and the group takes part.
pub uninterp spec fn host_key_of(host: Seq<char>) -> Option<Seq<char>>;

/// The views of an optional string.
pub open spec fn opt_view(o: Option<String>) -> Option<Seq<char>> {
    match o {
        Some(s) => Some(s@),
        None => None,
    }
}

/// Relies on `regex::Regex::new`: whether it compiles a pattern depends on
/// the pattern alone.
#[verifier::external_body]
fn compile_pattern(pattern: &str) -> (r: Result<Regex, regex::Error>)
    ensures
        r.is_ok() == pattern_compiles(pattern@),
{
    Regex::new(pattern)
}

/// The compiled pattern that picks a tenant key out of a host name: the first
/// group takes a leading label of word characters and dashes.
pub struct HostMatcher {
    re: Regex,
}

impl HostMatcher {
    /// Compiles the host pattern; its error where `regex` refuses it.
    pub fn new() -> (r: Result<HostMatcher, regex::Error>)
        ensures
            r.is_ok() == pattern_compiles("([dmtr_]?[\\w\\d-]+)?\\.?.+"@),
    {
        match compile_pattern("([dmtr_]?[\\w\\d-]+)?\\.?.+") {
            Ok(re) => Ok(HostMatcher { re }),
            Err(e) => Err(e),
        }
    }
}

/// Relies on `regex::Regex::captures`, `Captures::get` and `Match::as_str`:
/// the first group of the leftmost match of the host pattern, which the
/// matcher always holds, is a function of `host` and a part of it.
#[verifier::external_body]
fn first_capture(m: &HostMatcher, host: &str) -> (r: Option<String>)
    ensures
        opt_view(r) == host_key_of(host@),
        r matches Some(k) ==> is_substring(k@, host@),
{
    m.re.captures(host).and_then(|c| c.get(1)).map(|k| k.as_str().to_string())
}

/// The key that an auth header gives: its text, where it is not empty.
pub open spec fn header_key(header: Option<&str>) -> Option<Seq<char>> {
    match header {
        Some(h) => if h@.len() > 0 {
            Some(h@)
        } else {
            None
        },
        None => None,
    }
}

/// Picks the tenant key of a request: the auth header where one is given and
/// not empty, else what the host pattern captured.
pub fn choose_key(header: Option<&str>, captured: Option<String>) -> (r: Option<String>)
    ensures
        opt_view(r) == match header_key(header) {
            Some(h) => Some(h),
            None => opt_view(captured),
        },
{
    match header {
        Some(h) => {
            if !h.is_empty() {
                return Some(String::from_str(h));
            }
        },
        None => {},
    }
    captured
}

/// The tenant key that a request carries: the auth header where one is given
/// and not empty, else what the host pattern picks out of the host name.
pub fn resolve_key(m: &HostMatcher, host: &str, header: Option<&str>) -> (r: Option<String>)
    ensures
        opt_view(r) == match header_key(header) {
            Some(h) => Some(h),
            None => host_key_of(host@),
        },
        header_key(header).is_none() ==> (r matches Some(k) ==> is_substring(k@, host@)),
{
    let captured = first_capture(m, host);
    choose_key(header, captured)
}

} // verus!
