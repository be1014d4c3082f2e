//! The checks that the tools' arguments pass, and the lookups they ask for.

use vstd::prelude::*;
use vstd::string::StringExecFns;
use vstd::utf8::encode_utf8;

use crate::text::{chars_of, trim, trimmed};

verus! {

/// The longest package name, in bytes, that a tool accepts.
pub const MAX_NAME_LEN: usize = 256;

/// The longest CVSS filter, in bytes, that the lookup tool accepts.
pub const MAX_FILTER_LEN: usize = 32;

/// The length in bytes of the UTF-8 encoding of `s`.
pub open spec fn byte_len(s: Seq<char>) -> nat {
    encode_utf8(s).len()
}

/// Arguments of the `most_recent_not_vulnerable` tool.
#[derive(Debug)]
pub struct MostRecentNotVulnerableArgs {
    /// The package name to look up (e.g., "requests", "numpy", "flask").
    pub name: String,
}

/// Arguments of the `is_vulnerable` tool.
#[derive(Debug)]
pub struct IsVulnerableArgs {
    /// The exact package name and version (e.g., "requests==2.31.0", "numpy==1.24.0").
    pub name: String,
}

/// Arguments of the `lookup` tool.
#[derive(Debug)]
pub struct LookupArgs {
    /// The package name to look up (e.g., "requests", "numpy>=2.0", "flask==3.0.0").
    pub name: String,
    /// When the name is not an exact version, limit the number of recent versions to check.
    pub limit: Option<usize>,
    /// CVSS score filter: "all", "max", or a score threshold between 0.0 and 10.0.
    pub cvss_filter: Option<String>,
    /// When the name is not an exact version, also report versions without vulnerabilities.
    pub retain_passing: Option<bool>,
}

/// How the vulnerabilities of a lookup are filtered by CVSS score.
#[derive(Debug)]
pub enum FilterChoice {
    /// Keep all vulnerabilities.
    All,
    /// Keep only the vulnerabilities with the maximum observed score.
    MaxOnly,
    /// Keep vulnerabilities at or above a threshold, given as text; a text
    /// that is not a number between 0.0 and 10.0 keeps all vulnerabilities.
    ScoreText(String),
}

/// A lookup for the vulnerabilities of a package's versions.
#[derive(Debug)]
pub struct LookupRequest {
    /// A package name, possibly with a version specifier.
    pub name: String,
    pub limit: Option<usize>,
    pub cvss_filter: FilterChoice,
    pub retain_passing: bool,
}

pub open spec fn name_too_long_message() -> Seq<char> {
    "name exceeds 256 characters"@
}

pub open spec fn filter_too_long_message() -> Seq<char> {
    "cvss_filter exceeds 32 characters"@
}

pub open spec fn empty_name_message() -> Seq<char> {
    "Package name cannot be empty"@
}

/// Accepts a package name of at most `MAX_NAME_LEN` bytes, unchanged, and
/// refuses a longer one (every string's length in bytes fits in a `usize`).
pub fn bounded_name(s: String) -> (r: Result<String, String>)
    ensures
        byte_len(s@) <= MAX_NAME_LEN ==> r == Ok::<String, String>(s),
        MAX_NAME_LEN < byte_len(s@) <= usize::MAX ==> (r matches Err(e) && e@
            == name_too_long_message()),
        r matches Err(e) ==> byte_len(s@) > MAX_NAME_LEN && e@ == name_too_long_message(),
{
    if s.as_str().len() > MAX_NAME_LEN {
        Err("name exceeds 256 characters".to_owned())
    } else {
        Ok(s)
    }
}

/// Accepts an absent CVSS filter, or one of at most `MAX_FILTER_LEN` bytes,
/// unchanged, and refuses a longer one.
pub fn bounded_filter(f: Option<String>) -> (r: Result<Option<String>, String>)
    ensures
        match f {
            Some(s) => {
                &&& byte_len(s@) <= MAX_FILTER_LEN ==> r == Ok::<Option<String>, String>(f)
                &&& MAX_FILTER_LEN < byte_len(s@) <= usize::MAX ==> (r matches Err(e) && e@
                    == filter_too_long_message())
                &&& r matches Err(e) ==> byte_len(s@) > MAX_FILTER_LEN && e@
                    == filter_too_long_message()
            },
            None => r == Ok::<Option<String>, String>(f),
        },
{
    match f {
        Some(s) => if s.as_str().len() > MAX_FILTER_LEN {
            Err("cvss_filter exceeds 32 characters".to_owned())
        } else {
            Ok(Some(s))
        },
        None => Ok(None),
    }
}

/// Whether `a` and `b` hold the same characters.
pub fn same_text(a: &str, b: &str) -> (r: bool)
    ensures
        r == (a@ == b@),
{
    let x = chars_of(a);
    let y = chars_of(b);
    if x.len() != y.len() {
        return false;
    }
    let mut i: usize = 0;
    while i < x.len()
        invariant
            i <= x@.len(),
            x@.len() == y@.len(),
            x@ == a@,
            y@ == b@,
            forall|k: int| 0 <= k < i ==> x@[k] == y@[k],
        decreases x@.len() - i,
    {
        if x[i] != y[i] {
            return false;
        }
        i = i + 1;
    }
    assert(x@ =~= y@);
    true
}

/// The CVSS filter that a lookup's filter argument asks for: "max" keeps the
/// maximum observed score only, any other text is a threshold, and none keeps all.
pub fn cvss_filter_choice(f: Option<String>) -> (r: FilterChoice)
    ensures
        match f {
            Some(s) => if s@ == "max"@ {
                r is MaxOnly
            } else {
                r matches FilterChoice::ScoreText(t) && t@ == s@
            },
            None => r is All,
        },
{
    match f {
        Some(s) => if same_text(s.as_str(), "max") {
            FilterChoice::MaxOnly
        } else {
            FilterChoice::ScoreText(s)
        },
        None => FilterChoice::All,
    }
}

/// A tool's package name with surrounding whitespace removed, which must not be empty.
pub fn tool_name(raw: &str) -> (r: Result<String, String>)
    ensures
        trimmed(raw@).len() == 0 ==> (r matches Err(e) && e@ == empty_name_message()),
        trimmed(raw@).len() > 0 ==> (r matches Ok(n) && n@ == trimmed(raw@)),
{
    let name = trim(raw);
    if name.as_str().is_empty() {
        Err("Package name cannot be empty".to_owned())
    } else {
        Ok(name)
    }
}

/// The lookup that the `lookup` tool's arguments ask for: the trimmed name,
/// the limit as given, the CVSS filter, and versions without vulnerabilities
/// kept only when asked for.
pub fn lookup_request(args: LookupArgs) -> (r: Result<LookupRequest, String>)
    ensures
        trimmed(args.name@).len() == 0 ==> (r matches Err(e) && e@ == empty_name_message()),
        trimmed(args.name@).len() > 0 ==> (r matches Ok(req) && {
            &&& req.name@ == trimmed(args.name@)
            &&& req.limit == args.limit
            &&& req.retain_passing == (args.retain_passing == Some(true))
            &&& match args.cvss_filter {
                Some(s) => if s@ == "max"@ {
                    req.cvss_filter is MaxOnly
                } else {
                    req.cvss_filter matches FilterChoice::ScoreText(t) && t@ == s@
                },
                None => req.cvss_filter is All,
            }
        }),
{
    let LookupArgs { name, limit, cvss_filter, retain_passing } = args;
    let retain_passing = match retain_passing {
        Some(b) => b,
        None => false,
    };
    let cvss_filter = cvss_filter_choice(cvss_filter);
    let name = tool_name(name.as_str())?;
    Ok(LookupRequest { name, limit, cvss_filter, retain_passing })
}

/// The text of a reply to a lookup that failed with `e`.
pub fn lookup_failed_message(e: &str) -> (r: String)
    ensures
        r@ == "Lookup failed: "@ + e@,
{
    "Lookup failed: ".to_owned().concat(e)
}

}
