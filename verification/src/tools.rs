//! The decisions of the `most_recent_not_vulnerable` and `is_vulnerable`
//! tools: which lookup each asks for, and what each answers given the
//! lookup's summary.

use vstd::prelude::*;
use vstd::string::StringExecFns;

use fetter::DepSpec;

use crate::requests::{FilterChoice, LookupRequest};
use crate::summary::{LookupSummary, VersionSummary, VulnSummary, VulnSummaryView};

verus! {

#[verifier::external_type_specification]
#[verifier::external_body]
pub struct ExDepSpec(DepSpec);

/// Whether the `DepSpec` that `DepSpec::from_string` parses from `input`,
/// when it parses it, pins one exact version (`DepSpec::get_exact` gives a
/// version). A successful parse is fixed by the text: a parse that runs out of
/// stack or call budget fails as a whole rather than taking another path.
pub uninterp spec fn dep_spec_exact(input: Seq<char>) -> bool;

/// A dependency specifier together with the text it was parsed from.
/// Its fields are private and only `parse_with_fetter` makes one, so the
/// specifier is always the one `DepSpec::from_string` parsed from the text.
pub struct ParsedSpec {
    input: String,
    spec: DepSpec,
}

impl View for ParsedSpec {
    type V = Seq<char>;

    /// The text that this specifier was parsed from.
    closed spec fn view(&self) -> Seq<char> {
        self.input@
    }
}

impl ParsedSpec {
    /// The specifier that `DepSpec::from_string` parsed from this text.
    pub closed spec fn parsed(&self) -> DepSpec {
        self.spec
    }

    /// The parsed specifier.
    pub fn dep_spec(&self) -> (r: &DepSpec)
        ensures
            *r == self.parsed(),
    {
        &self.spec
    }

    /// Whether the specifier pins one exact version: calls `DepSpec::get_exact`
    /// and claims that its answer is a function of the parsed text alone; which
    /// texts pin a version is left unsaid.
    #[verifier::external_body]
    fn is_exact(&self) -> (r: bool)
        ensures
            r == dep_spec_exact(self@),
    {
        self.spec.get_exact().is_some()
    }
}

/// Whether `m` begins with `p`.
pub open spec fn has_prefix(m: Seq<char>, p: Seq<char>) -> bool {
    p.len() <= m.len() && m.subrange(0, p.len() as int) == p
}

/// Whether `m` has the form of a message with which `DepSpec::from_string`
/// refuses a text: every error it returns begins with one of these words.
pub open spec fn parser_refusal(m: Seq<char>) -> bool {
    ||| has_prefix(m, "Parsing error: "@)
    ||| has_prefix(m, "Unrecognized input: "@)
    ||| has_prefix(m, "Expected version"@)
    ||| has_prefix(m, "Invalid operator: "@)
    ||| has_prefix(m, "Missing package name"@)
    ||| has_prefix(m, "Provided name "@)
}

/// Parses `input` with `DepSpec::from_string`; on failure, gives the error's
/// message (its `Display`). Claims that a parsed specifier keeps `input` as
/// its text, and that a refusal's message has one of the forms that
/// `from_string`'s error paths write. Whether the parse succeeds depends on
/// the text and also on the stack left to the parser and its call limit, so
/// success is not stated.
#[verifier::external_body]
fn parse_with_fetter(input: &str) -> (r: Result<ParsedSpec, String>)
    ensures
        r matches Ok(p) ==> p@ == input@,
        r matches Err(e) ==> parser_refusal(e@),
{
    match DepSpec::from_string(input) {
        Ok(spec) => Ok(ParsedSpec { input: input.to_string(), spec }),
        Err(e) => Err(e.to_string()),
    }
}

/// Parses a package name, possibly with a version specifier. It refuses a
/// text only as the parser does, with the parser's message.
pub fn parse_dep_spec(input: &str) -> (r: Result<ParsedSpec, String>)
    ensures
        r matches Ok(p) ==> p@ == input@,
        r matches Err(e) ==> parser_refusal(e@),
{
    parse_with_fetter(input)
}

/// Parses `name` and tells whether it pins one exact version; on failure,
/// gives the parser's message.
pub fn pins_exact_version(name: &str) -> (r: Result<bool, String>)
    ensures
        r matches Ok(b) ==> b == dep_spec_exact(name@),
        r matches Err(e) ==> parser_refusal(e@),
{
    match parse_dep_spec(name) {
        Ok(p) => Ok(p.is_exact()),
        Err(e) => Err(e),
    }
}

/// Result of most_recent_not_vulnerable lookup
#[derive(Debug)]
pub struct SafeVersionResult {
    pub package: String,
    pub version: String,
    pub vulnerable: bool,
    pub vulnerabilities: Vec<()>,
}

/// Result of is_vulnerable lookup
#[derive(Debug)]
pub struct VulnerabilityCheckResult {
    pub package: String,
    pub version: String,
    pub vulnerable: bool,
    pub vulnerabilities: Vec<VulnSummary>,
}

pub open spec fn exact_given_message() -> Seq<char> {
    "Provide only a package name, not specific version."@
}

pub open spec fn exact_required_message() -> Seq<char> {
    "Exact version required (e.g., 'requests==2.31.0')"@
}

pub open spec fn no_safe_version_message(package: Seq<char>) -> Seq<char> {
    "No recent version of '"@ + package + "' found without vulnerabilities"@
}

pub open spec fn version_not_found_message(name: Seq<char>) -> Seq<char> {
    "Version not found for '"@ + name + "'"@
}

/// The lookup that searches every release of `name` for vulnerabilities,
/// keeping the releases without any.
pub open spec fn all_releases_lookup(req: LookupRequest, name: Seq<char>) -> bool {
    &&& req.name@ == name
    &&& req.limit is None
    &&& req.cvss_filter is All
    &&& req.retain_passing
}

/// The lookup of the one release that `name` pins.
pub open spec fn pinned_release_lookup(req: LookupRequest, name: Seq<char>) -> bool {
    &&& req.name@ == name
    &&& req.limit == Some(1usize)
    &&& req.cvss_filter is All
    &&& req.retain_passing
}

/// What `most_recent_not_vulnerable` asks for, given how `name` parsed: the
/// parser's error is passed on, a pinned version is refused, and a bare
/// package name asks for all its releases.
pub fn most_recent_not_vulnerable_decision(name: &str, parsed: Result<bool, String>) -> (r: Result<
    LookupRequest,
    String,
>)
    ensures
        match parsed {
            Err(m) => r matches Err(e) && e@ == m@,
            Ok(true) => r matches Err(e) && e@ == exact_given_message(),
            Ok(false) => r matches Ok(req) && all_releases_lookup(req, name@),
        },
{
    match parsed {
        Err(m) => Err(m),
        Ok(true) => Err("Provide only a package name, not specific version.".to_owned()),
        Ok(false) => Ok(
            LookupRequest {
                name: name.to_owned(),
                limit: None,
                cvss_filter: FilterChoice::All,
                retain_passing: true,
            },
        ),
    }
}

/// What `is_vulnerable` asks for, given how `name` parsed: the parser's error
/// is passed on, a name without a pinned version is refused, and a pinned
/// version asks for that release.
pub fn is_vulnerable_decision(name: &str, parsed: Result<bool, String>) -> (r: Result<
    LookupRequest,
    String,
>)
    ensures
        match parsed {
            Err(m) => r matches Err(e) && e@ == m@,
            Ok(true) => r matches Ok(req) && pinned_release_lookup(req, name@),
            Ok(false) => r matches Err(e) && e@ == exact_required_message(),
        },
{
    match parsed {
        Err(m) => Err(m),
        Ok(false) => Err("Exact version required (e.g., 'requests==2.31.0')".to_owned()),
        Ok(true) => Ok(
            LookupRequest {
                name: name.to_owned(),
                limit: Some(1),
                cvss_filter: FilterChoice::All,
                retain_passing: true,
            },
        ),
    }
}

/// The lookup that `most_recent_not_vulnerable` asks for: `name` must parse,
/// and must name a package without pinning an exact version. A pinned version
/// is always refused; whether the parse succeeds is the parser's to say.
pub fn most_recent_not_vulnerable_request(name: &str) -> (r: Result<LookupRequest, String>)
    ensures
        r matches Ok(req) ==> !dep_spec_exact(name@) && all_releases_lookup(req, name@),
        dep_spec_exact(name@) ==> r is Err,
        r matches Err(e) ==> parser_refusal(e@) || (dep_spec_exact(name@) && e@
            == exact_given_message()),
{
    most_recent_not_vulnerable_decision(name, pins_exact_version(name))
}

/// The lookup that `is_vulnerable` asks for: `name` must parse, and must pin
/// an exact version. A name without a pinned version is always refused;
/// whether the parse succeeds is the parser's to say.
pub fn is_vulnerable_request(name: &str) -> (r: Result<LookupRequest, String>)
    ensures
        r matches Ok(req) ==> dep_spec_exact(name@) && pinned_release_lookup(req, name@),
        !dep_spec_exact(name@) ==> r is Err,
        r matches Err(e) ==> parser_refusal(e@) || (!dep_spec_exact(name@) && e@
            == exact_required_message()),
{
    is_vulnerable_decision(name, pins_exact_version(name))
}

/// Whether version `i` of `vs` is the last without vulnerabilities. A lookup
/// lists versions oldest first, so this is the most recent clean release.
pub open spec fn last_safe(vs: Seq<crate::summary::VersionSummaryView>, i: int) -> bool {
    &&& 0 <= i < vs.len()
    &&& !vs[i].vulnerable
    &&& forall|j: int| i < j < vs.len() ==> #[trigger] vs[j].vulnerable
}

/// The answer of `most_recent_not_vulnerable` to a lookup's summary, whose
/// versions come oldest first: the most recent version without
/// vulnerabilities, or an error when every version has some.
pub fn safe_version_from(summary: LookupSummary) -> (r: Result<SafeVersionResult, String>)
    ensures
        (exists|i: int| 0 <= i < summary@.versions.len() && !summary@.versions[i].vulnerable)
            <==> r is Ok,
        r matches Ok(v) ==> {
            &&& v.package@ == summary@.package
            &&& exists|i: int| last_safe(summary@.versions, i) && v.version@ == summary@.versions[i].version
            &&& !v.vulnerable
            &&& v.vulnerabilities.len() == 0
        },
        r matches Err(e) ==> e@ == no_safe_version_message(summary@.package),
{
    let ghost sv = summary@;
    let LookupSummary { package, versions } = summary;
    let ghost vs = versions@.map_values(|v: VersionSummary| v@);
    assert(sv.versions == vs);
    let mut i: usize = versions.len();
    while i > 0
        invariant
            i <= versions@.len(),
            vs == versions@.map_values(|v: VersionSummary| v@),
            sv.versions == vs,
            sv.package == package@,
            sv == summary@,
            forall|j: int| i <= j < vs.len() ==> #[trigger] vs[j].vulnerable,
        decreases i,
    {
        if !versions[i - 1].vulnerable {
            assert(last_safe(vs, i - 1));
            assert(!sv.versions[i - 1].vulnerable);
            return Ok(
                SafeVersionResult {
                    package,
                    version: versions[i - 1].version.clone(),
                    vulnerable: false,
                    vulnerabilities: Vec::new(),
                },
            );
        }
        i = i - 1;
    }
    let msg = "No recent version of '".to_owned().concat(package.as_str()).concat(
        "' found without vulnerabilities",
    );
    Err(msg)
}

pub open spec fn summaries_of(v: Seq<VulnSummary>) -> Seq<VulnSummaryView> {
    v.map_values(|s: VulnSummary| s@)
}

/// The answer of `is_vulnerable` to a lookup's summary for `name`: the first
/// version's vulnerabilities, or an error when the lookup found no version.
pub fn vulnerability_check_from(name: &str, summary: LookupSummary) -> (r: Result<
    VulnerabilityCheckResult,
    String,
>)
    ensures
        summary@.versions.len() > 0 ==> (r matches Ok(c) && {
            &&& c.package@ == summary@.package
            &&& c.version@ == summary@.versions[0].version
            &&& c.vulnerable == summary@.versions[0].vulnerable
            &&& summaries_of(c.vulnerabilities@) == summary@.versions[0].vulnerabilities
        }),
        summary@.versions.len() == 0 ==> (r matches Err(e) && e@ == version_not_found_message(
            name@,
        )),
{
    let LookupSummary { package, mut versions } = summary;
    if versions.len() == 0 {
        return Err("Version not found for '".to_owned().concat(name).concat("'"));
    }
    let first = versions.remove(0);
    let VersionSummary { version, vulnerable, vulnerabilities } = first;
    Ok(VulnerabilityCheckResult { package, version, vulnerable, vulnerabilities })
}

}
