//! Per-version summaries of a vulnerability lookup, with vulnerability
//! details deduplicated across the looked-up versions.

use vstd::prelude::*;

use crate::text::{
    is_ws, lemma_words_are_nonblank, lemma_words_single, lemma_words_split, nth_word, nth_word_spec,
    words,
};

verus! {

/// A CVSS base score, held as the IEEE-754 bit pattern of the `f64` that
/// scored it (as `f64::to_bits` gives it).
#[derive(Clone, Copy, Debug, PartialEq, Eq)]
pub struct CvssScore {
    pub bits: u64,
}

/// The CVSS facts of one vulnerability: its maximum score and the display
/// text of its primary CVSS detail (such as `CVSS 7.5 (High): CVSS:3.1/...`).
#[derive(Debug)]
pub struct CvssSummary {
    pub max_score: CvssScore,
    pub prime: String,
}

/// What an audit record holds of one vulnerability.
#[derive(Debug)]
pub struct VulnDetail {
    /// The vulnerability id under which the record holds this detail.
    pub id: String,
    pub summary: Option<String>,
    /// Present when the vulnerability has CVSS details with a maximum score.
    pub cvss: Option<CvssSummary>,
    pub url: String,
}

/// One looked-up package version and the vulnerabilities found for it.
#[derive(Debug)]
pub struct AuditEntry {
    pub name: String,
    pub version: String,
    pub vuln_ids: Vec<String>,
    pub vuln_infos: Vec<VulnDetail>,
}

#[derive(Debug)]
pub struct VulnSummary {
    pub id: String,
    pub summary: String,
    pub cvss_score: Option<CvssScore>,
    pub severity: Option<String>,
    pub url: String,
}

#[derive(Debug)]
pub struct VersionSummary {
    pub version: String,
    pub vulnerable: bool,
    pub vulnerabilities: Vec<VulnSummary>,
}

#[derive(Debug)]
pub struct LookupSummary {
    pub package: String,
    pub versions: Vec<VersionSummary>,
}

pub open spec fn opt_string_view(o: Option<String>) -> Option<Seq<char>> {
    match o {
        Some(s) => Some(s@),
        None => None,
    }
}

pub struct VulnDetailView {
    pub id: Seq<char>,
    pub summary: Option<Seq<char>>,
    /// The maximum score's bits and the primary detail's text.
    pub cvss: Option<(u64, Seq<char>)>,
    pub url: Seq<char>,
}

pub struct AuditEntryView {
    pub name: Seq<char>,
    pub version: Seq<char>,
    pub vuln_ids: Seq<Seq<char>>,
    pub vuln_infos: Seq<VulnDetailView>,
}

pub struct VulnSummaryView {
    pub id: Seq<char>,
    pub summary: Seq<char>,
    pub cvss_score: Option<u64>,
    pub severity: Option<Seq<char>>,
    pub url: Seq<char>,
}

pub struct VersionSummaryView {
    pub version: Seq<char>,
    pub vulnerable: bool,
    pub vulnerabilities: Seq<VulnSummaryView>,
}

pub struct LookupSummaryView {
    pub package: Seq<char>,
    pub versions: Seq<VersionSummaryView>,
}

impl View for VulnDetail {
    type V = VulnDetailView;

    open spec fn view(&self) -> VulnDetailView {
        VulnDetailView {
            id: self.id@,
            summary: opt_string_view(self.summary),
            cvss: match self.cvss {
                Some(c) => Some((c.max_score.bits, c.prime@)),
                None => None,
            },
            url: self.url@,
        }
    }
}

impl View for AuditEntry {
    type V = AuditEntryView;

    open spec fn view(&self) -> AuditEntryView {
        AuditEntryView {
            name: self.name@,
            version: self.version@,
            vuln_ids: self.vuln_ids@.map_values(|s: String| s@),
            vuln_infos: self.vuln_infos@.map_values(|d: VulnDetail| d@),
        }
    }
}

impl View for VulnSummary {
    type V = VulnSummaryView;

    open spec fn view(&self) -> VulnSummaryView {
        VulnSummaryView {
            id: self.id@,
            summary: self.summary@,
            cvss_score: match self.cvss_score {
                Some(c) => Some(c.bits),
                None => None,
            },
            severity: opt_string_view(self.severity),
            url: self.url@,
        }
    }
}

impl View for VersionSummary {
    type V = VersionSummaryView;

    open spec fn view(&self) -> VersionSummaryView {
        VersionSummaryView {
            version: self.version@,
            vulnerable: self.vulnerable,
            vulnerabilities: self.vulnerabilities@.map_values(|v: VulnSummary| v@),
        }
    }
}

impl View for LookupSummary {
    type V = LookupSummaryView;

    open spec fn view(&self) -> LookupSummaryView {
        LookupSummaryView {
            package: self.package@,
            versions: self.versions@.map_values(|v: VersionSummary| v@),
        }
    }
}

/// The views of a sequence of entries.
pub open spec fn entries_view(entries: Seq<AuditEntry>) -> Seq<AuditEntryView> {
    entries.map_values(|e: AuditEntry| e@)
}

/// The severity word of a primary CVSS text such as `CVSS 7.5 (High): ...`:
/// its third whitespace-separated word, when there is one.
pub open spec fn severity_of(prime: Seq<char>) -> Option<Seq<char>> {
    match nth_word_spec(prime, 2) {
        Some(w) => if w.len() > 0 {
            Some(w)
        } else {
            None
        },
        None => None,
    }
}

/// The summary of one vulnerability detail.
pub open spec fn detail_summary(d: VulnDetailView) -> VulnSummaryView {
    VulnSummaryView {
        id: d.id,
        summary: match d.summary {
            Some(s) => s,
            None => seq![],
        },
        cvss_score: match d.cvss {
            Some(c) => Some(c.0),
            None => None,
        },
        severity: match d.cvss {
            Some(c) => severity_of(c.1),
            None => None,
        },
        url: d.url,
    }
}

/// All details of all entries, entry by entry, in order.
pub open spec fn flat_details(es: Seq<AuditEntryView>) -> Seq<VulnDetailView>
    decreases es.len(),
{
    if es.len() == 0 {
        seq![]
    } else {
        flat_details(es.drop_last()) + es.last().vuln_infos
    }
}

/// The first detail in `ds` held under `id`.
pub open spec fn first_with_id(ds: Seq<VulnDetailView>, id: Seq<char>) -> Option<VulnDetailView>
    decreases ds.len(),
{
    if ds.len() == 0 {
        None
    } else {
        match first_with_id(ds.drop_last(), id) {
            Some(d) => Some(d),
            None => if ds.last().id == id {
                Some(ds.last())
            } else {
                None
            },
        }
    }
}

/// The first summary in `c` with id `id`.
pub open spec fn find_summary(c: Seq<VulnSummaryView>, id: Seq<char>) -> Option<VulnSummaryView>
    decreases c.len(),
{
    if c.len() == 0 {
        None
    } else {
        match find_summary(c.drop_last(), id) {
            Some(v) => Some(v),
            None => if c.last().id == id {
                Some(c.last())
            } else {
                None
            },
        }
    }
}

/// The summary that the whole lookup holds for vulnerability `id`: that of the
/// first detail held under `id`, over all entries in order.
pub open spec fn known_summary(es: Seq<AuditEntryView>, id: Seq<char>) -> Option<VulnSummaryView> {
    opt_summary(first_with_id(flat_details(es), id))
}

pub open spec fn opt_summary(d: Option<VulnDetailView>) -> Option<VulnSummaryView> {
    match d {
        Some(d) => Some(detail_summary(d)),
        None => None,
    }
}

/// The summaries of the listed vulnerability ids that the lookup holds a detail for, in order.
pub open spec fn vulns_for(ids: Seq<Seq<char>>, es: Seq<AuditEntryView>) -> Seq<VulnSummaryView>
    decreases ids.len(),
{
    if ids.len() == 0 {
        seq![]
    } else {
        let r = vulns_for(ids.drop_last(), es);
        match known_summary(es, ids.last()) {
            Some(v) => r.push(v),
            None => r,
        }
    }
}

/// The summary of entry `e` within the lookup `es`.
pub open spec fn version_view(e: AuditEntryView, es: Seq<AuditEntryView>) -> VersionSummaryView {
    VersionSummaryView {
        version: e.version,
        vulnerable: vulns_for(e.vuln_ids, es).len() > 0,
        vulnerabilities: vulns_for(e.vuln_ids, es),
    }
}

/// The summary of a lookup: the first entry's package name, and one version
/// summary per entry, in order.
pub open spec fn summary_spec(es: Seq<AuditEntryView>) -> LookupSummaryView {
    LookupSummaryView {
        package: if es.len() > 0 {
            es[0].name
        } else {
            seq![]
        },
        versions: Seq::new(es.len(), |i: int| version_view(es[i], es)),
    }
}

fn copy_opt_string(o: &Option<String>) -> (r: Option<String>)
    ensures
        opt_string_view(r) == opt_string_view(*o),
{
    match o {
        Some(s) => Some(s.clone()),
        None => None,
    }
}

impl VulnSummary {
    /// A copy of this summary.
    pub fn copy(&self) -> (r: VulnSummary)
        ensures
            r@ == self@,
    {
        VulnSummary {
            id: self.id.clone(),
            summary: self.summary.clone(),
            cvss_score: self.cvss_score,
            severity: copy_opt_string(&self.severity),
            url: self.url.clone(),
        }
    }
}

/// The severity word of a primary CVSS text.
pub fn severity_from_prime(prime: &String) -> (r: Option<String>)
    ensures
        opt_string_view(r) == severity_of(prime@),
{
    match nth_word(prime.as_str(), 2) {
        Some(w) => if w.as_str().is_empty() {
            None
        } else {
            Some(w)
        },
        None => None,
    }
}

/// The summary of one vulnerability detail.
pub fn summarize_detail(d: &VulnDetail) -> (r: VulnSummary)
    ensures
        r@ == detail_summary(d@),
{
    let (cvss_score, severity) = match &d.cvss {
        Some(c) => (Some(c.max_score), severity_from_prime(&c.prime)),
        None => (None, None),
    };
    let summary = match &d.summary {
        Some(s) => s.clone(),
        None => String::new(),
    };
    VulnSummary { id: d.id.clone(), summary, cvss_score, severity, url: d.url.clone() }
}

proof fn lemma_find_summary_at(c: Seq<VulnSummaryView>, id: Seq<char>, j: int)
    requires
        0 <= j < c.len(),
        c[j].id == id,
        forall|k: int| 0 <= k < j ==> c[k].id != id,
    ensures
        find_summary(c, id) == Some(c[j]),
    decreases c.len(),
{
    if j < c.len() - 1 {
        lemma_find_summary_at(c.drop_last(), id, j);
    } else {
        lemma_find_summary_none(c.drop_last(), id);
    }
}

proof fn lemma_find_summary_none(c: Seq<VulnSummaryView>, id: Seq<char>)
    requires
        forall|k: int| 0 <= k < c.len() ==> c[k].id != id,
    ensures
        find_summary(c, id) is None,
    decreases c.len(),
{
    if c.len() > 0 {
        lemma_find_summary_none(c.drop_last(), id);
    }
}

/// The index of the first summary in `cache` with id `id`.
fn find_cached(cache: &Vec<VulnSummary>, id: &String) -> (r: Option<usize>)
    ensures
        match r {
            Some(j) => j < cache@.len() && find_summary(cache@.map_values(|v: VulnSummary| v@), id@)
                == Some(cache@[j as int]@),
            None => find_summary(cache@.map_values(|v: VulnSummary| v@), id@) is None,
        },
{
    let ghost c = cache@.map_values(|v: VulnSummary| v@);
    let mut j: usize = 0;
    while j < cache.len()
        invariant
            j <= cache@.len(),
            c == cache@.map_values(|v: VulnSummary| v@),
            forall|k: int| 0 <= k < j ==> c[k].id != id@,
        decreases cache@.len() - j,
    {
        if cache[j].id == *id {
            proof {
                lemma_find_summary_at(c, id@, j as int);
            }
            return Some(j);
        }
        j = j + 1;
    }
    proof {
        lemma_find_summary_none(c, id@);
    }
    None
}

pub open spec fn summaries_view(c: Seq<VulnSummary>) -> Seq<VulnSummaryView> {
    c.map_values(|v: VulnSummary| v@)
}

/// Adds detail `d` to a cache of first-seen summaries, unless one with its id is there.
fn cache_detail(cache: &mut Vec<VulnSummary>, d: &VulnDetail, Ghost(pre): Ghost<Seq<VulnDetailView>>)
    requires
        forall|id: Seq<char>| #[trigger]
            find_summary(summaries_view(old(cache)@), id) == opt_summary(first_with_id(pre, id)),
    ensures
        forall|id: Seq<char>| #[trigger]
            find_summary(summaries_view(final(cache)@), id) == opt_summary(
                first_with_id(pre.push(d@), id),
            ),
{
    let ghost post = pre.push(d@);
    assert(post.drop_last() =~= pre);
    match find_cached(cache, &d.id) {
        Some(_) => {
            assert forall|id: Seq<char>| #[trigger]
                find_summary(summaries_view(cache@), id) == opt_summary(first_with_id(post, id)) by {
                assert(find_summary(summaries_view(cache@), d.id@) is Some);
            }
        },
        None => {
            let ghost old_c = summaries_view(cache@);
            let s = summarize_detail(d);
            cache.push(s);
            assert(summaries_view(cache@).drop_last() =~= old_c);
            assert forall|id: Seq<char>| #[trigger]
                find_summary(summaries_view(cache@), id) == opt_summary(first_with_id(post, id)) by {
                assert(find_summary(old_c, id) == opt_summary(first_with_id(pre, id)));
            }
        },
    }
}

/// The summaries, in order, of the listed ids that the cache holds.
fn vulns_from_cache(
    cache: &Vec<VulnSummary>,
    ids: &Vec<String>,
    Ghost(es): Ghost<Seq<AuditEntryView>>,
) -> (r: Vec<VulnSummary>)
    requires
        forall|id: Seq<char>| #[trigger]
            find_summary(summaries_view(cache@), id) == known_summary(es, id),
    ensures
        summaries_view(r@) == vulns_for(ids@.map_values(|s: String| s@), es),
{
    let ghost idv = ids@.map_values(|s: String| s@);
    let mut vulns: Vec<VulnSummary> = Vec::new();
    let p = ids.len();
    assert(idv.take(0) =~= Seq::<Seq<char>>::empty());
    assert(summaries_view(vulns@) =~= Seq::<VulnSummaryView>::empty());
    for t in 0..p
        invariant
            p == ids@.len(),
            idv == ids@.map_values(|s: String| s@),
            forall|id: Seq<char>| #[trigger]
                find_summary(summaries_view(cache@), id) == known_summary(es, id),
            summaries_view(vulns@) == vulns_for(idv.take(t as int), es),
    {
        assert(idv.take(t + 1).drop_last() =~= idv.take(t as int));
        assert(idv.take(t + 1).last() == ids@[t as int]@);
        let ghost before = summaries_view(vulns@);
        assert(known_summary(es, ids@[t as int]@) == find_summary(
            summaries_view(cache@),
            ids@[t as int]@,
        ));
        match find_cached(cache, &ids[t]) {
            Some(j) => {
                let v = cache[j].copy();
                vulns.push(v);
                assert(summaries_view(vulns@) =~= before.push(v@));
            },
            None => {},
        }
    }
    assert(idv.take(p as int) =~= idv);
    vulns
}

/// Summarizes a lookup: the first entry's package name, and for each entry, in
/// order, its version and the summaries of its listed vulnerabilities. The
/// summary of a vulnerability id comes from the first detail held under that
/// id over all entries, so each id is summarized once for the whole lookup.
pub fn summarize(entries: &Vec<AuditEntry>) -> (r: LookupSummary)
    ensures
        r@ == summary_spec(entries_view(entries@)),
{
    let ghost es = entries_view(entries@);
    let n = entries.len();
    let mut cache: Vec<VulnSummary> = Vec::new();
    assert(es.take(0) =~= Seq::<AuditEntryView>::empty());
    for i in 0..n
        invariant
            n == entries@.len(),
            es == entries_view(entries@),
            forall|id: Seq<char>| #[trigger]
                find_summary(summaries_view(cache@), id) == known_summary(es.take(i as int), id),
    {
        let e = &entries[i];
        let ghost base = flat_details(es.take(i as int));
        let ghost infos = es[i as int].vuln_infos;
        assert(infos == e.vuln_infos@.map_values(|d: VulnDetail| d@));
        let m = e.vuln_infos.len();
        assert(infos.take(0) =~= Seq::<VulnDetailView>::empty());
        assert(base + infos.take(0) =~= base);
        for k in 0..m
            invariant
                m == e.vuln_infos@.len(),
                infos == e.vuln_infos@.map_values(|d: VulnDetail| d@),
                forall|id: Seq<char>| #[trigger]
                    find_summary(summaries_view(cache@), id) == opt_summary(
                        first_with_id(base + infos.take(k as int), id),
                    ),
        {
            cache_detail(&mut cache, &e.vuln_infos[k], Ghost(base + infos.take(k as int)));
            assert((base + infos.take(k as int)).push(e.vuln_infos@[k as int]@) =~= base
                + infos.take(k + 1));
        }
        assert(infos.take(m as int) =~= infos);
        assert(es.take(i + 1).drop_last() =~= es.take(i as int));
        assert(flat_details(es.take(i + 1)) == base + infos);
    }
    assert(es.take(n as int) =~= es);

    let mut versions: Vec<VersionSummary> = Vec::new();
    for i in 0..n
        invariant
            n == entries@.len(),
            es == entries_view(entries@),
            forall|id: Seq<char>| #[trigger]
                find_summary(summaries_view(cache@), id) == known_summary(es, id),
            versions@.len() == i,
            forall|t: int| 0 <= t < i ==> #[trigger] versions@[t]@ == version_view(es[t], es),
    {
        let e = &entries[i];
        let vulns = vulns_from_cache(&cache, &e.vuln_ids, Ghost(es));
        let vulnerable = vulns.len() > 0;
        versions.push(VersionSummary { version: e.version.clone(), vulnerable, vulnerabilities: vulns });
    }
    let package = if n > 0 {
        entries[0].name.clone()
    } else {
        String::new()
    };
    let r = LookupSummary { package, versions };
    assert(r@.versions =~= summary_spec(es).versions);
    r
}

proof fn lemma_first_with_id_matches(ds: Seq<VulnDetailView>, id: Seq<char>)
    ensures
        first_with_id(ds, id) matches Some(d) ==> d.id == id,
    decreases ds.len(),
{
    if ds.len() > 0 {
        lemma_first_with_id_matches(ds.drop_last(), id);
    }
}

proof fn lemma_vulns_for_known(ids: Seq<Seq<char>>, es: Seq<AuditEntryView>)
    ensures
        forall|k: int|
            0 <= k < vulns_for(ids, es).len() ==> {
                let v = #[trigger] vulns_for(ids, es)[k];
                &&& known_summary(es, v.id) == Some(v)
                &&& ids.contains(v.id)
            },
    decreases ids.len(),
{
    if ids.len() > 0 {
        let rest = ids.drop_last();
        lemma_vulns_for_known(rest, es);
        lemma_first_with_id_matches(flat_details(es), ids.last());
        assert forall|k: int| 0 <= k < vulns_for(ids, es).len() implies {
            let v = #[trigger] vulns_for(ids, es)[k];
            &&& known_summary(es, v.id) == Some(v)
            &&& ids.contains(v.id)
        } by {
            let v = vulns_for(ids, es)[k];
            if k < vulns_for(rest, es).len() {
                assert(vulns_for(rest, es)[k] == v);
                let j = choose|j: int| 0 <= j < rest.len() && rest[j] == v.id;
                assert(ids[j] == v.id);
            } else {
                assert(ids[ids.len() - 1] == v.id);
            }
        }
    }
}

/// A lookup's summary has one version per entry, in order, each with the
/// entry's version, and a version is vulnerable exactly when it lists a
/// vulnerability.
pub proof fn lemma_one_version_per_entry(es: Seq<AuditEntryView>)
    ensures
        summary_spec(es).versions.len() == es.len(),
        forall|i: int|
            0 <= i < es.len() ==> {
                let v = #[trigger] summary_spec(es).versions[i];
                &&& v.version == es[i].version
                &&& v.vulnerable <==> v.vulnerabilities.len() > 0
            },
{
}

/// Each vulnerability that a version lists is one of the ids that its entry lists.
pub proof fn lemma_listed_ids_only(es: Seq<AuditEntryView>, i: int, k: int)
    requires
        0 <= i < es.len(),
        0 <= k < summary_spec(es).versions[i].vulnerabilities.len(),
    ensures
        es[i].vuln_ids.contains(summary_spec(es).versions[i].vulnerabilities[k].id),
{
    lemma_vulns_for_known(es[i].vuln_ids, es);
    assert(summary_spec(es).versions[i].vulnerabilities[k] == vulns_for(es[i].vuln_ids, es)[k]);
}

/// A vulnerability id is summarized the same way in every version that lists it.
pub proof fn lemma_same_id_same_summary(es: Seq<AuditEntryView>, i: int, k: int, j: int, l: int)
    requires
        0 <= i < es.len(),
        0 <= j < es.len(),
        0 <= k < summary_spec(es).versions[i].vulnerabilities.len(),
        0 <= l < summary_spec(es).versions[j].vulnerabilities.len(),
        summary_spec(es).versions[i].vulnerabilities[k].id == summary_spec(
            es,
        ).versions[j].vulnerabilities[l].id,
    ensures
        summary_spec(es).versions[i].vulnerabilities[k] == summary_spec(
            es,
        ).versions[j].vulnerabilities[l],
{
    lemma_vulns_for_known(es[i].vuln_ids, es);
    lemma_vulns_for_known(es[j].vuln_ids, es);
    assert(summary_spec(es).versions[i].vulnerabilities[k] == vulns_for(es[i].vuln_ids, es)[k]);
    assert(summary_spec(es).versions[j].vulnerabilities[l] == vulns_for(es[j].vuln_ids, es)[l]);
}

/// A severity, when there is one, is a nonempty word without whitespace.
pub proof fn lemma_severity_is_a_word(prime: Seq<char>)
    ensures
        severity_of(prime) matches Some(w) ==> w.len() > 0 && forall|j: int|
            0 <= j < w.len() ==> !is_ws(w[j]),
{
    lemma_words_are_nonblank(prime);
    if 2 < words(prime).len() {
        assert(words(prime)[2].len() > 0);
    }
}

/// No two details in `ds` are held under the same id.
pub open spec fn distinct_ids(ds: Seq<VulnDetailView>) -> bool {
    forall|i: int, j: int| 0 <= i < j < ds.len() ==> ds[i].id != ds[j].id
}

proof fn lemma_first_with_id_at(ds: Seq<VulnDetailView>, id: Seq<char>, j: int)
    requires
        0 <= j < ds.len(),
        ds[j].id == id,
        forall|k: int| 0 <= k < j ==> ds[k].id != id,
    ensures
        first_with_id(ds, id) == Some(ds[j]),
    decreases ds.len(),
{
    if j < ds.len() - 1 {
        lemma_first_with_id_at(ds.drop_last(), id, j);
    } else {
        lemma_first_with_id_none(ds.drop_last(), id);
    }
}

proof fn lemma_first_with_id_none(ds: Seq<VulnDetailView>, id: Seq<char>)
    requires
        forall|k: int| 0 <= k < ds.len() ==> ds[k].id != id,
    ensures
        first_with_id(ds, id) is None,
    decreases ds.len(),
{
    if ds.len() > 0 {
        lemma_first_with_id_none(ds.drop_last(), id);
    }
}

/// Two orderings of the same details, each holding every id at most once,
/// give the same first detail for every id.
proof fn lemma_first_with_id_reordered(a: Seq<VulnDetailView>, b: Seq<VulnDetailView>, id: Seq<char>)
    requires
        distinct_ids(a),
        distinct_ids(b),
        forall|d: VulnDetailView| a.contains(d) <==> b.contains(d),
    ensures
        first_with_id(a, id) == first_with_id(b, id),
{
    if exists|i: int| 0 <= i < a.len() && a[i].id == id {
        let i = choose|i: int| 0 <= i < a.len() && a[i].id == id;
        lemma_first_with_id_at(a, id, i);
        assert(b.contains(a[i]));
        let j = choose|j: int| 0 <= j < b.len() && b[j] == a[i];
        lemma_first_with_id_at(b, id, j);
    } else {
        lemma_first_with_id_none(a, id);
        if exists|j: int| 0 <= j < b.len() && b[j].id == id {
            let j = choose|j: int| 0 <= j < b.len() && b[j].id == id;
            assert(a.contains(b[j]));
        }
        lemma_first_with_id_none(b, id);
    }
}

proof fn lemma_first_with_id_concat(a: Seq<VulnDetailView>, b: Seq<VulnDetailView>, id: Seq<char>)
    ensures
        first_with_id(a + b, id) == match first_with_id(a, id) {
            Some(d) => Some(d),
            None => first_with_id(b, id),
        },
    decreases b.len(),
{
    if b.len() == 0 {
        assert(a + b =~= a);
    } else {
        lemma_first_with_id_concat(a, b.drop_last(), id);
        assert((a + b).drop_last() =~= a + b.drop_last());
    }
}

proof fn lemma_flat_first_same(es1: Seq<AuditEntryView>, es2: Seq<AuditEntryView>, id: Seq<char>)
    requires
        es1.len() == es2.len(),
        forall|i: int| 0 <= i < es1.len() ==> first_with_id(es1[i].vuln_infos, id)
            == first_with_id(#[trigger] es2[i].vuln_infos, id),
    ensures
        first_with_id(flat_details(es1), id) == first_with_id(flat_details(es2), id),
    decreases es1.len(),
{
    if es1.len() > 0 {
        let n = es1.len() - 1;
        assert(first_with_id(es1[n].vuln_infos, id) == first_with_id(es2[n].vuln_infos, id));
        lemma_flat_first_same(es1.drop_last(), es2.drop_last(), id);
        lemma_first_with_id_concat(flat_details(es1.drop_last()), es1.last().vuln_infos, id);
        lemma_first_with_id_concat(flat_details(es2.drop_last()), es2.last().vuln_infos, id);
    }
}

proof fn lemma_vulns_for_same(ids: Seq<Seq<char>>, es1: Seq<AuditEntryView>, es2: Seq<AuditEntryView>)
    requires
        forall|id: Seq<char>| #[trigger] known_summary(es1, id) == known_summary(es2, id),
    ensures
        vulns_for(ids, es1) == vulns_for(ids, es2),
    decreases ids.len(),
{
    if ids.len() > 0 {
        lemma_vulns_for_same(ids.drop_last(), es1, es2);
        assert(known_summary(es1, ids.last()) == known_summary(es2, ids.last()));
    }
}

/// The order in which an entry holds its details does not change the summary,
/// as long as the entry holds each id once: any reordering of the same
/// details gives the same summary.
pub proof fn lemma_detail_order_irrelevant(
    es: Seq<AuditEntryView>,
    k: int,
    infos: Seq<VulnDetailView>,
)
    requires
        0 <= k < es.len(),
        distinct_ids(es[k].vuln_infos),
        distinct_ids(infos),
        forall|d: VulnDetailView| es[k].vuln_infos.contains(d) <==> infos.contains(d),
    ensures
        summary_spec(es.update(k, AuditEntryView { vuln_infos: infos, ..es[k] })) == summary_spec(es),
{
    let e2 = AuditEntryView { vuln_infos: infos, ..es[k] };
    let es2 = es.update(k, e2);
    assert forall|id: Seq<char>| #[trigger] known_summary(es2, id) == known_summary(es, id) by {
        assert forall|i: int| 0 <= i < es2.len() implies first_with_id(es2[i].vuln_infos, id)
            == first_with_id(#[trigger] es[i].vuln_infos, id) by {
            if i == k {
                lemma_first_with_id_reordered(infos, es[k].vuln_infos, id);
            }
        }
        lemma_flat_first_same(es2, es, id);
    }
    assert forall|i: int| 0 <= i < es.len() implies #[trigger] version_view(es2[i], es2)
        == version_view(es[i], es) by {
        lemma_vulns_for_same(es[i].vuln_ids, es2, es);
    }
    assert(summary_spec(es2).versions =~= summary_spec(es).versions);
}

proof fn lemma_vulns_for_is_filter_map(ids: Seq<Seq<char>>, es: Seq<AuditEntryView>)
    ensures
        vulns_for(ids, es) == ids.filter_map(|id: Seq<char>| known_summary(es, id)),
    decreases ids.len(),
{
    if ids.len() > 0 {
        lemma_vulns_for_is_filter_map(ids.drop_last(), es);
        let r = vulns_for(ids.drop_last(), es);
        match known_summary(es, ids.last()) {
            Some(v) => {
                assert(r.push(v) =~= r + seq![v]);
            },
            None => {},
        }
    }
}

/// A version lists, in the order its entry lists the ids, the summary of each
/// listed id that the lookup holds a detail for, and nothing else.
pub proof fn lemma_version_lists_known_ids(es: Seq<AuditEntryView>, i: int)
    requires
        0 <= i < es.len(),
    ensures
        summary_spec(es).versions[i].vulnerabilities == es[i].vuln_ids.filter_map(
            |id: Seq<char>| known_summary(es, id),
        ),
{
    lemma_vulns_for_is_filter_map(es[i].vuln_ids, es);
}

proof fn lemma_flat_details_contains(es: Seq<AuditEntryView>, j: int, m: int)
    requires
        0 <= j < es.len(),
        0 <= m < es[j].vuln_infos.len(),
    ensures
        flat_details(es).contains(es[j].vuln_infos[m]),
    decreases es.len(),
{
    let rest = flat_details(es.drop_last());
    let last = es.last().vuln_infos;
    if j < es.len() - 1 {
        lemma_flat_details_contains(es.drop_last(), j, m);
        let t = choose|t: int| 0 <= t < rest.len() && rest[t] == es[j].vuln_infos[m];
        assert((rest + last)[t] == rest[t]);
    } else {
        assert((rest + last)[rest.len() + m] == last[m]);
    }
}

proof fn lemma_first_with_id_found(ds: Seq<VulnDetailView>, id: Seq<char>, t: int)
    requires
        0 <= t < ds.len(),
        ds[t].id == id,
    ensures
        first_with_id(ds, id) is Some,
    decreases ds.len(),
{
    if t < ds.len() - 1 {
        lemma_first_with_id_found(ds.drop_last(), id, t);
    }
}

proof fn lemma_vulns_for_contains(ids: Seq<Seq<char>>, es: Seq<AuditEntryView>, k: int)
    requires
        0 <= k < ids.len(),
        known_summary(es, ids[k]) is Some,
    ensures
        vulns_for(ids, es).contains(known_summary(es, ids[k])->Some_0),
    decreases ids.len(),
{
    let r = vulns_for(ids.drop_last(), es);
    if k < ids.len() - 1 {
        lemma_vulns_for_contains(ids.drop_last(), es, k);
        assert(ids.drop_last()[k] == ids[k]);
        let t = choose|t: int| 0 <= t < r.len() && r[t] == known_summary(es, ids[k])->Some_0;
        match known_summary(es, ids.last()) {
            Some(v) => assert(r.push(v)[t] == r[t]),
            None => {},
        }
    } else {
        assert(r.push(known_summary(es, ids[k])->Some_0)[r.len() as int] == known_summary(
            es,
            ids[k],
        )->Some_0);
    }
}

/// When an entry lists an id that some entry of the lookup holds a detail
/// under, its version is vulnerable and lists a vulnerability with that id.
pub proof fn lemma_listed_detail_reported(es: Seq<AuditEntryView>, i: int, k: int, j: int, m: int)
    requires
        0 <= i < es.len(),
        0 <= k < es[i].vuln_ids.len(),
        0 <= j < es.len(),
        0 <= m < es[j].vuln_infos.len(),
        es[j].vuln_infos[m].id == es[i].vuln_ids[k],
    ensures
        summary_spec(es).versions[i].vulnerable,
        exists|t: int|
            0 <= t < summary_spec(es).versions[i].vulnerabilities.len()
                && #[trigger] summary_spec(es).versions[i].vulnerabilities[t].id == es[i].vuln_ids[k],
{
    let id = es[i].vuln_ids[k];
    let ds = flat_details(es);
    lemma_flat_details_contains(es, j, m);
    let t = choose|t: int| 0 <= t < ds.len() && ds[t] == es[j].vuln_infos[m];
    lemma_first_with_id_found(ds, id, t);
    lemma_first_with_id_matches(ds, id);
    lemma_vulns_for_contains(es[i].vuln_ids, es, k);
    let vs = vulns_for(es[i].vuln_ids, es);
    assert(summary_spec(es).versions[i].vulnerabilities == vs);
    let u = choose|u: int| 0 <= u < vs.len() && vs[u] == known_summary(es, id)->Some_0;
    assert(vs[u].id == id);
}

/// The severity is the third whitespace-separated word of the primary CVSS
/// text when that text has three words, whatever the word says, and there is
/// none otherwise.
pub proof fn lemma_severity_is_third_word(prime: Seq<char>)
    ensures
        severity_of(prime) == if words(prime).len() > 2 {
            Some(words(prime)[2])
        } else {
            None::<Seq<char>>
        },
{
    lemma_words_are_nonblank(prime);
}

/// In a text made of two words, whitespace, a third word `c` and then
/// nothing or more text after whitespace, the severity is `c`: for example
/// `(Medium):` in `CVSS 6.1 (Medium): CVSS:3.1/...`.
pub proof fn lemma_severity_of_text(
    a: Seq<char>,
    x: char,
    b: Seq<char>,
    y: char,
    c: Seq<char>,
    rest: Seq<char>,
)
    requires
        a.len() > 0 && forall|j: int| 0 <= j < a.len() ==> !is_ws(a[j]),
        b.len() > 0 && forall|j: int| 0 <= j < b.len() ==> !is_ws(b[j]),
        c.len() > 0 && forall|j: int| 0 <= j < c.len() ==> !is_ws(c[j]),
        is_ws(x),
        is_ws(y),
        rest.len() == 0 || is_ws(rest[0]),
    ensures
        severity_of(a + seq![x] + b + seq![y] + c + rest) == Some(c),
{
    lemma_words_single(a);
    lemma_words_single(b);
    lemma_words_single(c);
    let tail = c + rest;
    if rest.len() == 0 {
        assert(tail =~= c);
    } else {
        let r = rest.drop_first();
        assert(tail =~= c + seq![rest[0]] + r);
        lemma_words_split(c, rest[0], r);
    }
    let wt = words(tail);
    assert(wt.len() > 0 && wt[0] == c);
    lemma_words_split(b, y, tail);
    assert(b + seq![y] + c + rest =~= b + seq![y] + tail);
    lemma_words_split(a, x, b + seq![y] + tail);
    let s = a + seq![x] + b + seq![y] + c + rest;
    assert(s =~= a + seq![x] + (b + seq![y] + tail));
    assert(words(s) == seq![a] + (seq![b] + wt));
    assert((seq![a] + (seq![b] + wt))[2] == wt[0]);
    lemma_severity_is_third_word(s);
}

}
