use std::collections::HashMap;
use std::sync::Arc;
use std::time::Duration;

use fetter::{
    path_cache, CacheConfig, CvssFilter, DepSpec, FlagCacheRefresh, FlagLog, FlagRetainPassing,
    LookupReport, Tableable, UreqClient, UreqClientMock,
};
use fetter_mcp::summary::{
    summarize, AuditEntry, CvssScore, CvssSummary, LookupSummary, VulnDetail,
};

const DURATION_0: Duration = Duration::from_secs(0);

fn make_lookup_report(
    pypi_json: &str,
    osv_batch_json: &str,
    osv_vuln_json: &str,
    dep_spec_str: &str,
    retain_passing: bool,
) -> LookupReport {
    let mut mock_get_map = HashMap::new();
    mock_get_map.insert("https://pypi.org".to_string(), pypi_json.to_string());
    mock_get_map.insert("https://api.osv.dev".to_string(), osv_vuln_json.to_string());

    let mut mock_post_map = HashMap::new();
    mock_post_map.insert("https://api.osv.dev".to_string(), osv_batch_json.to_string());

    let client = Arc::new(UreqClientMock {
        mock_get: Some(mock_get_map),
        mock_post: Some(mock_post_map),
    }) as Arc<dyn UreqClient>;

    let dep_spec = DepSpec::from_string(dep_spec_str).unwrap();
    let cache_dir = path_cache(true).unwrap();
    let cache_config = CacheConfig::new(DURATION_0, cache_dir);

    LookupReport::from_dep_spec(
        client,
        &dep_spec,
        Some(5),
        &cache_config,
        FlagCacheRefresh(true),
        FlagLog(false),
        CvssFilter::All,
        FlagRetainPassing(retain_passing),
    )
    .unwrap()
}

/// The entries of a report, as the server hands them to `summarize`.
fn entries_of(lr: &LookupReport) -> Vec<AuditEntry> {
    lr.get_records()
        .iter()
        .map(|record| AuditEntry {
            name: record.package.name.clone(),
            version: record.package.version.to_string(),
            vuln_ids: record.vuln_ids.clone(),
            vuln_infos: record
                .vuln_infos
                .iter()
                .map(|(id, info)| VulnDetail {
                    id: id.clone(),
                    summary: info.summary.clone(),
                    cvss: info.cvss_details.as_ref().and_then(|d| {
                        d.get_max_score().map(|s| CvssSummary {
                            max_score: CvssScore { bits: s.to_bits() },
                            prime: d.get_prime(),
                        })
                    }),
                    url: info.get_url(),
                })
                .collect(),
        })
        .collect()
}

fn summarize_report(lr: &LookupReport) -> LookupSummary {
    summarize(&entries_of(lr))
}

#[test]
fn test_summarize_no_vulnerabilities() {
    let pypi_json = r#"{"info":{"name":"safepkg"},"releases":{"1.0.0":[{"filename":"safepkg-1.0.0.whl"}]}}"#;
    let osv_batch_json = r#"{"results":[{"vulns":null}]}"#;
    let osv_vuln_json = r#"{}"#;

    let lr = make_lookup_report(pypi_json, osv_batch_json, osv_vuln_json, "safepkg>=1.0.0", true);
    let summary = summarize_report(&lr);

    assert_eq!(summary.package, "safepkg");
    assert_eq!(summary.versions.len(), 1);
    assert_eq!(summary.versions[0].version, "1.0.0");
    assert!(!summary.versions[0].vulnerable);
    assert!(summary.versions[0].vulnerabilities.is_empty());
}

#[test]
fn test_summarize_with_vulnerability() {
    let pypi_json = r#"{"info":{"name":"vulnpkg"},"releases":{"2.0.0":[{"filename":"vulnpkg-2.0.0.whl"}]}}"#;
    let osv_batch_json = r#"{"results":[{"vulns":[{"id":"GHSA-test-1234","modified":"2024-01-01T00:00:00Z"}]}]}"#;
    let osv_vuln_json = r#"{"id":"GHSA-test-1234","summary":"Test vulnerability","references":[{"type":"ADVISORY","url":"https://example.com"}],"severity":[{"type":"CVSS_V3","score":"CVSS:3.1/AV:N/AC:L/PR:N/UI:N/S:U/C:H/I:N/A:N"}]}"#;

    let lr = make_lookup_report(pypi_json, osv_batch_json, osv_vuln_json, "vulnpkg>=2.0.0", false);
    let summary = summarize_report(&lr);

    assert_eq!(summary.package, "vulnpkg");
    assert_eq!(summary.versions.len(), 1);
    assert!(summary.versions[0].vulnerable);
    assert_eq!(summary.versions[0].vulnerabilities.len(), 1);
    assert_eq!(summary.versions[0].vulnerabilities[0].id, "GHSA-test-1234");
    assert_eq!(summary.versions[0].vulnerabilities[0].summary, "Test vulnerability");
}

#[test]
fn test_summarize_multiple_versions_mixed() {
    let pypi_json = r#"{"info":{"name":"mixpkg"},"releases":{"1.0.0":[{"filename":"mixpkg-1.0.0.whl"}],"2.0.0":[{"filename":"mixpkg-2.0.0.whl"}]}}"#;
    // First version has vuln, second is clean
    let osv_batch_json = r#"{"results":[{"vulns":[{"id":"GHSA-mix-1234","modified":"2024-01-01T00:00:00Z"}]},{"vulns":null}]}"#;
    let osv_vuln_json = r#"{"id":"GHSA-mix-1234","summary":"Mix vuln","references":[]}"#;

    let lr = make_lookup_report(pypi_json, osv_batch_json, osv_vuln_json, "mixpkg>=1.0.0", true);
    let summary = summarize_report(&lr);

    assert_eq!(summary.package, "mixpkg");
    assert_eq!(summary.versions.len(), 2);

    // Find the vulnerable and safe versions
    let vuln_version = summary.versions.iter().find(|v| v.vulnerable);
    let safe_version = summary.versions.iter().find(|v| !v.vulnerable);

    assert!(vuln_version.is_some());
    assert!(safe_version.is_some());
    assert_eq!(vuln_version.unwrap().vulnerabilities.len(), 1);
    assert!(safe_version.unwrap().vulnerabilities.is_empty());
}

// ---------------------------------------------------------------------------

fn detail(id: &str, summary: Option<&str>, prime: Option<&str>) -> VulnDetail {
    VulnDetail {
        id: id.to_string(),
        summary: summary.map(|s| s.to_string()),
        cvss: prime.map(|p| CvssSummary {
            max_score: CvssScore { bits: 7.5f64.to_bits() },
            prime: p.to_string(),
        }),
        url: format!("https://osv.dev/vulnerability/{}", id),
    }
}

fn entry(version: &str, ids: &[&str], infos: Vec<VulnDetail>) -> AuditEntry {
    AuditEntry {
        name: "pkg".to_string(),
        version: version.to_string(),
        vuln_ids: ids.iter().map(|s| s.to_string()).collect(),
        vuln_infos: infos,
    }
}

#[test]
fn test_summarize_empty() {
    let summary = summarize(&vec![]);
    assert_eq!(summary.package, "");
    assert!(summary.versions.is_empty());
}

#[test]
fn test_summarize_severity_and_score() {
    let entries = vec![entry(
        "1.0",
        &["A"],
        vec![detail("A", Some("sum"), Some("CVSS 7.5 (High): CVSS:3.1/AV:N/AC:L"))],
    )];
    let summary = summarize(&entries);
    let v = &summary.versions[0].vulnerabilities[0];
    assert_eq!(v.id, "A");
    assert_eq!(v.summary, "sum");
    assert_eq!(v.severity.as_deref(), Some("(High):"));
    assert_eq!(f64::from_bits(v.cvss_score.unwrap().bits), 7.5);
    assert_eq!(v.url, "https://osv.dev/vulnerability/A");
}

#[test]
fn test_summarize_short_prime_has_no_severity() {
    let entries = vec![entry("1.0", &["A"], vec![detail("A", None, Some("CVSS 7.5"))])];
    let summary = summarize(&entries);
    let v = &summary.versions[0].vulnerabilities[0];
    assert_eq!(v.summary, "");
    assert_eq!(v.severity, None);
    assert!(v.cvss_score.is_some());
    let entries = vec![entry("1.0", &["A"], vec![detail("A", None, None)])];
    let v = &summarize(&entries).versions[0].vulnerabilities[0];
    assert_eq!(v.severity, None);
    assert_eq!(v.cvss_score, None);
}

#[test]
fn test_summarize_dedups_across_versions() {
    // The second entry holds another detail under the same id; the first wins.
    let entries = vec![
        entry("1.0", &["A"], vec![detail("A", Some("first"), None)]),
        entry("1.1", &["A", "B"], vec![detail("A", Some("second"), None), detail("B", None, None)]),
    ];
    let summary = summarize(&entries);
    assert_eq!(summary.versions.len(), 2);
    assert_eq!(summary.versions[0].vulnerabilities[0].summary, "first");
    assert_eq!(summary.versions[1].vulnerabilities[0].summary, "first");
    assert_eq!(summary.versions[1].vulnerabilities[1].id, "B");
}

#[test]
fn test_summarize_skips_ids_without_details() {
    let entries = vec![
        entry("1.0", &["X", "A"], vec![]),
        entry("1.1", &[], vec![detail("A", Some("later"), None)]),
    ];
    let summary = summarize(&entries);
    // A's detail comes from a later entry; X has none anywhere.
    assert_eq!(summary.versions[0].vulnerabilities.len(), 1);
    assert_eq!(summary.versions[0].vulnerabilities[0].summary, "later");
    assert!(summary.versions[0].vulnerable);
    assert!(!summary.versions[1].vulnerable);
    assert_eq!(summary.versions[1].version, "1.1");
}

#[test]
fn test_summarize_real_severity() {
    let pypi_json = r#"{"info":{"name":"vulnpkg"},"releases":{"2.0.0":[{"filename":"vulnpkg-2.0.0.whl"}]}}"#;
    let osv_batch_json = r#"{"results":[{"vulns":[{"id":"GHSA-test-1234","modified":"2024-01-01T00:00:00Z"}]}]}"#;
    let osv_vuln_json = r#"{"id":"GHSA-test-1234","summary":"Test vulnerability","references":[{"type":"ADVISORY","url":"https://example.com"}],"severity":[{"type":"CVSS_V3","score":"CVSS:3.1/AV:N/AC:L/PR:N/UI:N/S:U/C:H/I:N/A:N"}]}"#;
    let lr = make_lookup_report(pypi_json, osv_batch_json, osv_vuln_json, "vulnpkg>=2.0.0", false);
    let summary = summarize_report(&lr);
    let v = &summary.versions[0].vulnerabilities[0];
    assert_eq!(v.severity.as_deref(), Some("(High):"));
    assert_eq!(f64::from_bits(v.cvss_score.unwrap().bits), 7.5);
    assert_eq!(v.url, "https://osv.dev/vulnerability/GHSA-test-1234");
}

#[test]
fn test_summarize_ignores_detail_order() {
    let make = |first_a: bool| {
        let a = detail("A", Some("a"), Some("CVSS 9.8 (Critical): x"));
        let b = detail("B", Some("b"), None);
        let infos = if first_a { vec![a, b] } else { vec![b, a] };
        vec![entry("1.0", &["B", "A"], infos), entry("1.1", &["A"], vec![])]
    };
    let s1 = summarize(&make(true));
    let s2 = summarize(&make(false));
    for (v1, v2) in s1.versions.iter().zip(s2.versions.iter()) {
        assert_eq!(v1.version, v2.version);
        assert_eq!(v1.vulnerable, v2.vulnerable);
        let ids1: Vec<_> = v1.vulnerabilities.iter().map(|v| (v.id.clone(), v.summary.clone(), v.severity.clone())).collect();
        let ids2: Vec<_> = v2.vulnerabilities.iter().map(|v| (v.id.clone(), v.summary.clone(), v.severity.clone())).collect();
        assert_eq!(ids1, ids2);
    }
    assert_eq!(s1.versions[0].vulnerabilities[0].id, "B");
    assert_eq!(s1.versions[1].vulnerabilities[0].severity.as_deref(), Some("(Critical):"));
}
