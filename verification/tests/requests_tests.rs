use fetter_mcp::requests::{
    bounded_filter, bounded_name, cvss_filter_choice, lookup_failed_message, lookup_request,
    same_text, tool_name, FilterChoice, LookupArgs, MAX_FILTER_LEN, MAX_NAME_LEN,
};

#[test]
fn test_lookup_args_rejects_oversized_name() {
    let long_name = "a".repeat(MAX_NAME_LEN + 1);
    let result = bounded_name(long_name);
    assert!(result.is_err());
    assert!(result.unwrap_err().contains("exceeds"));
}

#[test]
fn test_most_recent_not_vulnerable_args_rejects_oversized_name() {
    let long_name = "a".repeat(MAX_NAME_LEN + 1);
    let result = bounded_name(long_name);
    assert!(result.is_err());
    assert!(result.unwrap_err().contains("exceeds"));
}

#[test]
fn test_is_vulnerable_args_rejects_oversized_name() {
    let long_name = "a".repeat(MAX_NAME_LEN + 1);
    let result = bounded_name(long_name);
    assert!(result.is_err());
    assert!(result.unwrap_err().contains("exceeds"));
}

#[test]
fn test_bounded_name_counts_bytes() {
    assert_eq!(bounded_name("a".repeat(MAX_NAME_LEN)).unwrap(), "a".repeat(MAX_NAME_LEN));
    // 129 two-byte characters are 258 bytes
    let wide = "é".repeat(129);
    assert_eq!(bounded_name(wide).unwrap_err(), "name exceeds 256 characters");
    let narrow = "é".repeat(128);
    assert_eq!(bounded_name(narrow.clone()).unwrap(), narrow);
}

#[test]
fn test_bounded_filter() {
    assert_eq!(bounded_filter(None).unwrap(), None);
    assert_eq!(bounded_filter(Some("max".to_string())).unwrap(), Some("max".to_string()));
    let at_limit = "1".repeat(MAX_FILTER_LEN);
    assert_eq!(bounded_filter(Some(at_limit.clone())).unwrap(), Some(at_limit));
    assert_eq!(
        bounded_filter(Some("1".repeat(MAX_FILTER_LEN + 1))).unwrap_err(),
        "cvss_filter exceeds 32 characters"
    );
}

#[test]
fn test_tool_name_trims_and_rejects_empty() {
    assert_eq!(tool_name("  requests\t\n").unwrap(), "requests");
    assert_eq!(tool_name("\u{3000}numpy==1.0 ").unwrap(), "numpy==1.0");
    assert_eq!(tool_name("a b").unwrap(), "a b");
    assert_eq!(tool_name("").unwrap_err(), "Package name cannot be empty");
    assert_eq!(tool_name(" \t\u{00A0}\u{2009} ").unwrap_err(), "Package name cannot be empty");
}

#[test]
fn test_tool_name_trim_is_idempotent() {
    for raw in ["  x  ", "x", "\u{2028}y z\u{2029}", " a\u{85}"] {
        let once = tool_name(raw).unwrap();
        let twice = tool_name(&once).unwrap();
        assert_eq!(once, twice);
        assert_eq!(once, raw.trim());
    }
}

#[test]
fn test_cvss_filter_choice() {
    assert!(matches!(cvss_filter_choice(None), FilterChoice::All));
    assert!(matches!(cvss_filter_choice(Some("max".to_string())), FilterChoice::MaxOnly));
    match cvss_filter_choice(Some("7.5".to_string())) {
        FilterChoice::ScoreText(t) => assert_eq!(t, "7.5"),
        other => panic!("unexpected {:?}", other),
    }
    match cvss_filter_choice(Some("MAX".to_string())) {
        FilterChoice::ScoreText(t) => assert_eq!(t, "MAX"),
        other => panic!("unexpected {:?}", other),
    }
}

#[test]
fn test_lookup_request() {
    let req = lookup_request(LookupArgs {
        name: " numpy>=2.0 ".to_string(),
        limit: Some(3),
        cvss_filter: Some("max".to_string()),
        retain_passing: None,
    })
    .unwrap();
    assert_eq!(req.name, "numpy>=2.0");
    assert_eq!(req.limit, Some(3));
    assert!(matches!(req.cvss_filter, FilterChoice::MaxOnly));
    assert!(!req.retain_passing);

    let req = lookup_request(LookupArgs {
        name: "flask".to_string(),
        limit: None,
        cvss_filter: None,
        retain_passing: Some(true),
    })
    .unwrap();
    assert_eq!(req.limit, None);
    assert!(matches!(req.cvss_filter, FilterChoice::All));
    assert!(req.retain_passing);

    let err = lookup_request(LookupArgs {
        name: "   ".to_string(),
        limit: None,
        cvss_filter: None,
        retain_passing: None,
    })
    .unwrap_err();
    assert_eq!(err, "Package name cannot be empty");
}

#[test]
fn test_same_text() {
    assert!(same_text("max", "max"));
    assert!(!same_text("max", "ma"));
    assert!(!same_text("max", "mAx"));
    assert!(same_text("", ""));
}

#[test]
fn test_lookup_failed_message() {
    assert_eq!(lookup_failed_message("boom"), "Lookup failed: boom");
}
