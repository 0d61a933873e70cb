use vibeking::stt::merge_bias_terms;


fn s(strs: &[&str]) -> Vec<String> {
    strs.iter().map(|s| s.to_string()).collect()
}

#[test]
fn merge_empty_both_returns_empty() {
    let out = merge_bias_terms(&[], &[], 50);
    assert!(out.is_empty());
}

#[test]
fn merge_hotwords_first_then_context() {
    let out = merge_bias_terms(&s(&["Clayde", "Karpathy"]), &s(&["BeeBob"]), 50);
    assert_eq!(out, vec!["Clayde", "Karpathy", "BeeBob"]);
}

#[test]
fn merge_dedupes_case_insensitively_keeping_first() {
    let out = merge_bias_terms(&s(&["Clayde"]), &s(&["clayde", "BeeBob"]), 50);
    assert_eq!(out, vec!["Clayde", "BeeBob"]);
}

#[test]
fn merge_truncates_to_cap_preserving_hotword_priority() {
    let out = merge_bias_terms(&s(&["H1", "H2", "H3"]), &s(&["C1", "C2"]), 4);
    // Hotwords come first, then context — cap kicks in after 4.
    assert_eq!(out, vec!["H1", "H2", "H3", "C1"]);
}

#[test]
fn merge_skips_empty_and_whitespace_only_entries() {
    let out = merge_bias_terms(&s(&["", "  Clayde  "]), &s(&["\t", "Anthropic"]), 50);
    assert_eq!(out, vec!["Clayde", "Anthropic"]);
}

#[test]
fn merge_with_zero_cap_is_empty() {
    let out = merge_bias_terms(&s(&["H1"]), &s(&["C1"]), 0);
    assert!(out.is_empty());
    let out = merge_bias_terms(&s(&["H1", "H2"]), &s(&[]), 1);
    assert_eq!(out, vec!["H1"]);
}
