use vibeking::proper_nouns::extract_candidates;


#[test]
fn empty_string_returns_empty() {
    assert!(extract_candidates("", 50).is_empty());
}

#[test]
fn rejects_identifier_with_equals_sign() {
    let out = extract_candidates(
        "Visit https://example.com?discount_any=1 to learn more about Kubernetes",
        50,
    );
    assert!(
        !out.iter().any(|s| s.contains('=')),
        "tokens with `=` should be rejected: got {out:?}"
    );
    assert!(out.iter().any(|s| s == "Kubernetes"));
}

#[test]
fn rejects_sentence_initial_but_keeps_later_proper_nouns() {
    // "Katherine" is first token => sentence-initial => filtered.
    // "Karpathy" and "Kubernetes" are mid-sentence => kept.
    let out = extract_candidates("Katherine sent Karpathy a Kubernetes deployment.", 50);
    assert!(out.contains(&"Karpathy".to_string()), "got {:?}", out);
    assert!(out.contains(&"Kubernetes".to_string()), "got {:?}", out);
    assert!(!out.contains(&"Katherine".to_string()), "got {:?}", out);
}

#[test]
fn mixed_case_tokens_kept() {
    let out = extract_candidates("I love iPhone and MacBook", 50);
    assert!(out.contains(&"iPhone".to_string()), "got {:?}", out);
    assert!(out.contains(&"MacBook".to_string()), "got {:?}", out);
    // "I" is length 1 → rejected. "love" is lowercase first letter and
    // has no upper → fails all rules.
    assert!(!out.contains(&"I".to_string()));
    assert!(!out.contains(&"love".to_string()));
}

#[test]
fn digit_tokens_kept() {
    let out = extract_candidates("Try GPT-5 and Llama3.2 with vLLM", 50);
    // GPT-5: hyphen not in split set → kept whole. Has digit + len>=2 → rule (c).
    assert!(out.contains(&"GPT-5".to_string()), "got {:?}", out);
    // Llama3.2 → splits at '.' → "Llama3" and "2".
    assert!(out.contains(&"Llama3".to_string()), "got {:?}", out);
    // vLLM: mixed case, first char lowercase → rule (b).
    assert!(out.contains(&"vLLM".to_string()), "got {:?}", out);
    // "Try" is sentence-initial → filtered.
    assert!(!out.contains(&"Try".to_string()));
}

#[test]
fn rejects_short_all_caps() {
    let out = extract_candidates("Use the API, URL, and CSS classes", 50);
    assert!(!out.contains(&"API".to_string()), "got {:?}", out);
    assert!(!out.contains(&"URL".to_string()), "got {:?}", out);
    assert!(!out.contains(&"CSS".to_string()), "got {:?}", out);
    // "classes" is lowercase only → fails all rules.
    assert!(!out.contains(&"classes".to_string()));
}

#[test]
fn dedupe_case_insensitive_preserves_first_seen() {
    let out = extract_candidates(
        "I met Katherine. She met katherine again. Then KATHERINE called.",
        50,
    );
    let kats: Vec<&String> = out
        .iter()
        .filter(|s| s.to_lowercase() == "katherine")
        .collect();
    assert_eq!(kats.len(), 1, "got {:?}", out);
    assert_eq!(kats[0], "Katherine", "got {:?}", out);
}

#[test]
fn cap_enforcement() {
    // 100 distinct, all mid-sentence so rule (a) fires.
    let mut text = String::from("Lead. ");
    for i in 0..100 {
        text.push_str(&format!("met Name{} and ", i));
    }
    let out = extract_candidates(&text, 5);
    assert_eq!(out.len(), 5, "got {:?}", out);
}

#[test]
fn proper_nouns_rejects_pure_numeric() {
    let out = extract_candidates("Year 2026 was good", 50);
    assert!(!out.contains(&"2026".to_string()), "got {:?}", out);
}

#[test]
fn strips_punctuation_residue() {
    // Quotes + comma should be split off, leaving bare tokens.
    let out = extract_candidates(
        r#"Lead. We used "Kubernetes," and "OpenZeppelin" today."#,
        50,
    );
    assert!(out.contains(&"Kubernetes".to_string()), "got {:?}", out);
    assert!(out.contains(&"OpenZeppelin".to_string()), "got {:?}", out);
}

#[test]
fn underscore_handling() {
    // "MY_CONST": no lowercase letters → rejected.
    // "Foo_Bar": has lowercase + first char upper, mid-sentence → kept via rule (a).
    let out = extract_candidates("Lead. The MY_CONST and Foo_Bar are constants", 50);
    assert!(!out.contains(&"MY_CONST".to_string()), "got {:?}", out);
    assert!(out.contains(&"Foo_Bar".to_string()), "got {:?}", out);
}

#[test]
fn url_with_digit_kept() {
    // Rule (c) override: "URL2" has digit + len>=2 → kept even though
    // it'd be filtered as short-all-caps without the digit.
    let out = extract_candidates("Lead. Hit URL2 for details", 50);
    assert!(out.contains(&"URL2".to_string()), "got {:?}", out);
}

#[test]
fn sentence_boundary_after_exclamation_and_question() {
    // "Karpathy" appears mid-sentence in "We saw Karpathy." → kept.
    // After "!" the next token "Yang" is sentence-initial → filtered.
    // After "?" the next "Yang" is sentence-initial → filtered.
    // So "Yang" never lands in output here — confirming "!" and "?" both
    // function as sentence terminators.
    let out = extract_candidates(
        "Lead. We saw Karpathy. Karpathy waved! Yang did too? Yang waved back.",
        50,
    );
    assert!(out.contains(&"Karpathy".to_string()), "got {:?}", out);
    assert!(!out.contains(&"Yang".to_string()), "got {:?}", out);
}

#[test]
fn first_token_filtered_even_if_capitalized() {
    // Document-start token treated as sentence-initial.
    let out = extract_candidates("Apple shipped a new model", 50);
    assert!(!out.contains(&"Apple".to_string()), "got {:?}", out);
}

#[test]
fn stable_order_first_appearance() {
    let out = extract_candidates(
        "Lead. met Bravo then Alpha then Bravo again then Charlie.",
        50,
    );
    let bravo = out
        .iter()
        .position(|s| s == "Bravo")
        .expect("bravo missing");
    let alpha = out
        .iter()
        .position(|s| s == "Alpha")
        .expect("alpha missing");
    let charlie = out
        .iter()
        .position(|s| s == "Charlie")
        .expect("charlie missing");
    assert!(bravo < alpha, "out={:?}", out);
    assert!(alpha < charlie, "out={:?}", out);
}
