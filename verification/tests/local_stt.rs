use vibeking::local_stt::{format_initial_prompt, format_initial_prompt_with_budget};


#[test]
fn empty_inputs_return_empty_prompt() {
    assert_eq!(format_initial_prompt(&[], &[]), "");
}

#[test]
fn hotwords_only_form_a_sentence() {
    let p = format_initial_prompt(&["Katherine".into(), "Karpathy".into()], &[]);
    assert!(p.starts_with("The following names may appear in the transcript: "));
    assert!(p.contains("Katherine"));
    assert!(p.contains("Karpathy"));
    assert!(p.ends_with('.'));
}

#[test]
fn hotwords_take_priority_over_candidates_on_dedupe() {
    let p = format_initial_prompt(
        &["Katherine".into()],
        &["katherine".into(), "Karpathy".into()],
    );
    // Only one "katherine" appears, preserving hotword casing.
    let lower_count = p.matches("atherine").count();
    assert_eq!(lower_count, 1);
    assert!(p.contains("Katherine"));
    assert!(p.contains("Karpathy"));
}

#[test]
fn truncates_below_token_budget() {
    // Generate enough tokens to exceed budget.
    let many: Vec<String> = (0..200).map(|i| format!("Token{i:03}")).collect();
    let p = format_initial_prompt(&[], &many);
    assert!(p.len() < 1200, "prompt should be capped: was {}", p.len());
    assert!(p.ends_with('.'));
}

#[test]
fn zero_budget_returns_empty_prompt() {
    // Budget of 0 always returns empty — used by the eval harness for
    // the "no biasing" baseline run in the token sweep.
    let p =
        format_initial_prompt_with_budget(&["Katherine".into()], &["Karpathy".into()], 0);
    assert_eq!(p, "");
}

#[test]
fn smaller_budget_yields_shorter_or_equal_prompt() {
    // Monotonicity: 150-token budget produces a prompt at least as
    // long as a 50-token budget for the same inputs.
    let many: Vec<String> = (0..30).map(|i| format!("Person{i:02}")).collect();
    let small = format_initial_prompt_with_budget(&[], &many, 50);
    let large = format_initial_prompt_with_budget(&[], &many, 150);
    assert!(
        large.len() >= small.len(),
        "large={large:?} small={small:?}"
    );
    assert!(small.ends_with('.'));
    assert!(large.ends_with('.'));
}
