//! Reasoning efforts implied by model ids.

use nexa::protocol::ReasoningEffort;
use nexa::reasoning::{inferred_reasoning_efforts, GPT5, GPT51, GPT52};

#[test]
fn gpt56_sol_and_luna_include_max() {
    for id in [
        "gpt-5.6-sol",
        "gpt-5.6-luna",
        "gpt-5.6-terra",
        "gpt-5.6",
        "openai/gpt-5.6-sol",
        "GPT-5.6-Sol",
    ] {
        let efforts = inferred_reasoning_efforts(id).unwrap();
        assert!(
            efforts.contains(&ReasoningEffort::Max),
            "{id} should include max"
        );
        assert!(efforts.contains(&ReasoningEffort::XHigh));
        assert!(!efforts.contains(&ReasoningEffort::Minimal));
    }
}

#[test]
fn earlier_gpt5_versions_stop_before_max() {
    assert_eq!(
        inferred_reasoning_efforts("gpt-5.4").as_deref(),
        Some(GPT52.as_slice())
    );
    assert!(!inferred_reasoning_efforts("gpt-5.4")
        .unwrap()
        .contains(&ReasoningEffort::Max));
    assert_eq!(
        inferred_reasoning_efforts("gpt-5.1").as_deref(),
        Some(GPT51.as_slice())
    );
    assert_eq!(
        inferred_reasoning_efforts("gpt-5").as_deref(),
        Some(GPT5.as_slice())
    );
}

#[test]
fn grok_46_matches_the_common_set_without_max() {
    let efforts = inferred_reasoning_efforts("grok-4.6").unwrap();
    assert_eq!(efforts, GPT52);
    assert!(!efforts.contains(&ReasoningEffort::Max));
}

#[test]
fn unknown_ids_do_not_invent_a_family() {
    assert_eq!(inferred_reasoning_efforts("plain"), None);
    assert_eq!(inferred_reasoning_efforts("qwen3.8-max"), None);
    assert_eq!(inferred_reasoning_efforts("kimi-k3"), None);
}

#[test]
fn inferred_levels_rise() {
    for id in ["gpt-5", "gpt-5.1", "gpt-5.2", "gpt-5.10", "grok-4-5", "x/grok-4-6-fast"] {
        let efforts = inferred_reasoning_efforts(id).unwrap();
        let places: Vec<usize> = efforts
            .iter()
            .map(|effort| ReasoningEffort::ALL.iter().position(|level| level == effort).unwrap())
            .collect();
        assert!(places.windows(2).all(|pair| pair[0] < pair[1]), "{id}");
    }
}
