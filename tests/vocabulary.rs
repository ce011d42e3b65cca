use tamata::model::{derive_events, derive_states, find_duplicate, TransitionRow};
use tamata::names::{insert_name, name_less};

fn row(state: &str, event: &str, next: &str) -> TransitionRow {
    TransitionRow { state: state.to_string(), event: event.to_string(), next: next.to_string(), action: None }
}

fn strings(v: &[&str]) -> Vec<String> {
    v.iter().map(|s| s.to_string()).collect()
}

#[test]
fn name_order_is_lexicographic() {
    assert!(name_less(&"Coin".to_string(), &"Push".to_string()));
    assert!(!name_less(&"Push".to_string(), &"Coin".to_string()));
    assert!(name_less(&"Lock".to_string(), &"Locked".to_string()));
    assert!(!name_less(&"Locked".to_string(), &"Locked".to_string()));
    assert!(name_less(&"B".to_string(), &"a".to_string()));
    assert!(name_less(&"".to_string(), &"a".to_string()));
}

#[test]
fn insert_name_keeps_order_and_skips_repeats() {
    let mut v: Vec<String> = Vec::new();
    for n in ["b", "a", "c", "a", "b"] {
        insert_name(&mut v, &n.to_string());
    }
    assert_eq!(v, strings(&["a", "b", "c"]));
}

#[test]
fn states_are_sources_and_targets_sorted_once() {
    let rows = vec![
        row("Locked", "Coin", "Unlocked"),
        row("Locked", "Push", "Locked"),
        row("Unlocked", "Coin", "Unlocked"),
        row("Unlocked", "Push", "Locked"),
    ];
    assert_eq!(derive_states(&rows), strings(&["Locked", "Unlocked"]));
    assert_eq!(derive_events(&rows), strings(&["Coin", "Push"]));
}

#[test]
fn target_only_state_is_declared() {
    let rows = vec![row("Idle", "Start", "Running"), row("Running", "Stop", "Done")];
    assert_eq!(derive_states(&rows), strings(&["Done", "Idle", "Running"]));
    assert_eq!(derive_events(&rows), strings(&["Start", "Stop"]));
}

#[test]
fn vocabulary_ignores_row_order() {
    let a = vec![row("Z", "e2", "A"), row("M", "e1", "Z")];
    let b = vec![row("M", "e1", "Z"), row("Z", "e2", "A")];
    assert_eq!(derive_states(&a), derive_states(&b));
    assert_eq!(derive_events(&a), derive_events(&b));
}

#[test]
fn empty_table_has_empty_vocabulary() {
    let rows: Vec<TransitionRow> = Vec::new();
    assert!(derive_states(&rows).is_empty());
    assert!(derive_events(&rows).is_empty());
}

#[test]
fn duplicate_pair_is_found() {
    let rows = vec![row("A", "x", "B"), row("B", "x", "A"), row("A", "y", "A"), row("A", "x", "A")];
    assert_eq!(find_duplicate(&rows), Some((0, 3)));
    let distinct = vec![row("A", "x", "B"), row("B", "x", "A")];
    assert_eq!(find_duplicate(&distinct), None);
}
