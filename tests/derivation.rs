use std::collections::HashMap;
use talent_server::reorder::{
    dedup_pairs, derive_pairwise_preferences, derive_preference_pairs, position_in, same_order, PreferencePair,
};

fn ids(list: &[&str]) -> Vec<String> {
    list.iter().map(|s| s.to_string()).collect()
}

fn names() -> HashMap<String, String> {
    let mut names = HashMap::new();
    names.insert("t1".to_string(), "Alice".to_string());
    names.insert("t2".to_string(), "Bob".to_string());
    names
}

fn pairs_of(list: &[PreferencePair]) -> Vec<(String, String)> {
    list.iter().map(|p| (p.winner_id.clone(), p.loser_id.clone())).collect()
}

fn pair(w: &str, l: &str) -> (String, String) {
    (w.to_string(), l.to_string())
}

#[test]
fn records_carry_job_event_and_source() {
    let before = ids(&["t1", "t2", "t3"]);
    let after = ids(&["t3", "t1", "t2"]);
    let prefs = derive_pairwise_preferences(&before, &after, "job7", "Rust Dev at Acme", &names(), "ev9", Some("t3"));
    assert_eq!(prefs.len(), 2);
    for p in &prefs {
        assert_eq!(p.job_id, "job7");
        assert_eq!(p.job_text, "Rust Dev at Acme");
        assert_eq!(p.source, "manual_reorder");
        assert_eq!(p.reorder_event_id, Some("ev9".to_string()));
        assert_eq!(p.id.len(), 36);
        assert_eq!(p.id.as_bytes()[8], b'-');
        assert_eq!(p.id.as_bytes()[23], b'-');
        assert!(!p.created_at.is_empty());
    }
    assert_ne!(prefs[0].id, prefs[1].id);
}

#[test]
fn missing_names_read_unknown() {
    let before = ids(&["t1", "t2", "t3"]);
    let after = ids(&["t3", "t1", "t2"]);
    let prefs = derive_pairwise_preferences(&before, &after, "job1", "Job", &names(), "ev", Some("t3"));
    assert_eq!(prefs[0].winner_text, "Unknown");
    assert_eq!(prefs[0].loser_text, "Alice");
    assert_eq!(prefs[1].loser_text, "Bob");
}

#[test]
fn moved_up_losers_in_earlier_order() {
    let before = ids(&["t1", "t2", "t3", "t4", "t5"]);
    let after = ids(&["t1", "t5", "t2", "t3", "t4"]);
    let got = derive_preference_pairs(&before, &after, Some("t5"));
    assert_eq!(pairs_of(&got), vec![pair("t5", "t2"), pair("t5", "t3"), pair("t5", "t4")]);
}

#[test]
fn moved_down_winners_in_earlier_order() {
    let before = ids(&["t1", "t2", "t3", "t4", "t5"]);
    let after = ids(&["t2", "t3", "t4", "t1", "t5"]);
    let got = derive_preference_pairs(&before, &after, Some("t1"));
    assert_eq!(pairs_of(&got), vec![pair("t2", "t1"), pair("t3", "t1"), pair("t4", "t1")]);
}

#[test]
fn unfiltered_swap_gives_one_judgment() {
    let before = ids(&["t1", "t2", "t3"]);
    let after = ids(&["t2", "t1", "t3"]);
    let got = derive_preference_pairs(&before, &after, None);
    assert_eq!(pairs_of(&got), vec![pair("t2", "t1")]);
}

#[test]
fn unfiltered_rotation_drops_repeats_and_self_pairs() {
    let before = ids(&["t1", "t2", "t3"]);
    let after = ids(&["t3", "t1", "t2"]);
    let got = derive_preference_pairs(&before, &after, None);
    assert_eq!(pairs_of(&got), vec![pair("t3", "t1"), pair("t3", "t2"), pair("t2", "t1")]);
    for p in &got {
        assert_ne!(p.winner_id, p.loser_id);
    }
}

#[test]
fn id_missing_from_earlier_order_is_skipped() {
    let before = ids(&["t1", "t2", "t3"]);
    let after = ids(&["t9", "t1", "t2"]);
    let got = derive_preference_pairs(&before, &after, None);
    assert_eq!(pairs_of(&got), vec![pair("t2", "t1"), pair("t3", "t2")]);
}

#[test]
fn filter_on_absent_candidate_gives_nothing() {
    let before = ids(&["t1", "t2", "t3"]);
    let after = ids(&["t2", "t1", "t3"]);
    assert!(derive_preference_pairs(&before, &after, Some("t9")).is_empty());
}

#[test]
fn filter_on_unmoved_candidate_gives_nothing() {
    let before = ids(&["t1", "t2", "t3"]);
    let after = ids(&["t2", "t1", "t3"]);
    assert!(derive_preference_pairs(&before, &after, Some("t3")).is_empty());
}

#[test]
fn one_empty_order_gives_nothing() {
    let before = ids(&["t1"]);
    let after: Vec<String> = vec![];
    assert!(derive_preference_pairs(&before, &after, None).is_empty());
    assert!(derive_preference_pairs(&after, &before, None).is_empty());
}

#[test]
fn single_candidate_gives_nothing() {
    let order = ids(&["t1"]);
    assert!(derive_preference_pairs(&order, &order, Some("t1")).is_empty());
}

#[test]
fn dedup_keeps_first_occurrences_in_order() {
    let list = vec![
        PreferencePair { winner_id: "a".to_string(), loser_id: "b".to_string() },
        PreferencePair { winner_id: "b".to_string(), loser_id: "a".to_string() },
        PreferencePair { winner_id: "a".to_string(), loser_id: "b".to_string() },
        PreferencePair { winner_id: "c".to_string(), loser_id: "a".to_string() },
        PreferencePair { winner_id: "b".to_string(), loser_id: "a".to_string() },
    ];
    let got = dedup_pairs(list);
    assert_eq!(pairs_of(&got), vec![pair("a", "b"), pair("b", "a"), pair("c", "a")]);
}

#[test]
fn position_is_first_occurrence() {
    let order = ids(&["t1", "t2", "t1"]);
    assert_eq!(position_in(&order, &"t1".to_string()), Some(0));
    assert_eq!(position_in(&order, &"t2".to_string()), Some(1));
    assert_eq!(position_in(&order, &"t3".to_string()), None);
}

#[test]
fn same_order_compares_every_position() {
    assert!(same_order(&ids(&["a", "b"]), &ids(&["a", "b"])));
    assert!(!same_order(&ids(&["a", "b"]), &ids(&["b", "a"])));
    assert!(!same_order(&ids(&["a"]), &ids(&["a", "b"])));
    assert!(same_order(&ids(&[]), &ids(&[])));
}
