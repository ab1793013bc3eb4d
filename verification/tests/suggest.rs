use keyed_editor::suggest::{best_scoring, did_you_mean, SUGGESTION_THRESHOLD_BITS};

#[test]
fn the_best_score_above_the_threshold_wins_the_last_on_a_tie() {
    let above = SUGGESTION_THRESHOLD_BITS + 10;
    assert_eq!(best_scoring(&vec![]), None);
    assert_eq!(best_scoring(&vec![1, SUGGESTION_THRESHOLD_BITS]), None);
    assert_eq!(best_scoring(&vec![above, above + 1, above]), Some(1));
    assert_eq!(best_scoring(&vec![above + 1, 0, above + 1]), Some(2));
}

#[test]
fn did_you_mean_suggests_the_closest_name() {
    let names = vec!["Normal", "Insert"];
    assert_eq!(did_you_mean("Nromal", &names), Some("Normal".to_string()));
    assert_eq!(did_you_mean("xyz", &names), None);
}
