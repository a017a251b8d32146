use promptkit::prompting::Predicate;
use promptkit::prompting::Prompter;

#[test]
fn predicate_validates_and_reports() {
    let positive: fn(&i32) -> bool = |v: &i32| *v > 0;
    let p = Predicate::new("must be positive", positive);
    assert!(p.validate(&3));
    assert!(!p.validate(&-3));
    assert_eq!(p.invalid_msg(), "must be positive");
}

#[test]
fn first_failing_reports_first_in_order() {
    let positive: fn(&i32) -> bool = |v: &i32| *v > 0;
    let small: fn(&i32) -> bool = |v: &i32| *v < 10;
    let pr = Prompter::new("not a number")
        .pred(Predicate::new("must be positive", positive))
        .pred(Predicate::new("must be small", small));
    assert_eq!(pr.first_failing(&5), None);
    assert_eq!(pr.first_failing(&-1), Some(0));
    assert_eq!(pr.first_failing(&50), Some(1));
    assert_eq!(pr.conversion_msg(), "not a number");
    assert_eq!(pr.num_preds(), 2);
    assert_eq!(pr.invalid_msg_at(1), "must be small");
}

#[test]
fn from_preds_keeps_the_given_order() {
    let nonzero: fn(&i32) -> bool = |v: &i32| *v != 0;
    let even: fn(&i32) -> bool = |v: &i32| *v % 2 == 0;
    let preds = vec![
        Predicate::new("must not be zero", nonzero),
        Predicate::new("must be even", even),
    ];
    let pr = Prompter::from_preds("bad input", preds);
    assert_eq!(pr.first_failing(&0), Some(0));
    assert_eq!(pr.first_failing(&3), Some(1));
    assert_eq!(pr.first_failing(&4), None);
    assert_eq!(pr.invalid_msg_at(0), "must not be zero");
}

#[test]
fn prompter_without_predicates_accepts_everything() {
    let pr: Prompter<i32, fn(&i32) -> bool> = Prompter::new("bad input");
    assert_eq!(pr.first_failing(&-100), None);
}
