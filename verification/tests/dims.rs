use jackfield::dims::{LabelDim, ProducerDim, SizeDim};
use jackfield::envelope::{Envelope, ProducerId};
use jackfield::message::BaseMessage;

fn env(origin: &str, labels: &[&str], size: usize) -> Envelope {
    Envelope {
        origin: ProducerId(origin.to_string()),
        message: BaseMessage::new(None, Some(labels.iter().map(|s| s.to_string()).collect()), Some(vec![0u8; size])),
    }
}

fn strs(v: &[&str]) -> Vec<String> {
    v.iter().map(|s| s.to_string()).collect()
}

#[test]
fn producer_only_matches_exact_name() {
    let d = ProducerDim::only("sensor_a".to_string());
    assert!(d.admits(&env("sensor_a", &[], 0)));
    assert!(!d.admits(&env("sensor_b", &[], 0)));
    assert!(!d.admits(&env("sensor_a2", &[], 0)));
}

#[test]
fn producer_any_and_none_of() {
    let any = ProducerDim::any_of(strs(&["a", "b"]));
    let none = ProducerDim::none_of(strs(&["a", "b"]));
    assert!(any.admits(&env("b", &[], 0)));
    assert!(!any.admits(&env("c", &[], 0)));
    assert!(!none.admits(&env("a", &[], 0)));
    assert!(none.admits(&env("c", &[], 0)));
    assert!(!ProducerDim::any_of(vec![]).admits(&env("a", &[], 0)));
    assert!(ProducerDim::none_of(vec![]).admits(&env("a", &[], 0)));
}

#[test]
fn label_matchers() {
    let e = env("p", &["temperature", "celsius"], 0);
    assert!(LabelDim::any_of(strs(&["humidity", "temperature"])).admits(&e));
    assert!(!LabelDim::any_of(strs(&["humidity"])).admits(&e));
    assert!(LabelDim::all_of(strs(&["celsius", "temperature"])).admits(&e));
    assert!(!LabelDim::all_of(strs(&["celsius", "kelvin"])).admits(&e));
    assert!(LabelDim::all_of(vec![]).admits(&e));
    assert!(LabelDim::none_of(strs(&["debug"])).admits(&e));
    assert!(!LabelDim::none_of(strs(&["debug", "celsius"])).admits(&e));
}

#[test]
fn size_bounds_are_inclusive() {
    assert!(SizeDim::at_most(4).admits(&env("p", &[], 4)));
    assert!(!SizeDim::at_most(4).admits(&env("p", &[], 5)));
    assert!(SizeDim::at_least(2).admits(&env("p", &[], 2)));
    assert!(!SizeDim::at_least(2).admits(&env("p", &[], 1)));
    let b = SizeDim::between(2, 3);
    assert!(!b.admits(&env("p", &[], 1)));
    assert!(b.admits(&env("p", &[], 2)));
    assert!(b.admits(&env("p", &[], 3)));
    assert!(!b.admits(&env("p", &[], 4)));
    assert!(!SizeDim::between(3, 2).admits(&env("p", &[], 2)));
}
