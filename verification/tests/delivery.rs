use jackfield::delivery::{CallbackRound, DeliveryStep};

fn run(items: Vec<u32>, fail_at: Option<u32>) -> (Vec<u32>, Vec<u32>) {
    let mut round = CallbackRound::new(items);
    let mut seen = Vec::new();
    while let DeliveryStep::Deliver { index } = round.step() {
        let item = *round.item(index);
        if Some(item) == fail_at {
            round.feed(false);
        } else {
            seen.push(item);
            round.feed(true);
        }
    }
    (seen, round.into_undelivered())
}

#[test]
fn every_item_delivered_when_callbacks_succeed() {
    let (seen, back) = run(vec![1, 2, 3], None);
    assert_eq!(seen, vec![1, 2, 3]);
    assert!(back.is_empty());
}

#[test]
fn failure_gives_back_failing_item_and_the_rest() {
    let (seen, back) = run(vec![1, 2, 3, 4], Some(2));
    assert_eq!(seen, vec![1]);
    assert_eq!(back, vec![2, 3, 4]);
}

#[test]
fn empty_round_finishes_at_once() {
    let round: CallbackRound<u32> = CallbackRound::new(Vec::new());
    assert_eq!(round.step(), DeliveryStep::Finished);
    assert!(round.into_undelivered().is_empty());
}
