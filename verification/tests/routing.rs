use jackfield::dims::ProducerDim;
use jackfield::envelope::{Envelope, ProducerId};
use jackfield::message::BaseMessage;
use jackfield::registry::{entry_rejected, Candidate, DimEntry, EntryScore, Registry};
use jackfield::route::{AffinitySelection, BlindScan, EventKind, RouteAction, SkipReason};

#[derive(Clone, Copy)]
struct Mock {
    available: bool,
    accepts: bool,
}

fn envelope(origin: &str) -> Envelope {
    Envelope { origin: ProducerId(origin.to_string()), message: BaseMessage::new(None, None, None) }
}

/// Scores every entry the way the affinity router does: each dimension that
/// admits contributes its weight (1.0 here), a missed requirement rejects.
fn scores(reg: &Registry<Mock, ProducerDim>, env: &Envelope) -> Vec<EntryScore> {
    reg.entries
        .iter()
        .map(|e| {
            let mut total = 0.0f32;
            let mut missed = Vec::new();
            for d in &e.dims {
                let admits = d.dim.admits(env);
                missed.push(!admits);
                if admits {
                    total += 1.0;
                }
            }
            EntryScore { rejected: entry_rejected(&e.dims, &missed), score_bits: total.to_bits() }
        })
        .collect()
}

fn run_affinity(reg: &Registry<Mock, ProducerDim>, plan: Vec<Candidate>) -> (RouteAction, Vec<(usize, EventKind)>) {
    let mut sel = AffinitySelection::new(plan);
    loop {
        match sel.action() {
            RouteAction::CheckAvailable { entry } => sel.feed(reg.entries[entry].consumer.available),
            RouteAction::Validate { entry } => sel.feed(reg.entries[entry].consumer.accepts),
            done => return (done, sel.events()),
        }
    }
}

fn run_blind(reg: &Registry<Mock, ProducerDim>, env: &Envelope) -> RouteAction {
    let mut scan = BlindScan::new(reg);
    loop {
        match scan.action() {
            RouteAction::EvaluateDim { entry, dim } => scan.feed(!reg.entries[entry].dims[dim].dim.admits(env)),
            RouteAction::CheckAvailable { entry } => scan.feed(reg.entries[entry].consumer.available),
            RouteAction::Validate { entry } => scan.feed(reg.entries[entry].consumer.accepts),
            done => return done,
        }
    }
}

const OK: Mock = Mock { available: true, accepts: true };

#[test]
fn affinity_router_routes_to_matching_consumer() {
    let mut reg = Registry::new();
    let b = reg.register(OK);
    b.require(&mut reg, ProducerDim::only("producer_a".to_string()));
    let env = envelope("producer_a");
    let plan = reg.plan(&scores(&reg, &env));
    let (action, events) = run_affinity(&reg, plan);
    assert_eq!(action, RouteAction::Deliver { entry: 0 }, "should be consumed");
    assert_eq!(events, vec![(0, EventKind::Consumed)]);
}

#[test]
fn affinity_router_returns_unhandled() {
    let mut reg = Registry::new();
    let b = reg.register(OK);
    b.require(&mut reg, ProducerDim::only("producer_a".to_string()));
    let env = envelope("other");
    let plan = reg.plan(&scores(&reg, &env));
    assert!(plan.is_empty());
    let (action, events) = run_affinity(&reg, plan);
    assert_eq!(action, RouteAction::Unhandled, "should be unhandled");
    assert!(events.is_empty());
}

#[test]
fn blind_router_routes_in_order() {
    let mut reg: Registry<Mock, ProducerDim> = Registry::new();
    reg.register(OK);
    assert_eq!(run_blind(&reg, &envelope("any")), RouteAction::Deliver { entry: 0 }, "should be consumed");
}

#[test]
fn blind_router_respects_hard_reject() {
    let mut reg = Registry::new();
    let b = reg.register(OK);
    b.require(&mut reg, ProducerDim::only("producer_a".to_string()));
    assert_eq!(run_blind(&reg, &envelope("other")), RouteAction::Unhandled, "should be unhandled due to require filter");
}

#[test]
fn blind_router_skips_with_reasons() {
    let mut reg = Registry::new();
    let b = reg.register(OK);
    b.require(&mut reg, ProducerDim::only("x".to_string()));
    reg.register(Mock { available: false, accepts: true });
    reg.register(Mock { available: true, accepts: false });
    let b = reg.register(OK);
    // a soft preference never blocks the in-order router
    b.prefer(&mut reg, ProducerDim::only("x".to_string()));
    let env = envelope("y");
    let mut scan = BlindScan::new(&reg);
    let mut asked = vec![];
    loop {
        let a = scan.action();
        asked.push(a);
        match a {
            RouteAction::EvaluateDim { entry, dim } => scan.feed(!reg.entries[entry].dims[dim].dim.admits(&env)),
            RouteAction::CheckAvailable { entry } => scan.feed(reg.entries[entry].consumer.available),
            RouteAction::Validate { entry } => scan.feed(reg.entries[entry].consumer.accepts),
            _ => break,
        }
    }
    assert_eq!(
        asked,
        vec![
            RouteAction::EvaluateDim { entry: 0, dim: 0 },
            RouteAction::CheckAvailable { entry: 1 },
            RouteAction::CheckAvailable { entry: 2 },
            RouteAction::Validate { entry: 2 },
            RouteAction::CheckAvailable { entry: 3 },
            RouteAction::Validate { entry: 3 },
            RouteAction::Deliver { entry: 3 },
        ]
    );
    let _ = SkipReason::HardRejected;
}

#[test]
fn plan_orders_by_score_then_registration() {
    let mut reg: Registry<Mock, ProducerDim> = Registry::new();
    for _ in 0..4 {
        reg.register(OK);
    }
    let s = vec![
        EntryScore { rejected: false, score_bits: 1.0f32.to_bits() },
        EntryScore { rejected: false, score_bits: 2.0f32.to_bits() },
        EntryScore { rejected: true, score_bits: 9.0f32.to_bits() },
        EntryScore { rejected: false, score_bits: 2.0f32.to_bits() },
    ];
    let plan = reg.plan(&s);
    let idx: Vec<usize> = plan.iter().map(|c| c.idx).collect();
    assert_eq!(idx, vec![1, 3, 0]);
    assert_eq!(plan[0].id, 1);
}

#[test]
fn plan_clamps_non_finite_scores() {
    let mut reg: Registry<Mock, ProducerDim> = Registry::new();
    for _ in 0..4 {
        reg.register(OK);
    }
    let s = vec![
        EntryScore { rejected: false, score_bits: f32::NAN.to_bits() },
        EntryScore { rejected: false, score_bits: (-1.0f32).to_bits() },
        EntryScore { rejected: false, score_bits: f32::INFINITY.to_bits() },
        EntryScore { rejected: false, score_bits: 0.5f32.to_bits() },
    ];
    let plan = reg.plan(&s);
    let idx: Vec<usize> = plan.iter().map(|c| c.idx).collect();
    // NaN and +inf count as 0.0; -1.0 ranks last
    assert_eq!(idx, vec![3, 0, 2, 1]);
    assert_eq!(plan[1].score_bits, 0);
    assert_eq!(plan[2].score_bits, 0);
}

#[test]
fn plan_uses_total_order_for_signed_zero() {
    let mut reg: Registry<Mock, ProducerDim> = Registry::new();
    reg.register(OK);
    reg.register(OK);
    let s = vec![
        EntryScore { rejected: false, score_bits: (-0.0f32).to_bits() },
        EntryScore { rejected: false, score_bits: 0.0f32.to_bits() },
    ];
    let idx: Vec<usize> = reg.plan(&s).iter().map(|c| c.idx).collect();
    assert_eq!(idx, vec![1, 0]);
}

#[test]
fn affinity_events_for_busy_vetoed_and_skipped() {
    let mut reg: Registry<Mock, ProducerDim> = Registry::new();
    reg.register(Mock { available: false, accepts: true });
    reg.register(Mock { available: true, accepts: false });
    reg.register(OK);
    reg.register(OK);
    let s = vec![EntryScore { rejected: false, score_bits: 1.0f32.to_bits() }; 4];
    let plan = reg.plan(&s);
    let (action, events) = run_affinity(&reg, plan);
    assert_eq!(action, RouteAction::Deliver { entry: 2 });
    assert_eq!(
        events,
        vec![(0, EventKind::Busy), (1, EventKind::Vetoed), (3, EventKind::Skipped), (2, EventKind::Consumed)]
    );
}

#[test]
fn affinity_no_winner_penalises_all() {
    let mut reg: Registry<Mock, ProducerDim> = Registry::new();
    reg.register(Mock { available: false, accepts: true });
    reg.register(Mock { available: true, accepts: false });
    let s = vec![EntryScore { rejected: false, score_bits: 1.0f32.to_bits() }; 2];
    let (action, events) = run_affinity(&reg, reg.plan(&s));
    assert_eq!(action, RouteAction::Unhandled);
    assert_eq!(events, vec![(0, EventKind::Busy), (1, EventKind::Vetoed)]);
}

#[test]
fn higher_weight_outranks_earlier_registration() {
    // B registered second but scored higher: B wins and A is skipped.
    let mut reg: Registry<Mock, ProducerDim> = Registry::new();
    reg.register(OK);
    reg.register(OK);
    let s = vec![
        EntryScore { rejected: false, score_bits: 0.7f32.to_bits() },
        EntryScore { rejected: false, score_bits: 1.2f32.to_bits() },
    ];
    let (action, events) = run_affinity(&reg, reg.plan(&s));
    assert_eq!(action, RouteAction::Deliver { entry: 1 });
    assert_eq!(events, vec![(0, EventKind::Skipped), (1, EventKind::Consumed)]);
}

#[test]
fn deregistered_consumer_is_never_planned() {
    let mut reg: Registry<Mock, ProducerDim> = Registry::new();
    let a = reg.register(OK).id;
    let b = reg.register(OK).id;
    assert!(reg.deregister(a));
    assert!(!reg.deregister(a));
    let s = vec![EntryScore { rejected: false, score_bits: 1.0f32.to_bits() }; 1];
    let plan = reg.plan(&s);
    assert_eq!(plan.len(), 1);
    assert_eq!(plan[0].id, b);
}

#[test]
fn registration_ids_increase_and_are_not_reused() {
    let mut reg: Registry<Mock, ProducerDim> = Registry::new();
    let a = reg.register(OK);
    let b = reg.register(OK);
    assert_eq!((a.id, a.idx), (0, 0));
    assert_eq!((b.id, b.idx), (1, 1));
    reg.deregister(b.id);
    let c = reg.register(OK);
    assert_eq!((c.id, c.idx), (2, 1));
    assert_eq!(reg.len(), 2);
}

#[test]
fn missed_preference_does_not_reject() {
    let dims = vec![
        DimEntry { dim: ProducerDim::only("a".to_string()), reject_on_miss: false },
        DimEntry { dim: ProducerDim::only("b".to_string()), reject_on_miss: true },
    ];
    assert!(!entry_rejected(&dims, &vec![true, false]));
    assert!(entry_rejected(&dims, &vec![false, true]));
    assert!(!entry_rejected(&dims, &vec![false, false]));
}

#[test]
fn preferred_consumer_still_planned_when_preference_misses() {
    let mut reg: Registry<Mock, ProducerDim> = Registry::new();
    let b = reg.register(OK);
    b.prefer(&mut reg, ProducerDim::only("producer_a".to_string()));
    let env = envelope("other");
    let plan = reg.plan(&scores(&reg, &env));
    assert_eq!(plan.len(), 1);
    assert_eq!(plan[0].score_bits, 0.0f32.to_bits());
}
