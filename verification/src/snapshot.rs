//! Coalescing snapshot of the latest worker event per tracked kind.
//!
//! The snapshot holds, for one worker process instance, the most recent
//! payload of each tracked event kind (or a presence flag where the payload
//! carries nothing). Replaying it hands a newly attached observer at most one
//! synthetic event per set field, in a fixed order.

use vstd::prelude::*;

use crate::codec::{str_eq, EventModel, WorkerEvent};

verus! {

/// Latest-known state of the current worker instance: one field per tracked
/// event kind, each unset until the kind has been seen.
#[derive(Clone, Debug)]
pub struct Snapshot {
    pub input_ready: bool,
    pub scan_progress: Option<String>,
    pub registered: Option<String>,
    pub sens_applied: Option<String>,
}

/// Mathematical model of a [`Snapshot`].
pub struct SnapshotModel {
    pub input_ready: bool,
    pub scan_progress: Option<Seq<char>>,
    pub registered: Option<Seq<char>>,
    pub sens_applied: Option<Seq<char>>,
}

impl View for Snapshot {
    type V = SnapshotModel;

    open spec fn view(&self) -> SnapshotModel {
        SnapshotModel {
            input_ready: self.input_ready,
            scan_progress: match self.scan_progress {
                Some(p) => Some(p@),
                None => None,
            },
            registered: match self.registered {
                Some(p) => Some(p@),
                None => None,
            },
            sens_applied: match self.sens_applied {
                Some(p) => Some(p@),
                None => None,
            },
        }
    }
}

/// The all-unset snapshot, the state right after a worker is spawned.
pub open spec fn empty_snapshot() -> SnapshotModel {
    SnapshotModel { input_ready: false, scan_progress: None, registered: None, sens_applied: None }
}

/// How one event changes a snapshot: each tracked kind overwrites its own
/// field, every other kind is a no-op.
pub open spec fn update_spec(s: SnapshotModel, e: EventModel) -> SnapshotModel {
    if e.kind == "INPUT_READY"@ {
        SnapshotModel { input_ready: true, ..s }
    } else if e.kind == "SCAN_PROGRESS"@ {
        SnapshotModel { scan_progress: Some(e.payload), ..s }
    } else if e.kind == "REGISTERED"@ {
        SnapshotModel { registered: Some(e.payload), ..s }
    } else if e.kind == "SENS_APPLIED"@ {
        SnapshotModel { sens_applied: Some(e.payload), ..s }
    } else {
        s
    }
}

/// The sequence `replay` emits: at most one synthetic event per set field, in
/// the fixed order readiness, progress, adjustment, registration.
pub open spec fn replay_spec(s: SnapshotModel) -> Seq<EventModel> {
    let ready = if s.input_ready {
        seq![EventModel { kind: "INPUT_READY"@, payload: Seq::<char>::empty() }]
    } else {
        Seq::<EventModel>::empty()
    };
    let progress = match s.scan_progress {
        Some(p) => seq![EventModel { kind: "SCAN_PROGRESS"@, payload: p }],
        None => Seq::<EventModel>::empty(),
    };
    let sens = match s.sens_applied {
        Some(p) => seq![EventModel { kind: "SENS_APPLIED"@, payload: p }],
        None => Seq::<EventModel>::empty(),
    };
    let registered = match s.registered {
        Some(p) => seq![EventModel { kind: "REGISTERED"@, payload: p }],
        None => Seq::<EventModel>::empty(),
    };
    ready + progress + sens + registered
}

/// A sequence of events folded into a snapshot, oldest first.
pub open spec fn apply_events(s: SnapshotModel, evs: Seq<EventModel>) -> SnapshotModel
    decreases evs.len(),
{
    if evs.len() == 0 {
        s
    } else {
        apply_events(update_spec(s, evs[0]), evs.subrange(1, evs.len() as int))
    }
}

proof fn lemma_apply_events_append(s: SnapshotModel, a: Seq<EventModel>, b: Seq<EventModel>)
    ensures
        apply_events(s, a + b) == apply_events(apply_events(s, a), b),
    decreases a.len(),
{
    if a.len() == 0 {
        assert(a + b =~= b);
    } else {
        assert((a + b).subrange(1, (a + b).len() as int) =~= a.subrange(1, a.len() as int) + b);
        lemma_apply_events_append(update_spec(s, a[0]), a.subrange(1, a.len() as int), b);
    }
}

proof fn lemma_apply_singleton(s: SnapshotModel, e: EventModel)
    ensures
        apply_events(s, seq![e]) == update_spec(s, e),
{
    let evs = seq![e];
    assert(evs.subrange(1, 1) =~= Seq::<EventModel>::empty());
    assert(apply_events(update_spec(s, e), Seq::<EventModel>::empty()) == update_spec(s, e));
}

proof fn lemma_kinds_distinct()
    ensures
        "INPUT_READY"@ != "SCAN_PROGRESS"@,
        "INPUT_READY"@ != "SENS_APPLIED"@,
        "INPUT_READY"@ != "REGISTERED"@,
        "SCAN_PROGRESS"@ != "SENS_APPLIED"@,
        "SCAN_PROGRESS"@ != "REGISTERED"@,
        "SENS_APPLIED"@ != "REGISTERED"@,
{
    reveal_strlit("INPUT_READY");
    reveal_strlit("SCAN_PROGRESS");
    reveal_strlit("SENS_APPLIED");
    reveal_strlit("REGISTERED");
    assert("INPUT_READY"@.len() == 11);
    assert("SCAN_PROGRESS"@.len() == 13);
    assert("SENS_APPLIED"@.len() == 12);
    assert("REGISTERED"@.len() == 10);
}

/// Replay loses nothing and invents nothing: folding the replayed events into
/// a fresh snapshot reconstructs the snapshot they were replayed from.
pub proof fn lemma_replay_reconstructs(s: SnapshotModel)
    ensures
        apply_events(empty_snapshot(), replay_spec(s)) == s,
{
    lemma_kinds_distinct();
    let ready = if s.input_ready {
        seq![EventModel { kind: "INPUT_READY"@, payload: Seq::<char>::empty() }]
    } else {
        Seq::<EventModel>::empty()
    };
    let progress = match s.scan_progress {
        Some(p) => seq![EventModel { kind: "SCAN_PROGRESS"@, payload: p }],
        None => Seq::<EventModel>::empty(),
    };
    let sens = match s.sens_applied {
        Some(p) => seq![EventModel { kind: "SENS_APPLIED"@, payload: p }],
        None => Seq::<EventModel>::empty(),
    };
    let registered = match s.registered {
        Some(p) => seq![EventModel { kind: "REGISTERED"@, payload: p }],
        None => Seq::<EventModel>::empty(),
    };
    lemma_apply_events_append(empty_snapshot(), ready + progress + sens, registered);
    lemma_apply_events_append(empty_snapshot(), ready + progress, sens);
    lemma_apply_events_append(empty_snapshot(), ready, progress);
    let s0 = empty_snapshot();
    assert(apply_events(s0, Seq::<EventModel>::empty()) == s0);
    if s.input_ready {
        lemma_apply_singleton(s0, ready[0]);
    }
    let s1 = apply_events(s0, ready);
    assert(apply_events(s1, Seq::<EventModel>::empty()) == s1);
    if s.scan_progress is Some {
        lemma_apply_singleton(s1, progress[0]);
    }
    let s2 = apply_events(s1, progress);
    assert(apply_events(s2, Seq::<EventModel>::empty()) == s2);
    if s.sens_applied is Some {
        lemma_apply_singleton(s2, sens[0]);
    }
    let s3 = apply_events(s2, sens);
    assert(apply_events(s3, Seq::<EventModel>::empty()) == s3);
    if s.registered is Some {
        lemma_apply_singleton(s3, registered[0]);
    }
}

/// Updating with a replay and replaying again is idempotent: without new
/// events in between, a second replay yields the same sequence as the first.
pub proof fn lemma_replay_idempotent(s: SnapshotModel)
    ensures
        replay_spec(apply_events(empty_snapshot(), replay_spec(s))) == replay_spec(s),
{
    lemma_replay_reconstructs(s);
}

/// The replay order is fixed by the kinds, not by arrival order: after
/// `SENS_APPLIED`, `INPUT_READY`, `REGISTERED` arrive in that order, replay
/// yields readiness first, then the adjustment, then the registration.
pub proof fn lemma_replay_order_fixed(
    ready_payload: Seq<char>,
    sens_payload: Seq<char>,
    reg_payload: Seq<char>,
)
    ensures
        replay_spec(
            apply_events(
                empty_snapshot(),
                seq![
                    EventModel { kind: "SENS_APPLIED"@, payload: sens_payload },
                    EventModel { kind: "INPUT_READY"@, payload: ready_payload },
                    EventModel { kind: "REGISTERED"@, payload: reg_payload },
                ],
            ),
        ) == seq![
            EventModel { kind: "INPUT_READY"@, payload: Seq::<char>::empty() },
            EventModel { kind: "SENS_APPLIED"@, payload: sens_payload },
            EventModel { kind: "REGISTERED"@, payload: reg_payload },
        ],
{
    lemma_kinds_distinct();
    let e0 = EventModel { kind: "SENS_APPLIED"@, payload: sens_payload };
    let e1 = EventModel { kind: "INPUT_READY"@, payload: ready_payload };
    let e2 = EventModel { kind: "REGISTERED"@, payload: reg_payload };
    let evs = seq![e0, e1, e2];
    assert(evs =~= seq![e0] + seq![e1] + seq![e2]);
    lemma_apply_events_append(empty_snapshot(), seq![e0] + seq![e1], seq![e2]);
    lemma_apply_events_append(empty_snapshot(), seq![e0], seq![e1]);
    lemma_apply_singleton(empty_snapshot(), e0);
    let s1 = update_spec(empty_snapshot(), e0);
    lemma_apply_singleton(s1, e1);
    let s2 = update_spec(s1, e1);
    lemma_apply_singleton(s2, e2);
    let s3 = update_spec(s2, e2);
    assert(replay_spec(s3) =~= seq![
        EventModel { kind: "INPUT_READY"@, payload: Seq::<char>::empty() },
        EventModel { kind: "SENS_APPLIED"@, payload: sens_payload },
        EventModel { kind: "REGISTERED"@, payload: reg_payload },
    ]);
}

/// The models of a sequence of events.
pub open spec fn events_view(evs: Seq<WorkerEvent>) -> Seq<EventModel> {
    evs.map_values(|e: WorkerEvent| e@)
}

impl Snapshot {
    /// The all-unset snapshot; also what a fresh worker spawn resets to.
    pub fn new() -> (r: Snapshot)
        ensures
            r@ == empty_snapshot(),
    {
        Snapshot { input_ready: false, scan_progress: None, registered: None, sens_applied: None }
    }

    /// Fold one decoded event into the snapshot.
    pub fn update(&mut self, e: &WorkerEvent)
        ensures
            final(self)@ == update_spec(old(self)@, e@),
    {
        if str_eq(e.kind.as_str(), "INPUT_READY") {
            self.input_ready = true;
        } else if str_eq(e.kind.as_str(), "SCAN_PROGRESS") {
            self.scan_progress = Some(e.payload.clone());
        } else if str_eq(e.kind.as_str(), "REGISTERED") {
            self.registered = Some(e.payload.clone());
        } else if str_eq(e.kind.as_str(), "SENS_APPLIED") {
            self.sens_applied = Some(e.payload.clone());
        }
    }

    /// Emit one synthetic event per set field, in the fixed replay order.
    pub fn replay(&self) -> (r: Vec<WorkerEvent>)
        ensures
            events_view(r@) == replay_spec(self@),
    {
        let mut out: Vec<WorkerEvent> = Vec::new();
        if self.input_ready {
            out.push(WorkerEvent { kind: String::from_str("INPUT_READY"), payload: String::new() });
        }
        if let Some(p) = &self.scan_progress {
            out.push(WorkerEvent { kind: String::from_str("SCAN_PROGRESS"), payload: p.clone() });
        }
        if let Some(p) = &self.sens_applied {
            out.push(WorkerEvent { kind: String::from_str("SENS_APPLIED"), payload: p.clone() });
        }
        if let Some(p) = &self.registered {
            out.push(WorkerEvent { kind: String::from_str("REGISTERED"), payload: p.clone() });
        }
        proof {
            assert(events_view(out@) =~= replay_spec(self@));
        }
        out
    }
}

} // verus!
