//! The reactive dispatch planner.
//!
//! On every transition the store publishes, the engine must send a set
//! of protocol operations to the management server. This module computes
//! that set as a plan of plain values, applies handshake and
//! authorization replies back to the store, and decides when a liveness
//! message is due. Performing the operations (the actual network calls)
//! is the caller's business.

use vstd::prelude::*;

use crate::config::spec_initial_outlets;
use crate::config::Config;
use crate::outlet_map::lemma_index_get;
use crate::outlet_map::lemma_get_in_range;
use crate::outlet_map::outlet_state_eq;
use crate::outlet_map::sorted_by_key;
use crate::outlet_map::spec_get;
use crate::state::aggregate_outlet_status;
use crate::state::spec_aggregate_status;
use crate::state::spec_outlet_status;
use crate::state::tag_eq;
use crate::state::ChargePointStatus;
use crate::state::ChargerState;
use crate::state::OutletState;
use crate::state::State;
use crate::state::StateUpdate;
use crate::state::StateView;
use crate::state::TransitionView;

verus! {

/// One protocol operation the dispatch engine must perform.
#[derive(Debug, PartialEq)]
pub enum ProtocolOp {
    /// Begin the registration handshake with the server.
    StartHandshake,
    /// Send one status notification; connector id 0 denotes the whole
    /// charge point, any other id a specific outlet.
    SendStatus { connector_id: u64, status: ChargePointStatus },
    /// Ask the server to authorize the given tag.
    Authorize { tag: String },
}

/// The mathematical value of a protocol operation.
pub enum OpView {
    StartHandshake,
    SendStatus { connector_id: u64, status: ChargePointStatus },
    Authorize { tag: Seq<char> },
}

impl View for ProtocolOp {
    type V = OpView;

    open spec fn view(&self) -> OpView {
        match self {
            ProtocolOp::StartHandshake => OpView::StartHandshake,
            ProtocolOp::SendStatus { connector_id, status } => OpView::SendStatus {
                connector_id: *connector_id,
                status: *status,
            },
            ProtocolOp::Authorize { tag } => OpView::Authorize { tag: tag@ },
        }
    }
}

/// The views of a plan's operations, in order.
pub open spec fn ops_view(ops: Seq<ProtocolOp>) -> Seq<OpView> {
    ops.map_values(|op: ProtocolOp| op@)
}

/// The full-snapshot updates sent on the first `Connected` observation:
/// the charge point, then every outlet in id order, each `Available`.
pub open spec fn spec_initial_status_ops(outlets: Seq<(u64, OutletState)>) -> Seq<OpView>
    decreases outlets.len(),
{
    if outlets.len() == 0 {
        seq![OpView::SendStatus { connector_id: 0, status: ChargePointStatus::Available }]
    } else {
        spec_initial_status_ops(outlets.drop_last()).push(
            OpView::SendStatus {
                connector_id: outlets.last().0,
                status: ChargePointStatus::Available,
            },
        )
    }
}

/// One status update per outlet present in both maps whose value
/// changed, carrying the new value, in the id order of the new map. Ids
/// absent from the prior map are not diffed.
pub open spec fn spec_diff_ops(
    old_outlets: Seq<(u64, OutletState)>,
    new_outlets: Seq<(u64, OutletState)>,
) -> Seq<OpView>
    decreases new_outlets.len(),
{
    if new_outlets.len() == 0 {
        Seq::empty()
    } else {
        let rest = spec_diff_ops(old_outlets, new_outlets.drop_last());
        let e = new_outlets.last();
        if spec_get(old_outlets, e.0) matches Some(v) && v != e.1 {
            rest.push(OpView::SendStatus { connector_id: e.0, status: spec_outlet_status(e.1) })
        } else {
            rest
        }
    }
}

/// The charge-point-level update, sent when the aggregate changed.
pub open spec fn spec_aggregate_ops(
    old_outlets: Seq<(u64, OutletState)>,
    new_outlets: Seq<(u64, OutletState)>,
) -> Seq<OpView> {
    if spec_aggregate_status(new_outlets) != spec_aggregate_status(old_outlets) {
        seq![
            OpView::SendStatus {
                connector_id: 0,
                status: spec_aggregate_status(new_outlets),
            },
        ]
    } else {
        Seq::empty()
    }
}

/// The authorization trigger: fires only when the pending tag changed
/// and the new value is present. A present-to-absent change fires
/// nothing.
pub open spec fn spec_authorize_ops(
    old_tag: Option<Seq<char>>,
    new_tag: Option<Seq<char>>,
) -> Seq<OpView> {
    match new_tag {
        Some(t) => if new_tag != old_tag {
            seq![OpView::Authorize { tag: t }]
        } else {
            Seq::empty()
        },
        None => Seq::empty(),
    }
}

/// Everything the dispatch engine must do on observing one transition.
pub open spec fn spec_dispatch(from: StateView, to: StateView) -> Seq<OpView> {
    (if to is Booting {
        seq![OpView::StartHandshake]
    } else {
        Seq::empty()
    }) + match to {
        StateView::Connected { outlet_states: new_outlets, pending_rfid_tag: new_tag, .. } => (
        if from is Booting {
            spec_initial_status_ops(new_outlets)
        } else {
            Seq::empty()
        }) + match from {
            StateView::Connected { outlet_states: old_outlets, pending_rfid_tag: old_tag, .. } =>
                spec_diff_ops(old_outlets, new_outlets) + spec_aggregate_ops(
                    old_outlets,
                    new_outlets,
                ) + spec_authorize_ops(old_tag, new_tag),
            _ => Seq::empty(),
        },
        _ => Seq::empty(),
    }
}

/// Taking the views of a plan commutes with appending one operation.
proof fn lemma_ops_view_push(s: Seq<ProtocolOp>, x: ProtocolOp)
    ensures
        ops_view(s.push(x)) == ops_view(s).push(x@),
{
    assert(ops_view(s.push(x)) =~= ops_view(s).push(x@));
}

/// Computes the protocol operations for one observed transition: the
/// handshake trigger when the new state is `Booting`; on a `Connected`
/// observation the initial snapshot (when coming out of `Booting`), the
/// per-outlet diff, the aggregate status change and the authorization
/// trigger (when the previous state was also `Connected`).
pub fn dispatch_plan(t: &StateUpdate) -> (ops: Vec<ProtocolOp>)
    ensures
        ops_view(ops@) == spec_dispatch(t.from@, t.to@),
{
    let ghost gfrom = t.from@;
    let ghost gto = t.to@;
    let mut ops: Vec<ProtocolOp> = Vec::new();

    if matches!(&t.to, ChargerState::Booting) {
        ops.push(ProtocolOp::StartHandshake);
    }
    let ghost phase1 = if gto is Booting {
        seq![OpView::StartHandshake]
    } else {
        Seq::<OpView>::empty()
    };
    proof {
        assert(ops_view(ops@) =~= phase1);
    }

    match &t.to {
        ChargerState::Connected { outlet_states: new_outlets, pending_rfid_tag: new_tag, .. } => {
            proof {
                use_type_invariant(new_outlets);
            }
            if matches!(&t.from, ChargerState::Booting) {
                ops.push(
                    ProtocolOp::SendStatus {
                        connector_id: 0,
                        status: ChargePointStatus::Available,
                    },
                );
                proof {
                    assert(ops_view(ops@) =~= phase1 + spec_initial_status_ops(
                        new_outlets@.take(0),
                    ));
                }
                let n = new_outlets.len();
                let mut i: usize = 0;
                while i < n
                    invariant
                        n == new_outlets@.len(),
                        0 <= i <= n,
                        ops_view(ops@) == phase1 + spec_initial_status_ops(
                            new_outlets@.take(i as int),
                        ),
                    decreases n - i,
                {
                    let e = new_outlets.entry_at(i);
                    let ghost before = ops@;
                    ops.push(
                        ProtocolOp::SendStatus {
                            connector_id: e.0,
                            status: ChargePointStatus::Available,
                        },
                    );
                    proof {
                        lemma_ops_view_push(before, ops@.last());
                        let opv = OpView::SendStatus {
                            connector_id: e.0,
                            status: ChargePointStatus::Available,
                        };
                        let taken = new_outlets@.take(i as int + 1);
                        assert(taken.drop_last() =~= new_outlets@.take(i as int));
                        assert(taken.last() == new_outlets@[i as int]);
                        assert(spec_initial_status_ops(taken) == spec_initial_status_ops(
                            new_outlets@.take(i as int),
                        ).push(opv));
                        assert(phase1 + spec_initial_status_ops(new_outlets@.take(i as int)).push(
                            opv,
                        ) =~= (phase1 + spec_initial_status_ops(new_outlets@.take(i as int))).push(
                            opv,
                        ));
                    }
                    i = i + 1;
                }
                proof {
                    assert(new_outlets@.take(n as int) =~= new_outlets@);
                }
            }
            let ghost snapshot = if gfrom is Booting {
                spec_initial_status_ops(new_outlets@)
            } else {
                Seq::<OpView>::empty()
            };
            proof {
                assert(ops_view(ops@) =~= phase1 + snapshot);
            }
            match &t.from {
                ChargerState::Connected {
                    outlet_states: old_outlets,
                    pending_rfid_tag: old_tag,
                    ..
                } => {
                    proof {
                        use_type_invariant(old_outlets);
                        assert(ops_view(ops@) =~= phase1 + snapshot + spec_diff_ops(
                            old_outlets@,
                            new_outlets@.take(0),
                        ));
                    }
                    let n = new_outlets.len();
                    let mut i: usize = 0;
                    while i < n
                        invariant
                            n == new_outlets@.len(),
                            0 <= i <= n,
                            ops_view(ops@) == phase1 + snapshot + spec_diff_ops(
                                old_outlets@,
                                new_outlets@.take(i as int),
                            ),
                        decreases n - i,
                    {
                        let e = new_outlets.entry_at(i);
                        let ghost before = ops@;
                        let ghost base = phase1 + snapshot + spec_diff_ops(
                            old_outlets@,
                            new_outlets@.take(i as int),
                        );
                        proof {
                            let taken = new_outlets@.take(i as int + 1);
                            assert(taken.drop_last() =~= new_outlets@.take(i as int));
                            assert(taken.last() == new_outlets@[i as int]);
                        }
                        match old_outlets.get(e.0) {
                            Some(ov) => {
                                if !outlet_state_eq(ov, e.1) {
                                    let status = e.1.ocpp_1_6_status();
                                    ops.push(
                                        ProtocolOp::SendStatus { connector_id: e.0, status },
                                    );
                                    proof {
                                        lemma_ops_view_push(before, ops@.last());
                                        let opv = OpView::SendStatus {
                                            connector_id: e.0,
                                            status: spec_outlet_status(e.1),
                                        };
                                        let taken = new_outlets@.take(i as int + 1);
                                        assert(spec_diff_ops(old_outlets@, taken) == spec_diff_ops(
                                            old_outlets@,
                                            new_outlets@.take(i as int),
                                        ).push(opv));
                                        assert(phase1 + snapshot + spec_diff_ops(
                                            old_outlets@,
                                            new_outlets@.take(i as int),
                                        ).push(opv) =~= base.push(opv));
                                    }
                                }
                            },
                            None => {},
                        }
                        proof {
                            let taken = new_outlets@.take(i as int + 1);
                            assert(ops_view(ops@) == phase1 + snapshot + spec_diff_ops(
                                old_outlets@,
                                taken,
                            ));
                        }
                        i = i + 1;
                    }
                    proof {
                        assert(new_outlets@.take(n as int) =~= new_outlets@);
                    }
                    let ghost diffed = phase1 + snapshot + spec_diff_ops(
                        old_outlets@,
                        new_outlets@,
                    );

                    let new_aggregate = aggregate_outlet_status(new_outlets);
                    let old_aggregate = aggregate_outlet_status(old_outlets);
                    if new_aggregate != old_aggregate {
                        ops.push(
                            ProtocolOp::SendStatus { connector_id: 0, status: new_aggregate },
                        );
                    }
                    proof {
                        assert(ops_view(ops@) =~= diffed + spec_aggregate_ops(
                            old_outlets@,
                            new_outlets@,
                        ));
                    }

                    match new_tag {
                        Some(tg) => {
                            if !tag_eq(old_tag, new_tag) {
                                ops.push(ProtocolOp::Authorize { tag: tg.clone() });
                            }
                        },
                        None => {},
                    }
                    proof {
                        assert(ops_view(ops@) =~= diffed + spec_aggregate_ops(
                            old_outlets@,
                            new_outlets@,
                        ) + spec_authorize_ops(crate::state::tag_view(*old_tag), crate::state::tag_view(*new_tag)));
                        assert(ops_view(ops@) =~= spec_dispatch(gfrom, gto));
                    }
                },
                _ => {
                    proof {
                        assert(ops_view(ops@) =~= spec_dispatch(gfrom, gto));
                    }
                },
            }
        },
        _ => {
            proof {
                assert(ops_view(ops@) =~= spec_dispatch(gfrom, gto));
            }
        },
    }
    ops
}

/// Membership in a sequence extended by one element.
proof fn lemma_push_contains(s: Seq<OpView>, x: OpView, y: OpView)
    ensures
        s.push(x).contains(y) <==> (s.contains(y) || x == y),
{
    if s.contains(y) {
        let i = choose|i: int| 0 <= i < s.len() && s[i] == y;
        assert(s.push(x)[i] == y);
    }
    assert(s.push(x)[s.len() as int] == x);
    if s.push(x).contains(y) && x != y {
        let i = choose|i: int| 0 <= i < s.push(x).len() && s.push(x)[i] == y;
        assert(s[i] == y);
    }
}

/// Lookup ignores the last entry when its key differs.
proof fn lemma_get_drop_last(s: Seq<(u64, OutletState)>, k: u64)
    requires
        s.len() > 0,
        s.last().0 != k,
    ensures
        spec_get(s.drop_last(), k) == spec_get(s, k),
    decreases s.len(),
{
    if s.len() == 1 {
        assert(s.drop_last() =~= Seq::<(u64, OutletState)>::empty());
        assert(s.drop_first() =~= Seq::<(u64, OutletState)>::empty());
        assert(s[0] == s.last());
        assert(spec_get(s.drop_first(), k) is None);
        assert(spec_get(s.drop_last(), k) is None);
    } else if s[0].0 == k {
        assert(s.drop_last()[0] == s[0]);
        assert(spec_get(s.drop_last(), k) == Some(s[0].1));
    } else {
        let t = s.drop_first();
        assert(t.last() == s.last());
        lemma_get_drop_last(t, k);
        assert(spec_get(s, k) == spec_get(t, k));
        assert(s.drop_last()[0] == s[0]);
        assert(s.drop_last().drop_first() =~= t.drop_last());
        assert(spec_get(s.drop_last(), k) == spec_get(s.drop_last().drop_first(), k));
    }
}

/// Outlet diffing law: the diff reports a status update for `id` exactly
/// when both maps know the outlet and its value changed, and then
/// carries the status of the new value. In particular it never reports
/// an id absent from the prior map.
pub proof fn lemma_diff_exact(
    old_outlets: Seq<(u64, OutletState)>,
    new_outlets: Seq<(u64, OutletState)>,
    id: u64,
    status: ChargePointStatus,
)
    requires
        sorted_by_key(new_outlets),
    ensures
        spec_diff_ops(old_outlets, new_outlets).contains(
            OpView::SendStatus { connector_id: id, status },
        ) <==> (spec_get(new_outlets, id) matches Some(nv) && spec_get(old_outlets, id) matches Some(
            ov,
        ) && ov != nv && status == spec_outlet_status(nv)),
    decreases new_outlets.len(),
{
    let target = OpView::SendStatus { connector_id: id, status };
    if new_outlets.len() == 0 {
        assert(!spec_diff_ops(old_outlets, new_outlets).contains(target));
    } else {
        let e = new_outlets.last();
        let shorter = new_outlets.drop_last();
        assert(forall|i: int, j: int|
            0 <= i < j < shorter.len() ==> shorter[i].0 < shorter[j].0);
        lemma_diff_exact(old_outlets, shorter, id, status);
        let rest = spec_diff_ops(old_outlets, shorter);
        let pushed = OpView::SendStatus { connector_id: e.0, status: spec_outlet_status(e.1) };
        if e.0 == id {
            lemma_index_get(new_outlets, new_outlets.len() - 1);
            assert(spec_get(new_outlets, id) == Some(e.1));
            assert(spec_get(shorter, id) is None) by {
                lemma_get_in_range(shorter, id);
                if spec_get(shorter, id) is Some {
                    let v = spec_get(shorter, id)->Some_0;
                    let i = choose|i: int| 0 <= i < shorter.len() && shorter[i] == (id, v);
                    assert(new_outlets[i].0 == id);
                    assert(new_outlets[i].0 < e.0);
                }
            }
            assert(!rest.contains(target));
            if spec_get(old_outlets, e.0) matches Some(v) && v != e.1 {
                lemma_push_contains(rest, pushed, target);
            }
        } else {
            lemma_get_drop_last(new_outlets, id);
            if spec_get(old_outlets, e.0) matches Some(v) && v != e.1 {
                lemma_push_contains(rest, pushed, target);
            }
        }
    }
}

/// Every operation of the initial snapshot is a status update.
proof fn lemma_initial_ops_status_only(outlets: Seq<(u64, OutletState)>)
    ensures
        forall|i: int|
            0 <= i < spec_initial_status_ops(outlets).len() ==> !((
            #[trigger] spec_initial_status_ops(outlets)[i]) is Authorize),
    decreases outlets.len(),
{
    if outlets.len() == 0 {
    } else {
        lemma_initial_ops_status_only(outlets.drop_last());
        let s = spec_initial_status_ops(outlets);
        let r = spec_initial_status_ops(outlets.drop_last());
        assert forall|i: int| 0 <= i < s.len() implies !((s[i]) is Authorize) by {
            if i < r.len() {
                assert(s[i] == r[i]);
            } else {
                assert(s[i] == s.last());
            }
        }
    }
}

/// Every operation of the diff is a status update.
proof fn lemma_diff_ops_status_only(
    old_outlets: Seq<(u64, OutletState)>,
    new_outlets: Seq<(u64, OutletState)>,
)
    ensures
        forall|i: int|
            0 <= i < spec_diff_ops(old_outlets, new_outlets).len() ==> !((
            #[trigger] spec_diff_ops(old_outlets, new_outlets)[i]) is Authorize),
    decreases new_outlets.len(),
{
    if new_outlets.len() == 0 {
    } else {
        lemma_diff_ops_status_only(old_outlets, new_outlets.drop_last());
        let s = spec_diff_ops(old_outlets, new_outlets);
        let r = spec_diff_ops(old_outlets, new_outlets.drop_last());
        assert forall|i: int| 0 <= i < s.len() implies !((s[i]) is Authorize) by {
            if i < r.len() {
                assert(s[i] == r[i]);
            } else {
                assert(s[i] == s.last());
            }
        }
    }
}

/// Tag-clearing law: when the new state has no pending tag — in
/// particular when a transition clears the tag from present to absent —
/// the dispatch plan contains no authorization request.
pub proof fn lemma_clear_tag_no_authorize(from: StateView, to: StateView)
    requires
        to matches StateView::Connected { pending_rfid_tag: Option::None, .. },
    ensures
        forall|i: int|
            0 <= i < spec_dispatch(from, to).len() ==> !((#[trigger] spec_dispatch(from, to)[i])
                is Authorize),
{
    let s = spec_dispatch(from, to);
    match to {
        StateView::Connected { outlet_states: new_outlets, .. } => {
            lemma_initial_ops_status_only(new_outlets);
            let snap = if from is Booting {
                spec_initial_status_ops(new_outlets)
            } else {
                Seq::<OpView>::empty()
            };
            match from {
                StateView::Connected {
                    outlet_states: old_outlets,
                    pending_rfid_tag: old_tag,
                    ..
                } => {
                    lemma_diff_ops_status_only(old_outlets, new_outlets);
                    let d = spec_diff_ops(old_outlets, new_outlets);
                    let a = spec_aggregate_ops(old_outlets, new_outlets);
                    assert(s =~= snap + d + a);
                    assert forall|i: int| 0 <= i < s.len() implies !((s[i]) is Authorize) by {
                        if i < snap.len() {
                            assert(s[i] == snap[i]);
                            assert(snap[i] == spec_initial_status_ops(new_outlets)[i]);
                        } else if i < snap.len() + d.len() {
                            assert(s[i] == d[i - snap.len()]);
                        } else {
                            assert(s[i] == a[i - snap.len() - d.len()]);
                        }
                    }
                },
                _ => {
                    assert(s =~= snap);
                    assert forall|i: int| 0 <= i < s.len() implies !((s[i]) is Authorize) by {
                        assert(s[i] == spec_initial_status_ops(new_outlets)[i]);
                    }
                },
            }
        },
        _ => {},
    }
}

/// The server's verdict on a registration request.
#[derive(Clone, Copy, Debug, PartialEq, Eq, Structural)]
pub enum RegistrationStatus {
    Accepted,
    Pending,
    Rejected,
}

/// What the registration handshake reply carries: the verdict, and an
/// interval in seconds — the heartbeat interval on acceptance, the
/// retry delay otherwise.
#[derive(Clone, Copy, Debug, PartialEq, Eq, Structural)]
pub struct RegistrationResponse {
    pub status: RegistrationStatus,
    pub interval: u32,
}

/// What the handshake loop must do after a reply.
#[derive(Clone, Copy, Debug, PartialEq, Eq, Structural)]
pub enum HandshakeAction {
    /// Registration accepted; the charger is connected, stop retrying.
    Established,
    /// Resend the registration request after this many seconds.
    RetryAfter { seconds: u32 },
}

/// Applies the server's registration reply to the store. On `Accepted`
/// the charger becomes `Connected`, with the heartbeat interval taken
/// from the reply, every configured outlet `Available`, and no pending
/// tag; on any other verdict the store is untouched and the reply's
/// interval is the delay before the next attempt.
pub fn handshake_response_action(
    config: &Config,
    state: &mut State,
    response: &RegistrationResponse,
) -> (act: HandshakeAction)
    requires
        old(state).wf(),
        old(state).transitions().len() < usize::MAX,
    ensures
        final(state).wf(),
        response.status == RegistrationStatus::Accepted ==> {
            &&& act == HandshakeAction::Established
            &&& final(state).current() == (StateView::Connected {
                heartbeat_interval: response.interval as int,
                outlet_states: spec_initial_outlets(config.outlets@),
                pending_rfid_tag: None,
            })
            &&& final(state).transitions() == if final(state).current() == old(state).current() {
                old(state).transitions()
            } else {
                old(state).transitions().push(
                    TransitionView { from: old(state).current(), to: final(state).current() },
                )
            }
        },
        response.status != RegistrationStatus::Accepted ==> {
            &&& act == (HandshakeAction::RetryAfter { seconds: response.interval })
            &&& *final(state) == *old(state)
        },
{
    match response.status {
        RegistrationStatus::Accepted => {
            let outlets = config.get_initial_outlet_states();
            let interval: i64 = response.interval as i64;
            let mutator = |s: ChargerState| -> (out: (ChargerState, ()))
                ensures
                    out.0@ == (StateView::Connected {
                        heartbeat_interval: interval as int,
                        outlet_states: outlets@,
                        pending_rfid_tag: None,
                    }),
                {
                    (
                        ChargerState::Connected {
                            heartbeat_interval: interval,
                            outlet_states: outlets,
                            pending_rfid_tag: None,
                        },
                        (),
                    )
                };
            state.update(mutator);
            HandshakeAction::Established
        },
        _ => HandshakeAction::RetryAfter { seconds: response.interval },
    }
}

/// The server's reply to an authorize request, as far as the core cares.
#[derive(Clone, Copy, Debug, PartialEq, Eq, Structural)]
pub enum AuthorizeStatus {
    Accepted,
    Other,
}

/// Applies the server's authorization reply to the store: acceptance
/// clears the pending tag — publishing a transition that, by the
/// dispatch rules, triggers no further authorization — while any other
/// reply leaves the tag pending and the store untouched.
pub fn apply_authorize_outcome(state: &mut State, status: AuthorizeStatus)
    requires
        old(state).wf(),
        old(state).transitions().len() < usize::MAX,
    ensures
        final(state).wf(),
        status == AuthorizeStatus::Accepted ==> match old(state).current() {
            StateView::Connected { heartbeat_interval, outlet_states, pending_rfid_tag } => {
                &&& final(state).current() == (StateView::Connected {
                    heartbeat_interval,
                    outlet_states,
                    pending_rfid_tag: None,
                })
                &&& final(state).transitions() == if pending_rfid_tag is None {
                    old(state).transitions()
                } else {
                    old(state).transitions().push(
                        TransitionView { from: old(state).current(), to: final(state).current() },
                    )
                }
            },
            _ => {
                &&& final(state).current() == old(state).current()
                &&& final(state).transitions() == old(state).transitions()
            },
        },
        status != AuthorizeStatus::Accepted ==> *final(state) == *old(state),
{
    match status {
        AuthorizeStatus::Accepted => {
            let mutator = |s: ChargerState| -> (out: (ChargerState, ()))
                ensures
                    match s@ {
                        StateView::Connected {
                            heartbeat_interval,
                            outlet_states,
                            pending_rfid_tag,
                        } => out.0@ == (StateView::Connected {
                            heartbeat_interval,
                            outlet_states,
                            pending_rfid_tag: None,
                        }),
                        _ => out.0 == s,
                    },
                {
                    match s {
                        ChargerState::Connected {
                            heartbeat_interval,
                            outlet_states,
                            pending_rfid_tag: _,
                        } => (
                            ChargerState::Connected {
                                heartbeat_interval,
                                outlet_states,
                                pending_rfid_tag: None,
                            },
                            (),
                        ),
                        other => (other, ()),
                    }
                };
            state.update(mutator);
        },
        AuthorizeStatus::Other => {},
    }
}

/// Whether a liveness message is overdue.
pub open spec fn spec_heartbeat_due(v: StateView, elapsed_seconds: int) -> bool {
    match v {
        StateView::Connected { heartbeat_interval, .. } => elapsed_seconds > heartbeat_interval,
        _ => false,
    }
}

/// Decides the liveness tick: a heartbeat must be sent exactly when the
/// charger is `Connected` and the seconds elapsed since the last
/// successful send exceed the heartbeat interval.
pub fn heartbeat_due(state: &ChargerState, elapsed_seconds: i64) -> (r: bool)
    ensures
        r == spec_heartbeat_due(state@, elapsed_seconds as int),
{
    match state {
        ChargerState::Connected { heartbeat_interval, .. } => elapsed_seconds > *heartbeat_interval,
        _ => false,
    }
}

} // verus!
