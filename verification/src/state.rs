//! The canonical charger state and the store that owns it.
//!
//! The store serializes all mutations, snapshots the state around each
//! mutation, and publishes a transition to every subscriber exactly when
//! the mutation changed the state structurally. The notification stream
//! keeps a bounded window of past transitions; a subscriber that falls
//! behind the window is told how much it missed instead of silently
//! losing data.

use vstd::prelude::*;

use crate::outlet_map::sorted_by_key;
use crate::outlet_map::OutletMap;

verus! {

/// The operational condition of a single charging outlet.
#[derive(Clone, Copy, Debug, PartialEq, Eq, Structural)]
pub enum OutletState {
    Available,
    Preparing,
    Faulted,
}

/// An OCPP 1.6 status notification value.
#[derive(Clone, Copy, Debug, PartialEq, Eq, Structural)]
pub enum ChargePointStatus {
    Available,
    Preparing,
    Faulted,
    Unavailable,
}

/// The canonical charger state; exactly one variant is active at a time.
#[derive(Debug, PartialEq)]
pub enum ChargerState {
    /// Initial and terminal idle state.
    Shutdown,
    /// Registration handshake in progress.
    Booting,
    /// Operational, synchronized with the management server.
    Connected {
        heartbeat_interval: i64,
        outlet_states: OutletMap,
        pending_rfid_tag: Option<String>,
    },
    /// Out of service; nothing in this core drives a transition into it.
    Maintenance,
}

/// The mathematical value of a `ChargerState`.
pub enum StateView {
    Shutdown,
    Booting,
    Connected {
        heartbeat_interval: int,
        outlet_states: Seq<(u64, OutletState)>,
        pending_rfid_tag: Option<Seq<char>>,
    },
    Maintenance,
}

/// The view of an optional RFID tag.
pub open spec fn tag_view(o: Option<String>) -> Option<Seq<char>> {
    match o {
        Option::Some(t) => Option::Some(t@),
        Option::None => Option::None,
    }
}

impl View for ChargerState {
    type V = StateView;

    open spec fn view(&self) -> StateView {
        match self {
            ChargerState::Shutdown => StateView::Shutdown,
            ChargerState::Booting => StateView::Booting,
            ChargerState::Connected { heartbeat_interval, outlet_states, pending_rfid_tag } => StateView::Connected {
                heartbeat_interval: *heartbeat_interval as int,
                outlet_states: outlet_states@,
                pending_rfid_tag: tag_view(*pending_rfid_tag),
            },
            ChargerState::Maintenance => StateView::Maintenance,
        }
    }
}

/// Well-formedness of a state view: the outlet entries are sorted
/// strictly by id. Every `ChargerState` value satisfies this.
pub open spec fn view_wf(v: StateView) -> bool {
    match v {
        StateView::Connected { outlet_states, .. } => sorted_by_key(outlet_states),
        _ => true,
    }
}

impl Default for ChargerState {
    /// Every charger starts shut down.
    fn default() -> (r: Self)
        ensures
            r@ == StateView::Shutdown,
    {
        ChargerState::Shutdown
    }
}

impl ChargerState {
    /// A deep copy with the same structural value.
    pub fn duplicate(&self) -> (r: Self)
        ensures
            r@ == self@,
    {
        match self {
            ChargerState::Shutdown => ChargerState::Shutdown,
            ChargerState::Booting => ChargerState::Booting,
            ChargerState::Connected { heartbeat_interval, outlet_states, pending_rfid_tag } => {
                let tag = match pending_rfid_tag {
                    Option::Some(t) => Option::Some(t.clone()),
                    Option::None => Option::None,
                };
                ChargerState::Connected {
                    heartbeat_interval: *heartbeat_interval,
                    outlet_states: outlet_states.duplicate(),
                    pending_rfid_tag: tag,
                }
            },
            ChargerState::Maintenance => ChargerState::Maintenance,
        }
    }

    /// OCPP 1.6 status of the whole charge point: `Faulted` exactly when
    /// at least one outlet is faulted, `Available` otherwise while
    /// connected, `Unavailable` in every non-operational state.
    pub fn ocpp_1_6_charge_point_status(&self) -> (r: ChargePointStatus)
        ensures
            r == spec_charge_point_status(self@),
    {
        match self {
            ChargerState::Shutdown => ChargePointStatus::Unavailable,
            ChargerState::Booting => ChargePointStatus::Unavailable,
            ChargerState::Connected { outlet_states, .. } => aggregate_outlet_status(outlet_states),
            ChargerState::Maintenance => ChargePointStatus::Unavailable,
        }
    }
}

impl OutletState {
    /// OCPP 1.6 status notification value for this outlet condition.
    pub fn ocpp_1_6_status(&self) -> (r: ChargePointStatus)
        ensures
            r == spec_outlet_status(*self),
    {
        match self {
            OutletState::Available => ChargePointStatus::Available,
            OutletState::Preparing => ChargePointStatus::Preparing,
            OutletState::Faulted => ChargePointStatus::Faulted,
        }
    }
}

/// The OCPP 1.6 status that reports an outlet condition.
pub open spec fn spec_outlet_status(s: OutletState) -> ChargePointStatus {
    match s {
        OutletState::Available => ChargePointStatus::Available,
        OutletState::Preparing => ChargePointStatus::Preparing,
        OutletState::Faulted => ChargePointStatus::Faulted,
    }
}

/// Aggregate status of a set of outlets.
pub open spec fn spec_aggregate_status(outlets: Seq<(u64, OutletState)>) -> ChargePointStatus {
    if exists|i: int| 0 <= i < outlets.len() && outlets[i].1 == OutletState::Faulted {
        ChargePointStatus::Faulted
    } else {
        ChargePointStatus::Available
    }
}

/// Aggregate status of a whole state view.
pub open spec fn spec_charge_point_status(v: StateView) -> ChargePointStatus {
    match v {
        StateView::Connected { outlet_states, .. } => spec_aggregate_status(outlet_states),
        _ => ChargePointStatus::Unavailable,
    }
}

/// Aggregate charge-point status law: the aggregate is `Faulted` if and
/// only if at least one outlet is `Faulted`, and `Available` otherwise.
pub proof fn lemma_aggregate_status(outlets: Seq<(u64, OutletState)>)
    ensures
        (spec_aggregate_status(outlets) == ChargePointStatus::Faulted) <==> exists|i: int|
            0 <= i < outlets.len() && outlets[i].1 == OutletState::Faulted,
        spec_aggregate_status(outlets) == ChargePointStatus::Faulted
            || spec_aggregate_status(outlets) == ChargePointStatus::Available,
{
}

/// Computes the aggregate status of an outlet map.
pub fn aggregate_outlet_status(m: &OutletMap) -> (r: ChargePointStatus)
    ensures
        r == spec_aggregate_status(m@),
{
    let n = m.len();
    let mut i: usize = 0;
    while i < n
        invariant
            n == m@.len(),
            0 <= i <= n,
            forall|j: int| 0 <= j < i ==> m@[j].1 != OutletState::Faulted,
        decreases n - i,
    {
        let e = m.entry_at(i);
        match e.1 {
            OutletState::Faulted => {
                return ChargePointStatus::Faulted;
            },
            _ => {},
        }
        i = i + 1;
    }
    ChargePointStatus::Available
}

/// Structural equality of two charger states, as the store uses it to
/// decide whether a mutation produced a transition.
pub fn state_eq(a: &ChargerState, b: &ChargerState) -> (r: bool)
    ensures
        r == (a@ == b@),
{
    match (a, b) {
        (ChargerState::Shutdown, ChargerState::Shutdown) => true,
        (ChargerState::Booting, ChargerState::Booting) => true,
        (ChargerState::Maintenance, ChargerState::Maintenance) => true,
        (
            ChargerState::Connected {
                heartbeat_interval: ha,
                outlet_states: ma,
                pending_rfid_tag: pa,
            },
            ChargerState::Connected {
                heartbeat_interval: hb,
                outlet_states: mb,
                pending_rfid_tag: pb,
            },
        ) => *ha == *hb && ma.same_entries(mb) && tag_eq(pa, pb),
        _ => false,
    }
}

/// Comparison of two optional RFID tags.
pub(crate) fn tag_eq(a: &Option<String>, b: &Option<String>) -> (r: bool)
    ensures
        r == (tag_view(*a) == tag_view(*b)),
{
    match (a, b) {
        (Option::Some(x), Option::Some(y)) => *x == *y,
        (Option::None, Option::None) => true,
        _ => false,
    }
}

/// A before/after pair of the charger state, the unit of change
/// notification.
#[derive(Debug, PartialEq)]
pub struct StateUpdate {
    pub from: ChargerState,
    pub to: ChargerState,
}

/// The mathematical value of a transition.
pub struct TransitionView {
    pub from: StateView,
    pub to: StateView,
}

impl View for StateUpdate {
    type V = TransitionView;

    open spec fn view(&self) -> TransitionView {
        TransitionView { from: self.from@, to: self.to@ }
    }
}

impl StateUpdate {
    /// A deep copy with the same structural value.
    pub fn duplicate(&self) -> (r: Self)
        ensures
            r@ == self@,
    {
        StateUpdate { from: self.from.duplicate(), to: self.to.duplicate() }
    }
}

/// Establishes that the view of a state value is well formed.
fn note_view_wf(s: &ChargerState)
    ensures
        view_wf(s@),
{
    match s {
        ChargerState::Connected { outlet_states, .. } => {
            proof {
                use_type_invariant(outlet_states);
            }
        },
        _ => {},
    }
}

/// How many transitions the notification stream retains for a subscriber
/// that has fallen behind.
pub const CHANNEL_CAPACITY: usize = 16;

/// The state store: owns the canonical charger state, serializes
/// mutations, and multicasts each effective transition to subscribers
/// through a bounded stream.
pub struct State {
    charger_state: ChargerState,
    buffer: Vec<StateUpdate>,
    evicted: usize,
    published: Ghost<Seq<TransitionView>>,
}

/// An independent consumer of the transition stream.
pub struct Receiver {
    cursor: usize,
}

impl Receiver {
    /// Position in the published sequence of the next transition to
    /// deliver to this subscriber.
    pub closed spec fn index(&self) -> int {
        self.cursor as int
    }
}

/// What polling the transition stream yields.
#[derive(Debug, PartialEq)]
pub enum RecvResult {
    /// The next transition, in publication order.
    Next(StateUpdate),
    /// The subscriber fell behind by more than the stream retains; it
    /// missed this many transitions and must resynchronize with `read`.
    Lagged { missed: usize },
    /// Nothing published beyond what this subscriber has seen.
    Empty,
}

impl State {
    /// Every transition published so far, oldest first.
    pub closed spec fn transitions(&self) -> Seq<TransitionView> {
        self.published@
    }

    /// The current state value.
    pub closed spec fn state_value(&self) -> ChargerState {
        self.charger_state
    }

    /// The view of the current state.
    pub open spec fn current(&self) -> StateView {
        self.state_value()@
    }

    /// Position of the oldest transition still retained for delivery.
    pub closed spec fn first_retained(&self) -> int {
        self.evicted as int
    }

    pub closed spec fn buffer_ok(&self) -> bool {
        &&& self.evicted + self.buffer@.len() == self.published@.len()
        &&& self.buffer@.len() <= CHANNEL_CAPACITY
        &&& self.published@.len() <= usize::MAX
        &&& forall|i: int|
            0 <= i < self.buffer@.len() ==> #[trigger] self.buffer@[i]@ == self.published@[self.evicted + i]
    }

    /// Bookkeeping of the store is intact.
    pub open spec fn wf(&self) -> bool {
        &&& self.buffer_ok()
        &&& view_wf(self.current())
        &&& 0 <= self.first_retained() <= self.transitions().len()
    }

    /// A fresh store holding the initial `Shutdown` state, with no
    /// transition published yet.
    pub fn new() -> (r: Self)
        ensures
            r.wf(),
            r.current() == StateView::Shutdown,
            r.transitions() == Seq::<TransitionView>::empty(),
            r.first_retained() == 0,
    {
        let r = State {
            charger_state: ChargerState::Shutdown,
            buffer: Vec::new(),
            evicted: 0,
            published: Ghost(Seq::empty()),
        };
        r
    }

    /// An immutable snapshot (a full copy) of the current state.
    pub fn read(&self) -> (r: ChargerState)
        ensures
            r@ == self.current(),
    {
        self.charger_state.duplicate()
    }

    /// A new, independent subscriber that will observe every transition
    /// published after this call, in publication order.
    pub fn subscribe(&self) -> (r: Receiver)
        requires
            self.wf(),
        ensures
            r.index() == self.transitions().len(),
    {
        Receiver { cursor: self.evicted + self.buffer.len() }
    }

    /// Atomic read-modify-write of the charger state.
    ///
    /// The mutator is applied exactly once to the current state; the
    /// store keeps whatever the mutator returned and hands its result
    /// back to the caller. A transition is published if and only if the
    /// state after the mutation differs structurally from the state
    /// before — a mutation that leaves the state equal publishes
    /// nothing, and a mutator that signals failure but did alter the
    /// state still publishes.
    pub fn update<R, F: FnOnce(ChargerState) -> (ChargerState, R)>(&mut self, mutator: F) -> (r: R)
        requires
            old(self).wf(),
            old(self).transitions().len() < usize::MAX,
            call_requires(mutator, (old(self).state_value(),)),
        ensures
            final(self).wf(),
            call_ensures(mutator, (old(self).state_value(),), (final(self).state_value(), r)),
            final(self).transitions() == if final(self).current() == old(self).current() {
                old(self).transitions()
            } else {
                old(self).transitions().push(
                    TransitionView { from: old(self).current(), to: final(self).current() },
                )
            },
            old(self).first_retained() <= final(self).first_retained(),
            final(self).first_retained() <= old(self).first_retained() + 1,
    {
        let mut cur = ChargerState::Shutdown;
        std::mem::swap(&mut cur, &mut self.charger_state);
        let before = cur.duplicate();
        let (after, r) = mutator(cur);
        note_view_wf(&after);
        let changed = !state_eq(&before, &after);
        if changed {
            let upd = StateUpdate { from: before, to: after.duplicate() };
            proof {
                self.published@ = self.published@.push(upd@);
            }
            self.buffer.push(upd);
            if self.buffer.len() > CHANNEL_CAPACITY {
                self.buffer.remove(0);
                self.evicted = self.evicted + 1;
            }
        }
        self.charger_state = after;
        r
    }

    /// Delivers to `rx` the next transition it has not seen. A
    /// subscriber inside the retained window gets the next transition in
    /// publication order; one that fell out of the window is told how
    /// many transitions it missed and is moved to the oldest retained
    /// one; one that is caught up gets nothing.
    pub fn recv(&self, rx: &mut Receiver) -> (r: RecvResult)
        requires
            self.wf(),
            old(rx).index() <= self.transitions().len(),
        ensures
            old(rx).index() < self.first_retained() ==> {
                &&& r == (RecvResult::Lagged {
                    missed: (self.first_retained() - old(rx).index()) as usize,
                })
                &&& final(rx).index() == self.first_retained()
            },
            self.first_retained() <= old(rx).index() < self.transitions().len() ==> {
                &&& match r {
                    RecvResult::Next(u) => u@ == self.transitions()[old(rx).index()],
                    _ => false,
                }
                &&& final(rx).index() == old(rx).index() + 1
            },
            old(rx).index() == self.transitions().len() ==> {
                &&& r is Empty
                &&& final(rx).index() == old(rx).index()
            },
    {
        if rx.cursor < self.evicted {
            let missed = self.evicted - rx.cursor;
            rx.cursor = self.evicted;
            RecvResult::Lagged { missed }
        } else {
            let pos = rx.cursor - self.evicted;
            if pos < self.buffer.len() {
                let u = self.buffer[pos].duplicate();
                rx.cursor = rx.cursor + 1;
                RecvResult::Next(u)
            } else {
                RecvResult::Empty
            }
        }
    }
}

} // verus!
