//! Validated state transitions with snapshots and rollback.
//!
//! A transition runs the rules in order; the first that fails aborts it before
//! anything changes. Otherwise the current classical buffer and quantum state
//! are pushed onto a bounded history, the update and its circuit are applied,
//! and a failure while applying restores the snapshot verbatim.
use vstd::prelude::*;
use crate::amplitude::Cx;
use crate::circuit::{Circuit, ops_valid, run_spec};
use crate::state::{QuantumState, QuantumError};

verus! {

/// The default number of snapshots kept.
pub const DEFAULT_HISTORY_CAPACITY: usize = 100;

/// Why a transition did not commit.
#[derive(Debug)]
pub enum StateError {
    InvalidTransition(String),
    QuantumDecoherence(String),
    SynchronizationError(String),
    /// A rule rejected the update, or there was nothing to roll back to.
    ValidationError(String),
    /// Applying the circuit failed; the snapshot was restored.
    Quantum(QuantumError),
}

/// How a command is to be processed.
#[derive(Clone, Copy, Debug, PartialEq, Eq, Structural)]
pub enum TransitionType {
    Classical,
    Quantum,
    /// Share of quantum processing, in percent.
    Hybrid(u8),
}

/// Quantum fields carried by an update: an amplitude in millionths, a phase
/// in quarter turns, and the index of an entangled partner if any.
#[derive(Clone, Copy, Debug, PartialEq, Eq, Structural)]
pub struct QuantumStateData {
    pub amplitude_ppm: u32,
    pub phase_quarter_turns: u8,
    pub entanglement_index: Option<usize>,
}

/// An update produced upstream and consumed by the validator.
#[derive(Debug)]
pub enum StateUpdate {
    Input(String),
    Command(String),
    Response(String),
    Error(StateError),
    QuantumState(QuantumStateData),
    StateTransition(TransitionType),
}

/// A predicate over updates; a failing rule names itself in its message.
#[derive(Debug)]
pub enum TransitionRule {
    /// Refuses a `Command` with empty text.
    RejectEmptyCommand,
    /// Refuses `Input` or `Command` text longer than this many characters.
    MaxInputLength(usize),
    /// Refuses every update, with this message.
    RejectAll(String),
    /// Refuses quantum data whose amplitude exceeds this many millionths.
    AmplitudeAtMost(u32),
    /// Refuses quantum data whose entanglement index is at least this.
    EntanglementBelow(usize),
}

/// The message of the rule's refusal, or `None` when the rule passes.
pub open spec fn rule_failure(rule: TransitionRule, u: StateUpdate) -> Option<Seq<char>> {
    match rule {
        TransitionRule::RejectEmptyCommand => match u {
            StateUpdate::Command(c) => if c@.len() == 0 {
                Some("empty command"@)
            } else {
                None
            },
            _ => None,
        },
        TransitionRule::MaxInputLength(max) => match u {
            StateUpdate::Input(s) => if s@.len() > max {
                Some("input too long"@)
            } else {
                None
            },
            StateUpdate::Command(s) => if s@.len() > max {
                Some("input too long"@)
            } else {
                None
            },
            _ => None,
        },
        TransitionRule::RejectAll(msg) => Some(msg@),
        TransitionRule::AmplitudeAtMost(max) => match u {
            StateUpdate::QuantumState(d) => if d.amplitude_ppm > max {
                Some("amplitude out of range"@)
            } else {
                None
            },
            _ => None,
        },
        TransitionRule::EntanglementBelow(bound) => match u {
            StateUpdate::QuantumState(d) => match d.entanglement_index {
                Some(e) => if e >= bound {
                    Some("entanglement index out of range"@)
                } else {
                    None
                },
                None => None,
            },
            _ => None,
        },
    }
}

/// The message of the first rule, in order, that refuses `u`.
pub open spec fn first_failure(rules: Seq<TransitionRule>, u: StateUpdate) -> Option<Seq<char>>
    decreases rules.len(),
{
    if rules.len() == 0 {
        None
    } else {
        match rule_failure(rules[0], u) {
            Some(m) => Some(m),
            None => first_failure(rules.drop_first(), u),
        }
    }
}

impl TransitionRule {
    /// Checks one update.
    pub fn check(&self, u: &StateUpdate) -> (r: Result<(), StateError>)
        ensures
            match rule_failure(*self, *u) {
                None => r is Ok,
                Some(m) => r matches Err(StateError::ValidationError(s)) && s@ == m,
            },
    {
        match self {
            TransitionRule::RejectEmptyCommand => match u {
                StateUpdate::Command(c) => {
                    if c.as_str().unicode_len() == 0 {
                        Err(StateError::ValidationError(String::from_str("empty command")))
                    } else {
                        Ok(())
                    }
                },
                _ => Ok(()),
            },
            TransitionRule::MaxInputLength(max) => match u {
                StateUpdate::Input(s) => {
                    if s.as_str().unicode_len() > *max {
                        Err(StateError::ValidationError(String::from_str("input too long")))
                    } else {
                        Ok(())
                    }
                },
                StateUpdate::Command(s) => {
                    if s.as_str().unicode_len() > *max {
                        Err(StateError::ValidationError(String::from_str("input too long")))
                    } else {
                        Ok(())
                    }
                },
                _ => Ok(()),
            },
            TransitionRule::RejectAll(msg) => Err(StateError::ValidationError(msg.clone())),
            TransitionRule::AmplitudeAtMost(max) => match u {
                StateUpdate::QuantumState(d) => {
                    if d.amplitude_ppm > *max {
                        Err(StateError::ValidationError(String::from_str("amplitude out of range")))
                    } else {
                        Ok(())
                    }
                },
                _ => Ok(()),
            },
            TransitionRule::EntanglementBelow(bound) => match u {
                StateUpdate::QuantumState(d) => match d.entanglement_index {
                    Some(e) => {
                        if e >= *bound {
                            Err(
                                StateError::ValidationError(
                                    String::from_str("entanglement index out of range"),
                                ),
                            )
                        } else {
                            Ok(())
                        }
                    },
                    None => Ok(()),
                },
                _ => Ok(()),
            },
        }
    }
}

/// The classical and quantum rules, run in the order added.
pub struct TransitionValidator {
    rules: Vec<TransitionRule>,
}

impl TransitionValidator {
    pub closed spec fn rules(&self) -> Seq<TransitionRule> {
        self.rules@
    }

    pub fn new() -> (r: TransitionValidator)
        ensures
            r.rules() == Seq::<TransitionRule>::empty(),
    {
        TransitionValidator { rules: Vec::new() }
    }

    pub fn add_rule(&mut self, rule: TransitionRule)
        ensures
            final(self).rules() == old(self).rules().push(rule),
    {
        self.rules.push(rule);
    }

    /// Runs every rule in order; the first refusal is the result.
    pub fn validate(&self, u: &StateUpdate) -> (r: Result<(), StateError>)
        ensures
            match first_failure(self.rules(), *u) {
                None => r is Ok,
                Some(m) => r matches Err(StateError::ValidationError(s)) && s@ == m,
            },
    {
        let mut i: usize = 0;
        assert(self.rules@.skip(0) =~= self.rules@);
        while i < self.rules.len()
            invariant
                i <= self.rules@.len(),
                first_failure(self.rules@, *u) == first_failure(self.rules@.skip(i as int), *u),
            decreases self.rules@.len() - i,
        {
            proof {
                assert(self.rules@.skip(i as int).drop_first() =~= self.rules@.skip(i + 1));
                assert(self.rules@.skip(i as int)[0] == self.rules@[i as int]);
            }
            match self.rules[i].check(u) {
                Err(e) => {
                    return Err(e);
                },
                Ok(()) => {},
            }
            i = i + 1;
        }
        proof {
            assert(self.rules@.skip(i as int) =~= Seq::<TransitionRule>::empty());
        }
        Ok(())
    }
}

/// Where the last transition ended.
#[derive(Clone, Copy, Debug, PartialEq, Eq, Structural)]
pub enum TransitionPhase {
    Idle,
    Validating,
    Applying,
    Committed,
    RolledBack,
}

/// A copy of the classical buffer and the quantum state, taken before a transition.
pub struct StateSnapshot {
    classical_state: String,
    quantum_state: QuantumState,
    timestamp_ms: u64,
}

/// What a snapshot restores: the buffer's text, the numerators and the exponent.
pub type SnapshotView = (Seq<char>, Seq<Cx>, nat);

impl StateSnapshot {
    pub closed spec fn view_of(&self) -> SnapshotView {
        (self.classical_state@, self.quantum_state.entries(), self.quantum_state.scale_spec())
    }

    pub closed spec fn quantum_wf(&self, n: nat) -> bool {
        self.quantum_state.wf() && self.quantum_state.qubits() == n
    }
}

/// The buffer's text after `u` is applied: an input replaces it, a command
/// consumes it, anything else leaves it.
pub open spec fn buffer_after(buf: Seq<char>, u: StateUpdate) -> Seq<char> {
    match u {
        StateUpdate::Input(s) => s@,
        StateUpdate::Command(_) => Seq::<char>::empty(),
        _ => buf,
    }
}

/// The history after a commit: the snapshot on top, the oldest dropped past capacity.
pub open spec fn history_after(h: Seq<SnapshotView>, snap: SnapshotView, cap: nat) -> Seq<
    SnapshotView,
> {
    if h.len() + 1 > cap {
        h.push(snap).drop_first()
    } else {
        h.push(snap)
    }
}

/// The result of running circuit operations on `(z, s)`: `None` when it fails.
pub open spec fn circuit_outcome(
    ops: Seq<(crate::gates::Gate, usize)>,
    n: nat,
    z: Seq<Cx>,
    s: nat,
) -> Option<(Seq<Cx>, nat)> {
    if ops_valid(ops, n) {
        run_spec(ops, z, s)
    } else {
        None
    }
}

/// The classical input buffer and the quantum state, changed only through
/// validated transitions, with a bounded history of snapshots for rollback.
pub struct BinaryState {
    input_buffer: String,
    quantum_state: QuantumState,
    state_history: Vec<StateSnapshot>,
    history_capacity: usize,
    transition_validator: TransitionValidator,
    phase: TransitionPhase,
}

impl BinaryState {
    pub closed spec fn buffer(&self) -> Seq<char> {
        self.input_buffer@
    }

    pub closed spec fn quantum(&self) -> (Seq<Cx>, nat) {
        (self.quantum_state.entries(), self.quantum_state.scale_spec())
    }

    pub closed spec fn qubits(&self) -> nat {
        self.quantum_state.qubits()
    }

    pub closed spec fn history(&self) -> Seq<SnapshotView> {
        self.state_history@.map_values(|s: StateSnapshot| s.view_of())
    }

    pub closed spec fn capacity(&self) -> nat {
        self.history_capacity as nat
    }

    pub closed spec fn rules(&self) -> Seq<TransitionRule> {
        self.transition_validator.rules()
    }

    pub closed spec fn phase_spec(&self) -> TransitionPhase {
        self.phase
    }

    /// The quantum state is valid, every snapshot holds a valid state of the
    /// same size, and the history is within its capacity.
    pub closed spec fn wf(&self) -> bool {
        &&& self.quantum_state.wf()
        &&& self.history_capacity >= 1
        &&& self.state_history@.len() <= self.history_capacity
        &&& forall|i: int|
            0 <= i < self.state_history@.len() ==> (#[trigger] self.state_history@[i]).quantum_wf(
                self.quantum_state.qubits(),
            )
    }

    /// An empty buffer, the given state, no rules, and an empty history of the
    /// given capacity (at least one).
    pub fn new(quantum_state: QuantumState, history_capacity: usize) -> (r: BinaryState)
        requires
            quantum_state.wf(),
            history_capacity >= 1,
        ensures
            r.wf(),
            r.buffer() == Seq::<char>::empty(),
            r.quantum() == (quantum_state.entries(), quantum_state.scale_spec()),
            r.qubits() == quantum_state.qubits(),
            r.history() == Seq::<SnapshotView>::empty(),
            r.capacity() == history_capacity,
            r.rules() == Seq::<TransitionRule>::empty(),
            r.phase_spec() == TransitionPhase::Idle,
    {
        let r = BinaryState {
            input_buffer: String::new(),
            quantum_state,
            state_history: Vec::new(),
            history_capacity,
            transition_validator: TransitionValidator::new(),
            phase: TransitionPhase::Idle,
        };
        proof {
            assert(r.history() =~= Seq::<SnapshotView>::empty());
        }
        r
    }

    pub fn add_rule(&mut self, rule: TransitionRule)
        requires
            old(self).wf(),
        ensures
            final(self).wf(),
            final(self).rules() == old(self).rules().push(rule),
            final(self).buffer() == old(self).buffer(),
            final(self).quantum() == old(self).quantum(),
            final(self).qubits() == old(self).qubits(),
            final(self).history() == old(self).history(),
            final(self).capacity() == old(self).capacity(),
            final(self).phase_spec() == old(self).phase_spec(),
    {
        self.transition_validator.add_rule(rule);
    }

    pub fn history_len(&self) -> (r: usize)
        ensures
            r == self.history().len(),
    {
        self.state_history.len()
    }

    pub fn phase(&self) -> (r: TransitionPhase)
        ensures
            r == self.phase_spec(),
    {
        self.phase
    }

    /// The buffer's text, as a copy.
    pub fn input_buffer(&self) -> (r: String)
        ensures
            r@ == self.buffer(),
    {
        self.input_buffer.clone()
    }

    /// A copy of the quantum state, for readers outside the transition.
    pub fn quantum_state(&self) -> (r: QuantumState)
        requires
            self.wf(),
        ensures
            r.wf(),
            (r.entries(), r.scale_spec()) == self.quantum(),
            r.qubits() == self.qubits(),
    {
        self.quantum_state.duplicate()
    }

    /// A committed or rolled-back transition returns to idle.
    pub fn acknowledge(&mut self)
        requires
            old(self).wf(),
        ensures
            final(self).wf(),
            final(self).phase_spec() == TransitionPhase::Idle,
            final(self).buffer() == old(self).buffer(),
            final(self).quantum() == old(self).quantum(),
            final(self).qubits() == old(self).qubits(),
            final(self).history() == old(self).history(),
            final(self).capacity() == old(self).capacity(),
            final(self).rules() == old(self).rules(),
    {
        self.phase = TransitionPhase::Idle;
    }

    /// Pops the newest snapshot and restores it: the buffer and the quantum
    /// state both take its values. An empty history is an error, and then
    /// nothing changes.
    pub fn rollback_to_last(&mut self) -> (r: Result<(), StateError>)
        requires
            old(self).wf(),
        ensures
            final(self).wf(),
            final(self).qubits() == old(self).qubits(),
            final(self).capacity() == old(self).capacity(),
            final(self).rules() == old(self).rules(),
            final(self).phase_spec() == old(self).phase_spec(),
            old(self).history().len() == 0 ==> {
                &&& r matches Err(StateError::ValidationError(m)) && m@ == "no history"@
                &&& final(self).buffer() == old(self).buffer()
                &&& final(self).quantum() == old(self).quantum()
                &&& final(self).history() == old(self).history()
            },
            old(self).history().len() > 0 ==> {
                let top = old(self).history().last();
                &&& r is Ok
                &&& final(self).buffer() == top.0
                &&& final(self).quantum() == (top.1, top.2)
                &&& final(self).history() == old(self).history().drop_last()
            },
    {
        match self.state_history.pop() {
            None => Err(StateError::ValidationError(String::from_str("no history"))),
            Some(snapshot) => {
                proof {
                    let h = old(self).state_history@;
                    assert(self.state_history@ == h.drop_last());
                    assert(snapshot == h.last());
                    assert(snapshot.quantum_wf(self.quantum_state.qubits()));
                    assert(self.history() =~= old(self).history().drop_last());
                }
                self.input_buffer = snapshot.classical_state;
                self.quantum_state = snapshot.quantum_state;
                Ok(())
            },
        }
    }
}


/// What a transition does: `pre` and `post` are the state before and after,
/// `r` the result. A rule's refusal changes nothing; otherwise the circuit's
/// outcome decides between a commit and a restore of the snapshot.
pub open spec fn transition_post(
    pre: BinaryState,
    post: BinaryState,
    update: StateUpdate,
    ops: Seq<(crate::gates::Gate, usize)>,
    r: Result<(), StateError>,
) -> bool {
    &&& post.wf()
    &&& post.qubits() == pre.qubits()
    &&& post.capacity() == pre.capacity()
    &&& post.rules() == pre.rules()
    &&& first_failure(pre.rules(), update) matches Some(m) ==> {
        &&& r matches Err(StateError::ValidationError(s)) && s@ == m
        &&& post.buffer() == pre.buffer()
        &&& post.quantum() == pre.quantum()
        &&& post.history() == pre.history()
        &&& post.phase_spec() == TransitionPhase::RolledBack
    }
    &&& first_failure(pre.rules(), update) is None ==> match circuit_outcome(
        ops,
        pre.qubits(),
        pre.quantum().0,
        pre.quantum().1,
    ) {
        Some(q) => {
            &&& r is Ok
            &&& post.buffer() == buffer_after(pre.buffer(), update)
            &&& post.quantum() == q
            &&& post.history() == history_after(
                pre.history(),
                (pre.buffer(), pre.quantum().0, pre.quantum().1),
                pre.capacity(),
            )
            &&& post.phase_spec() == TransitionPhase::Committed
        },
        None => {
            &&& r matches Err(StateError::Quantum(_))
            &&& post.buffer() == pre.buffer()
            &&& post.quantum() == pre.quantum()
            &&& post.history() == pre.history()
            &&& post.phase_spec() == TransitionPhase::RolledBack
        },
    }
}

impl BinaryState {
    /// Validates `update` and, if every rule passes, snapshots the current
    /// state, applies the update to the buffer and runs `circuit` on the
    /// quantum state. A rule's refusal changes nothing; a failure while
    /// applying restores the snapshot and reports the failure.
    pub fn transition_state(&mut self, update: StateUpdate, circuit: &Circuit, now_ms: u64) -> (r:
        Result<(), StateError>)
        requires
            old(self).wf(),
        ensures
            final(self).wf(),
            final(self).qubits() == old(self).qubits(),
            final(self).capacity() == old(self).capacity(),
            final(self).rules() == old(self).rules(),
            transition_post(*old(self), *final(self), update, circuit.ops(), r),
    {
        self.phase = TransitionPhase::Validating;
        match self.transition_validator.validate(&update) {
            Err(e) => {
                self.phase = TransitionPhase::RolledBack;
                return Err(e);
            },
            Ok(()) => {},
        }
        let snap = StateSnapshot {
            classical_state: self.input_buffer.clone(),
            quantum_state: self.quantum_state.duplicate(),
            timestamp_ms: now_ms,
        };
        let ghost snap_view = snap.view_of();
        self.state_history.push(snap);
        proof {
            assert(self.history() =~= old(self).history().push(snap_view));
        }
        self.phase = TransitionPhase::Applying;
        match update {
            StateUpdate::Input(s) => {
                self.input_buffer = s;
            },
            StateUpdate::Command(_) => {
                self.input_buffer = String::new();
            },
            _ => {},
        }
        match circuit.execute(&mut self.quantum_state) {
            Ok(()) => {
                if self.state_history.len() > self.history_capacity {
                    let ghost h = self.state_history@;
                    self.state_history.remove(0);
                    proof {
                        assert(self.state_history@ =~= h.drop_first());
                        assert(self.history() =~= old(self).history().push(snap_view).drop_first());
                    }
                }
                self.phase = TransitionPhase::Committed;
                Ok(())
            },
            Err(e) => {
                let ghost h = self.state_history@;
                match self.state_history.pop() {
                    Some(top) => {
                        proof {
                            assert(self.state_history@ == h.drop_last());
                            assert(self.history() =~= old(self).history());
                        }
                        self.input_buffer = top.classical_state;
                        self.quantum_state = top.quantum_state;
                    },
                    None => {},
                }
                self.phase = TransitionPhase::RolledBack;
                Err(StateError::Quantum(e))
            },
        }
    }
}

/// Transitions take effect one after another: when two consecutive
/// transitions both pass their rules and their circuits, the final quantum
/// state is the second circuit run on the result of the first, the strict
/// order in which they were applied, with no interleaving of the two.
pub proof fn lemma_sequential_transitions(
    s0: BinaryState,
    s1: BinaryState,
    s2: BinaryState,
    u1: StateUpdate,
    u2: StateUpdate,
    ops1: Seq<(crate::gates::Gate, usize)>,
    ops2: Seq<(crate::gates::Gate, usize)>,
    r1: Result<(), StateError>,
    r2: Result<(), StateError>,
)
    requires
        transition_post(s0, s1, u1, ops1, r1),
        transition_post(s1, s2, u2, ops2, r2),
        r1 is Ok,
        r2 is Ok,
    ensures
        ({
            let n = s0.qubits();
            let q1 = circuit_outcome(ops1, n, s0.quantum().0, s0.quantum().1);
            &&& q1 is Some
            &&& circuit_outcome(ops2, n, q1->Some_0.0, q1->Some_0.1) == Some(s2.quantum())
        }),
{
}

/// The history never holds more snapshots than its capacity.
pub proof fn lemma_history_bounded(b: BinaryState)
    requires
        b.wf(),
    ensures
        b.history().len() <= b.capacity(),
{
}

} // verus!
