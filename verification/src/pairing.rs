//! The pairing state machine: who waits for a partner, who talks to whom, and
//! which links have to be opened or closed when a source changes its activity.

use std::collections::HashMap;
use vstd::prelude::*;

verus! {

broadcast use vstd::std_specs::hash::group_hash_axioms;

/// One capture source with its playback sink, named by its position in the
/// device list.
pub type Voice = usize;

/// A source fell silent or became active.
#[derive(Clone, Copy, Debug)]
pub struct SilenceChange {
    pub who: Voice,
    pub silent: bool,
}

/// What the routing has to do after a change.
#[derive(Clone, Copy, Debug, PartialEq, Eq, Structural)]
pub enum Action {
    /// Link the first voice, which just became active, with the second, which was waiting.
    Connect(Voice, Voice),
    /// Unlink the first voice, which just fell silent, from the second, its partner.
    Disconnect(Voice, Voice),
}

/// The mathematical pairing state.
pub struct PairingState {
    /// The active voice that waits for a partner, if there is one.
    pub single: Option<Voice>,
    /// The partner of every voice that has one.
    pub pairs: Map<Voice, Voice>,
}

impl PairingState {
    /// Nobody waits and nobody is paired.
    pub open spec fn empty() -> PairingState {
        PairingState { single: None, pairs: Map::empty() }
    }

    /// `pairs` is finite and symmetric, nobody is their own partner, and the
    /// voice that waits has no partner.
    pub open spec fn wf(self) -> bool {
        &&& self.pairs.dom().finite()
        &&& forall|a: Voice| #[trigger]
            self.pairs.contains_key(a) ==> {
                &&& self.pairs[a] != a
                &&& self.pairs.contains_key(self.pairs[a])
                &&& self.pairs[self.pairs[a]] == a
            }
        &&& match self.single {
            Some(s) => !self.pairs.contains_key(s),
            None => true,
        }
    }

    /// The voice is known to be active: it waits or it has a partner.
    pub open spec fn is_active(self, who: Voice) -> bool {
        self.single == Some(who) || self.pairs.contains_key(who)
    }

    /// The voice becomes active while another voice waits: the two pair up.
    pub open spec fn pairs_up(self, who: Voice) -> bool {
        match self.single {
            Some(other) => other != who && !self.pairs.contains_key(who),
            None => false,
        }
    }

    /// The state after `who` became active.
    pub open spec fn turn_on(self, who: Voice) -> PairingState {
        if self.pairs.contains_key(who) {
            self
        } else {
            match self.single {
                Some(other) => if other != who {
                    PairingState {
                        single: None,
                        pairs: self.pairs.insert(who, other).insert(other, who),
                    }
                } else {
                    self
                },
                None => PairingState { single: Some(who), pairs: self.pairs },
            }
        }
    }

    /// The actions that `who` becoming active calls for.
    pub open spec fn on_actions(self, who: Voice) -> Seq<Action> {
        if self.pairs_up(who) {
            seq![Action::Connect(who, self.single->0)]
        } else {
            Seq::empty()
        }
    }

    /// The state after `who` fell silent.
    pub open spec fn turn_off(self, who: Voice) -> PairingState {
        if self.single == Some(who) {
            PairingState { single: None, pairs: self.pairs }
        } else if self.pairs.contains_key(who) {
            PairingState {
                single: Some(self.pairs[who]),
                pairs: self.pairs.remove(who).remove(self.pairs[who]),
            }
        } else {
            self
        }
    }

    /// The actions that `who` falling silent calls for.
    pub open spec fn off_actions(self, who: Voice) -> Seq<Action> {
        if self.single != Some(who) && self.pairs.contains_key(who) {
            seq![Action::Disconnect(who, self.pairs[who])]
        } else {
            Seq::empty()
        }
    }

    /// The state after a change.
    pub open spec fn apply(self, change: SilenceChange) -> PairingState {
        if change.silent {
            self.turn_off(change.who)
        } else {
            self.turn_on(change.who)
        }
    }

    /// The actions that a change calls for.
    pub open spec fn actions(self, change: SilenceChange) -> Seq<Action> {
        if change.silent {
            self.off_actions(change.who)
        } else {
            self.on_actions(change.who)
        }
    }

    /// The state after the voices `0..silent.len()` reported, in that order,
    /// each one that is not silent as having become active.
    pub open spec fn seeded(silent: Seq<bool>) -> PairingState
        decreases silent.len(),
    {
        if silent.len() == 0 {
            PairingState::empty()
        } else if silent.last() {
            PairingState::seeded(silent.drop_last())
        } else {
            PairingState::seeded(silent.drop_last()).turn_on((silent.len() - 1) as Voice)
        }
    }

    /// The state after a sequence of changes, oldest first.
    pub open spec fn run(self, changes: Seq<SilenceChange>) -> PairingState
        decreases changes.len(),
    {
        if changes.len() == 0 {
            self
        } else {
            self.run(changes.drop_last()).apply(changes.last())
        }
    }
}

/// Every change keeps the state well-formed: `pairs` stays symmetric and free
/// of self-pairs, and the voice that waits stays out of it.
pub proof fn lemma_apply_keeps_wf(state: PairingState, change: SilenceChange)
    requires
        state.wf(),
    ensures
        state.apply(change).wf(),
{
}

/// Every state that a sequence of changes leads to from a well-formed state is
/// well-formed.
pub proof fn lemma_run_keeps_wf(state: PairingState, changes: Seq<SilenceChange>)
    requires
        state.wf(),
    ensures
        state.run(changes).wf(),
    decreases changes.len(),
{
    if changes.len() > 0 {
        lemma_run_keeps_wf(state, changes.drop_last());
        lemma_apply_keeps_wf(state.run(changes.drop_last()), changes.last());
    }
}

/// Every seeded state is well-formed, so every state reachable from one is.
pub proof fn lemma_seeded_is_wf(silent: Seq<bool>)
    ensures
        PairingState::seeded(silent).wf(),
    decreases silent.len(),
{
    if silent.len() > 0 {
        lemma_seeded_is_wf(silent.drop_last());
    }
}

/// Every state that can be reached, from any seed and by any sequence of
/// changes, has symmetric and injective pairs, and the voice that waits in it
/// has no partner.
pub proof fn lemma_reachable_is_wf(silent: Seq<bool>, changes: Seq<SilenceChange>)
    ensures
        ({
            let state = PairingState::seeded(silent).run(changes);
            &&& state.wf()
            &&& forall|a: Voice| #[trigger]
                state.pairs.contains_key(a) ==> state.pairs.contains_key(state.pairs[a])
                    && state.pairs[state.pairs[a]] == a
            &&& forall|a: Voice, b: Voice|
                state.pairs.contains_key(a) && state.pairs.contains_key(b) && #[trigger] state.pairs[a]
                    == #[trigger] state.pairs[b] ==> a == b
            &&& forall|a: Voice| state.single == Some(a) ==> !state.pairs.contains_key(a)
        }),
{
    lemma_seeded_is_wf(silent);
    lemma_run_keeps_wf(PairingState::seeded(silent), changes);
    let state = PairingState::seeded(silent).run(changes);
    assert forall|a: Voice, b: Voice|
        state.pairs.contains_key(a) && state.pairs.contains_key(b) && #[trigger] state.pairs[a]
            == #[trigger] state.pairs[b] implies a == b by {
        lemma_pairs_injective(state, a, b);
    }
}

/// Seeding with nothing but silent voices leaves the state empty.
pub proof fn lemma_seeded_all_silent(silent: Seq<bool>)
    requires
        forall|i: int| 0 <= i < silent.len() ==> silent[i],
    ensures
        PairingState::seeded(silent) == PairingState::empty(),
    decreases silent.len(),
{
    if silent.len() > 0 {
        lemma_seeded_all_silent(silent.drop_last());
    }
}

/// In a well-formed state no two voices share a partner, and the partner of a
/// voice's partner is the voice itself.
pub proof fn lemma_pairs_injective(state: PairingState, a: Voice, b: Voice)
    requires
        state.wf(),
        state.pairs.contains_key(a),
        state.pairs.contains_key(b),
        state.pairs[a] == state.pairs[b],
    ensures
        a == b,
{
    assert(state.pairs[state.pairs[a]] == a);
    assert(state.pairs[state.pairs[b]] == b);
}

/// A change that repeats what is known of a voice changes nothing and calls
/// for no action.
pub proof fn lemma_repeated_change_is_noop(state: PairingState, change: SilenceChange)
    requires
        state.wf(),
        state.is_active(change.who) == !change.silent,
    ensures
        state.apply(change) == state,
        state.actions(change) == Seq::<Action>::empty(),
{
}

/// After a change the voice is known as what the change said, so the same
/// change once more changes nothing and calls for no action.
pub proof fn lemma_change_twice_is_change_once(state: PairingState, change: SilenceChange)
    requires
        state.wf(),
    ensures
        state.apply(change).is_active(change.who) == !change.silent,
        state.apply(change).apply(change) == state.apply(change),
        state.apply(change).actions(change) == Seq::<Action>::empty(),
{
}

/// Connecting and at once disconnecting is a round trip: when `a` becoming
/// active connects it with `b`, and then one of the two falls silent, the pair
/// is disconnected again, `pairs` is what it was before, and the one that did
/// not fall silent is the voice that waits.
pub proof fn lemma_connect_then_disconnect(state: PairingState, a: Voice, b: Voice, leaver: Voice)
    requires
        state.wf(),
        state.on_actions(a) == seq![Action::Connect(a, b)],
        leaver == a || leaver == b,
    ensures
        state.turn_on(a).wf(),
        state.turn_on(a).pairs.contains_key(a) && state.turn_on(a).pairs[a] == b,
        state.turn_on(a).pairs.contains_key(b) && state.turn_on(a).pairs[b] == a,
        state.turn_on(a).off_actions(leaver) == seq![
            Action::Disconnect(leaver, if leaver == a { b } else { a }),
        ],
        state.turn_on(a).turn_off(leaver).wf(),
        state.turn_on(a).turn_off(leaver).pairs == state.pairs,
        !state.turn_on(a).turn_off(leaver).pairs.contains_key(a),
        !state.turn_on(a).turn_off(leaver).pairs.contains_key(b),
        state.turn_on(a).turn_off(leaver).single == Some(if leaver == a { b } else { a }),
{
    let connect = state.on_actions(a);
    assert(connect.len() == 1);
    assert(state.pairs_up(a));
    assert(connect[0] == Action::Connect(a, state.single->0));
    assert(state.single == Some(b));
    let linked = state.turn_on(a);
    assert(linked.pairs == state.pairs.insert(a, b).insert(b, a));
    let other = if leaver == a { b } else { a };
    assert(linked.pairs[leaver] == other);
    assert(linked.turn_off(leaver).pairs =~= state.pairs);
}

/// The pairing state machine.
#[derive(Debug)]
pub struct Egloorator {
    single: Option<Voice>,
    pairs: HashMap<Voice, Voice>,
}

impl View for Egloorator {
    type V = PairingState;

    closed spec fn view(&self) -> PairingState {
        PairingState { single: self.single, pairs: self.pairs@ }
    }
}

impl Egloorator {
    /// The state machine after the voices that `start` does not mark as silent
    /// have become active, lowest index first.
    pub fn new(start: Vec<bool>) -> (er: Egloorator)
        ensures
            er@ == PairingState::seeded(start@),
            er@.wf(),
    {
        let mut er = Egloorator { single: None, pairs: HashMap::new() };
        let mut i: usize = 0;
        while i < start.len()
            invariant
                i <= start.len(),
                er@ == PairingState::seeded(start@.take(i as int)),
                er@.wf(),
            decreases start.len() - i,
        {
            proof {
                assert(start@.take(i + 1).drop_last() =~= start@.take(i as int));
            }
            if !start[i] {
                er.input(&SilenceChange { who: i, silent: false });
            }
            i += 1;
        }
        proof {
            assert(start@.take(i as int) =~= start@);
        }
        er
    }

    /// The voice that waits for a partner, if there is one.
    pub fn single(&self) -> (single: Option<Voice>)
        ensures
            single == self@.single,
    {
        self.single
    }

    /// The partner of every voice that has one.
    pub fn pairs(&self) -> (pairs: &HashMap<Voice, Voice>)
        ensures
            pairs@ == self@.pairs,
    {
        &self.pairs
    }

    /// Takes in one change and returns the actions it calls for, in order.
    pub fn input(&mut self, change: &SilenceChange) -> (actions: Vec<Action>)
        requires
            old(self)@.wf(),
        ensures
            final(self)@ == old(self)@.apply(*change),
            actions@ == old(self)@.actions(*change),
            final(self)@.wf(),
    {
        if change.silent {
            self.input_off(change.who)
        } else {
            self.input_on(change.who)
        }
    }

    /// `who` fell silent: stops waiting, or leaves its partner, who then waits.
    pub fn input_off(&mut self, who: Voice) -> (actions: Vec<Action>)
        requires
            old(self)@.wf(),
        ensures
            final(self)@ == old(self)@.turn_off(who),
            actions@ == old(self)@.off_actions(who),
            final(self)@.wf(),
    {
        let mut actions = Vec::new();
        if self.single == Some(who) {
            self.single = None;
        } else {
            match self.pairs.get(&who) {
                Some(partner) => {
                    let other: Voice = *partner;
                    self.pairs.remove(&who);
                    self.pairs.remove(&other);
                    actions.push(Action::Disconnect(who, other));
                    self.single = Some(other);
                },
                None => {},
            }
        }
        actions
    }

    /// `who` became active: pairs up with the voice that waits, or waits itself.
    pub fn input_on(&mut self, who: Voice) -> (actions: Vec<Action>)
        requires
            old(self)@.wf(),
        ensures
            final(self)@ == old(self)@.turn_on(who),
            actions@ == old(self)@.on_actions(who),
            final(self)@.wf(),
    {
        let mut actions = Vec::new();
        if self.pairs.contains_key(&who) {
            return actions;
        }
        match self.single {
            Some(other) => {
                if other != who {
                    actions.push(Action::Connect(who, other));
                    self.pairs.insert(who, other);
                    self.pairs.insert(other, who);
                    self.single = None;
                }
            },
            None => {
                self.single = Some(who);
            },
        }
        actions
    }
}

} // verus!
