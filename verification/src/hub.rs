//! The routing controller: it feeds the changes to the pairing state machine,
//! turns the actions into orders for the audio engine, and keeps the table
//! of open links in step with the pairs.

use crate::levels::{amplification, get_amplification};
use crate::pairing::{Action, Egloorator, PairingState, SilenceChange, Voice};
use crate::text::{decimal, decimal_string, texts};
use vstd::prelude::*;

verus! {

/// The description of the pipeline that carries a source to a sink, amplified
/// by what the calibration table gives for the source.
pub open spec fn simplex_pipeline(source: Seq<char>, sink: Seq<char>) -> Seq<char> {
    source + " ! audioamplify amplification="@ + decimal(amplification(source)) + " ! "@ + sink
}

/// Describes the pipeline that carries `source` to `sink`.
pub fn make_simplex_pipeline(source: &String, sink: &String) -> (pipeline: String)
    ensures
        pipeline@ == simplex_pipeline(source@, sink@),
{
    let amplification = get_amplification(source);
    let mut pipeline = source.clone();
    pipeline.append(" ! audioamplify amplification=");
    pipeline.append(decimal_string(amplification).as_str());
    pipeline.append(" ! ");
    pipeline.append(sink.as_str());
    pipeline
}

/// An order for the audio engine.
#[derive(Debug)]
pub enum LinkOrder {
    /// Start the pipeline that carries the source of one voice to the sink of another.
    Open { source: Voice, sink: Voice, pipeline: String },
    /// Stop the pipeline that carries the source of one voice to the sink of another.
    Close { source: Voice, sink: Voice },
}

/// The mathematical form of an order.
pub enum Link {
    Open { source: Voice, sink: Voice, pipeline: Seq<char> },
    Close { source: Voice, sink: Voice },
}

impl View for LinkOrder {
    type V = Link;

    open spec fn view(&self) -> Link {
        match *self {
            LinkOrder::Open { source, sink, pipeline } => Link::Open {
                source,
                sink,
                pipeline: pipeline@,
            },
            LinkOrder::Close { source, sink } => Link::Close { source, sink },
        }
    }
}

/// The mathematical forms of a list of orders.
pub open spec fn links_of(orders: Seq<LinkOrder>) -> Seq<Link> {
    Seq::new(orders.len(), |i: int| orders[i]@)
}

/// The simplex links that a pairing state asks for: one from each paired
/// voice to its partner.
pub open spec fn routes(pairing: PairingState) -> Set<(Voice, Voice)> {
    Set::new(
        |link: (Voice, Voice)|
            pairing.pairs.contains_key(link.0) && pairing.pairs[link.0] == link.1,
    )
}

/// The open links after one action: a connect adds both directions, a
/// disconnect takes both away.
pub open spec fn links_after(links: Set<(Voice, Voice)>, action: Action) -> Set<(Voice, Voice)> {
    match action {
        Action::Connect(one, two) => links.insert((one, two)).insert((two, one)),
        Action::Disconnect(one, two) => links.remove((one, two)).remove((two, one)),
    }
}

/// The open links after a sequence of actions.
pub open spec fn links_after_all(links: Set<(Voice, Voice)>, actions: Seq<Action>) -> Set<
    (Voice, Voice),
>
    decreases actions.len(),
{
    if actions.len() == 0 {
        links
    } else {
        links_after(links_after_all(links, actions.drop_last()), actions.last())
    }
}

/// The mathematical state of the routing controller.
pub struct HubState {
    /// The description of each voice's source.
    pub sources: Seq<Seq<char>>,
    /// The description of each voice's sink.
    pub sinks: Seq<Seq<char>>,
    /// The pairing state.
    pub pairing: PairingState,
    /// The simplex links that are open, as (source, sink).
    pub links: Set<(Voice, Voice)>,
}

impl HubState {
    /// A voice that has both a source and a sink.
    pub open spec fn has_voice(self, who: Voice) -> bool {
        who < self.sources.len() && who < self.sinks.len()
    }

    /// The pairing state is well-formed and speaks of voices of the hub only,
    /// and the open links are exactly those that the pairs ask for.
    pub open spec fn wf(self) -> bool {
        &&& self.pairing.wf()
        &&& match self.pairing.single {
            Some(s) => self.has_voice(s),
            None => true,
        }
        &&& forall|a: Voice| #[trigger] self.pairing.pairs.contains_key(a) ==> self.has_voice(a)
        &&& self.links == routes(self.pairing)
    }

    /// The orders that carry one action out: both directions of the pair,
    /// the one from the first voice first.
    pub open spec fn orders_for(self, action: Action) -> Seq<Link> {
        match action {
            Action::Connect(one, two) => seq![
                Link::Open {
                    source: one,
                    sink: two,
                    pipeline: simplex_pipeline(self.sources[one as int], self.sinks[two as int]),
                },
                Link::Open {
                    source: two,
                    sink: one,
                    pipeline: simplex_pipeline(self.sources[two as int], self.sinks[one as int]),
                },
            ],
            Action::Disconnect(one, two) => seq![
                Link::Close { source: one, sink: two },
                Link::Close { source: two, sink: one },
            ],
        }
    }

    /// The orders that carry a sequence of actions out.
    pub open spec fn orders(self, actions: Seq<Action>) -> Seq<Link>
        decreases actions.len(),
    {
        if actions.len() == 0 {
            Seq::empty()
        } else {
            self.orders(actions.drop_last()) + self.orders_for(actions.last())
        }
    }

    /// The orders that a change gives rise to: those of its action, if it
    /// calls for one.
    pub open spec fn orders_on(self, change: SilenceChange) -> Seq<Link> {
        if self.pairing.actions(change).len() == 0 {
            Seq::empty()
        } else {
            self.orders_for(self.pairing.actions(change)[0])
        }
    }
}

/// A change calls for one action at most, so carrying its actions out in
/// order is carrying that one out.
pub proof fn lemma_orders_of_change(state: HubState, change: SilenceChange)
    ensures
        state.pairing.actions(change).len() <= 1,
        state.orders(state.pairing.actions(change)) == state.orders_on(change),
{
    let actions = state.pairing.actions(change);
    if actions.len() > 0 {
        assert(actions.drop_last() =~= Seq::<Action>::empty());
        assert(state.orders(actions.drop_last()) =~= Seq::<Link>::empty());
        assert(state.orders(actions) =~= state.orders_for(actions[0]));
    }
}

/// The links that the pairs ask for after a change are the links from before
/// with the actions of the change carried out: a table of open links that
/// follows the actions stays in step with the pairs.
pub proof fn lemma_routes_follow_actions(pairing: PairingState, change: SilenceChange)
    requires
        pairing.wf(),
    ensures
        routes(pairing.apply(change)) == links_after_all(routes(pairing), pairing.actions(change)),
{
    let actions = pairing.actions(change);
    let before = routes(pairing);
    if actions.len() == 0 {
        assert(routes(pairing.apply(change)) =~= before);
    } else {
        assert(actions.drop_last() =~= Seq::<Action>::empty());
        assert(links_after_all(before, actions.drop_last()) == before);
        assert(links_after_all(before, actions) == links_after(before, actions[0]));
        assert(routes(pairing.apply(change)) =~= links_after(before, actions[0]));
    }
}

/// In a well-formed state every link has its return link, and no source is
/// linked to two sinks: nobody talks to two partners at once.
pub proof fn lemma_links_are_duplex(state: HubState, one: Voice, two: Voice, three: Voice)
    requires
        state.wf(),
        state.links.contains((one, two)),
    ensures
        one != two,
        state.has_voice(one),
        state.has_voice(two),
        state.links.contains((two, one)),
        state.links.contains((one, three)) ==> three == two,
        state.links.contains((three, two)) ==> three == one,
{
    assert(state.pairing.pairs.contains_key(one));
    assert(state.pairing.pairs.contains_key(two));
    if state.links.contains((three, two)) {
        crate::pairing::lemma_pairs_injective(state.pairing, three, one);
    }
}

/// The routing controller.
#[derive(Debug)]
pub struct Hub {
    pipes: Vec<Vec<bool>>,
    sources: Vec<String>,
    sinks: Vec<String>,
    eg: Egloorator,
}

impl View for Hub {
    type V = HubState;

    closed spec fn view(&self) -> HubState {
        HubState {
            sources: texts(self.sources@),
            sinks: texts(self.sinks@),
            pairing: self.eg@,
            links: self.open_links(),
        }
    }
}

impl Hub {
    /// The table of links has a row for each source and a column for each sink.
    pub closed spec fn shaped(&self) -> bool {
        &&& self.pipes@.len() == self.sources@.len()
        &&& forall|i: int|
            0 <= i < self.pipes@.len() ==> (#[trigger] self.pipes@[i])@.len() == self.sinks@.len()
    }

    /// The links that the table marks as open.
    closed spec fn open_links(&self) -> Set<(Voice, Voice)> {
        Set::new(
            |link: (Voice, Voice)|
                link.0 < self.pipes@.len() && link.1 < self.pipes@[link.0 as int]@.len()
                    && self.pipes@[link.0 as int]@[link.1 as int],
        )
    }

    /// The table has its shape and the state is well-formed.
    pub open spec fn wf(&self) -> bool {
        self.shaped() && self@.wf()
    }

    /// A controller over the given sources and sinks, with every voice silent
    /// and no link open.
    pub fn new(sources: &Vec<String>, sinks: &Vec<String>) -> (hub: Hub)
        ensures
            hub.wf(),
            hub@.sources == texts(sources@),
            hub@.sinks == texts(sinks@),
            hub@.pairing == PairingState::empty(),
            hub@.links == Set::<(Voice, Voice)>::empty(),
    {
        let mut pipes: Vec<Vec<bool>> = Vec::new();
        let mut source_i: usize = 0;
        while source_i < sources.len()
            invariant
                source_i <= sources.len(),
                pipes@.len() == source_i,
                forall|i: int|
                    0 <= i < pipes@.len() ==> (#[trigger] pipes@[i])@ == Seq::new(
                        sinks@.len(),
                        |j: int| false,
                    ),
            decreases sources.len() - source_i,
        {
            let mut row: Vec<bool> = Vec::new();
            let mut sink_i: usize = 0;
            while sink_i < sinks.len()
                invariant
                    sink_i <= sinks.len(),
                    row@ == Seq::new(sink_i as nat, |j: int| false),
                decreases sinks.len() - sink_i,
            {
                row.push(false);
                assert(row@ =~= Seq::new((sink_i + 1) as nat, |j: int| false));
                sink_i += 1;
            }
            pipes.push(row);
            source_i += 1;
        }
        let silent: Vec<bool> = vec![true; sources.len()];
        proof {
            crate::pairing::lemma_seeded_all_silent(silent@);
        }
        let hub = Hub {
            pipes,
            sources: sources.clone(),
            sinks: sinks.clone(),
            eg: Egloorator::new(silent),
        };
        proof {
            assert(hub@.links =~= Set::<(Voice, Voice)>::empty());
            assert(routes(PairingState::empty()) =~= Set::<(Voice, Voice)>::empty());
        }
        hub
    }

    /// Marks the link from `one` to `two` as open and orders its pipeline.
    fn connect_simplex(&mut self, one: Voice, two: Voice, orders: &mut Vec<LinkOrder>)
        requires
            old(self).shaped(),
            old(self)@.has_voice(one),
            old(self)@.has_voice(two),
        ensures
            final(self).shaped(),
            final(self)@.sources == old(self)@.sources,
            final(self)@.sinks == old(self)@.sinks,
            final(self)@.pairing == old(self)@.pairing,
            final(self)@.links == old(self)@.links.insert((one, two)),
            links_of(final(orders)@) == links_of(old(orders)@).push(
                Link::Open {
                    source: one,
                    sink: two,
                    pipeline: simplex_pipeline(
                        old(self)@.sources[one as int],
                        old(self)@.sinks[two as int],
                    ),
                },
            ),
    {
        let s = make_simplex_pipeline(&self.sources[one], &self.sinks[two]);
        orders.push(LinkOrder::Open { source: one, sink: two, pipeline: s });
        self.pipes[one][two] = true;
    }

    /// Opens both directions between two voices.
    fn connect(&mut self, one: Voice, two: Voice, orders: &mut Vec<LinkOrder>)
        requires
            old(self).shaped(),
            old(self)@.has_voice(one),
            old(self)@.has_voice(two),
        ensures
            final(self).shaped(),
            final(self)@.sources == old(self)@.sources,
            final(self)@.sinks == old(self)@.sinks,
            final(self)@.pairing == old(self)@.pairing,
            final(self)@.links == links_after(old(self)@.links, Action::Connect(one, two)),
            links_of(final(orders)@) == links_of(old(orders)@) + old(self)@.orders_for(
                Action::Connect(one, two),
            ),
    {
        self.connect_simplex(one, two, orders);
        self.connect_simplex(two, one, orders);
    }

    /// Marks the link from `one` to `two` as closed and orders its pipeline
    /// stopped, whether or not it was open.
    fn disconnect_simplex(&mut self, one: Voice, two: Voice, orders: &mut Vec<LinkOrder>)
        requires
            old(self).shaped(),
            old(self)@.has_voice(one),
            old(self)@.has_voice(two),
        ensures
            final(self).shaped(),
            final(self)@.sources == old(self)@.sources,
            final(self)@.sinks == old(self)@.sinks,
            final(self)@.pairing == old(self)@.pairing,
            final(self)@.links == old(self)@.links.remove((one, two)),
            links_of(final(orders)@) == links_of(old(orders)@).push(
                Link::Close { source: one, sink: two },
            ),
    {
        orders.push(LinkOrder::Close { source: one, sink: two });
        self.pipes[one][two] = false;
    }

    /// Closes both directions between two voices.
    fn disconnect(&mut self, one: Voice, two: Voice, orders: &mut Vec<LinkOrder>)
        requires
            old(self).shaped(),
            old(self)@.has_voice(one),
            old(self)@.has_voice(two),
        ensures
            final(self).shaped(),
            final(self)@.sources == old(self)@.sources,
            final(self)@.sinks == old(self)@.sinks,
            final(self)@.pairing == old(self)@.pairing,
            final(self)@.links == links_after(old(self)@.links, Action::Disconnect(one, two)),
            links_of(final(orders)@) == links_of(old(orders)@) + old(self)@.orders_for(
                Action::Disconnect(one, two),
            ),
    {
        self.disconnect_simplex(one, two, orders);
        self.disconnect_simplex(two, one, orders);
    }

    /// Takes in one change of a voice of the hub and returns the orders that
    /// carry its actions out, in order. The table of open links follows them
    /// and so stays in step with the pairs.
    pub fn input(&mut self, msg: &SilenceChange) -> (orders: Vec<LinkOrder>)
        requires
            old(self).wf(),
            old(self)@.has_voice(msg.who),
        ensures
            final(self).wf(),
            final(self)@.sources == old(self)@.sources,
            final(self)@.sinks == old(self)@.sinks,
            final(self)@.pairing == old(self)@.pairing.apply(*msg),
            final(self)@.links == routes(old(self)@.pairing.apply(*msg)),
            links_of(orders@) == old(self)@.orders_on(*msg),
    {
        let ghost before = self@;
        let actions = self.eg.input(msg);
        proof {
            lemma_routes_follow_actions(before.pairing, *msg);
            lemma_orders_of_change(before, *msg);
        }
        let mut orders: Vec<LinkOrder> = Vec::new();
        let mut i: usize = 0;
        while i < actions.len()
            invariant
                i <= actions.len(),
                actions@ == before.pairing.actions(*msg),
                before.wf(),
                before.has_voice(msg.who),
                self.shaped(),
                self@.sources == before.sources,
                self@.sinks == before.sinks,
                self@.pairing == before.pairing.apply(*msg),
                self@.links == links_after_all(before.links, actions@.take(i as int)),
                links_of(orders@) == before.orders(actions@.take(i as int)),
            decreases actions.len() - i,
        {
            proof {
                assert(actions@.take(i + 1).drop_last() =~= actions@.take(i as int));
            }
            match actions[i] {
                Action::Connect(one, two) => {
                    self.connect(one, two, &mut orders);
                },
                Action::Disconnect(one, two) => {
                    self.disconnect(one, two, &mut orders);
                },
            }
            i += 1;
        }
        proof {
            assert(actions@.take(i as int) =~= actions@);
        }
        orders
    }

    /// The pairing state machine of the hub.
    pub fn eg(&self) -> (eg: &Egloorator)
        ensures
            eg@ == self@.pairing,
    {
        &self.eg
    }

    /// Whether `who` is a voice of the hub: one with a source and a sink.
    pub fn has_voice(&self, who: Voice) -> (known: bool)
        ensures
            known == self@.has_voice(who),
    {
        who < self.sources.len() && who < self.sinks.len()
    }

    /// Whether the link from the source of `one` to the sink of `two` is open.
    pub fn is_linked(&self, one: Voice, two: Voice) -> (open: bool)
        ensures
            open == self@.links.contains((one, two)),
    {
        one < self.pipes.len() && two < self.pipes[one].len() && self.pipes[one][two]
    }
}

} // verus!
