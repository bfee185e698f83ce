use crate::event::{lemma_marking_keeps_the_occurrence, Event, HexgemEvent};
use crate::hook_call::{
    chained, is_turn, lemma_chained_concat, lemma_layer_calls_concat, lemma_layer_calls_part,
    HookCall,
};
use crate::layer::Layer;
use vstd::prelude::*;

verus! {

/// How far an event got in a stack: the number of overlays and of base
/// layers that received it.
#[derive(Clone, Copy, Debug, PartialEq, Eq, Structural)]
pub struct Delivery {
    pub overlays: usize,
    pub base: usize,
}

impl Delivery {
    /// The number of layers that received the event.
    pub open spec fn total(self) -> nat {
        (self.overlays + self.base) as nat
    }
}

/// What offering `offered` to the layers of `before`, newest first, may leave
/// behind: the layers `after`, the event `outcome`, and the number
/// `received` of layers that the event reached.
///
/// The event stops at the first layer that hands it back handled, so only
/// the `received` newest layers can have changed; one that was handled from
/// the start reaches nobody.
pub open spec fn offered_to<L>(
    before: Seq<L>,
    after: Seq<L>,
    offered: HexgemEvent,
    outcome: HexgemEvent,
    received: int,
) -> bool {
    &&& after.len() == before.len()
    &&& 0 <= received <= before.len()
    &&& forall|i: int| 0 <= i < before.len() - received ==> after[i] == before[i]
    &&& outcome.follows(offered)
    &&& offered.consumed() ==> received == 0
    &&& received == 0 ==> outcome == offered
    &&& !offered.consumed() && before.len() > 0 ==> received >= 1
    &&& received < before.len() ==> outcome.consumed()
}

/// Whether `trace` is one update of every layer of `before`, in their order,
/// that leaves the layers `after`.
pub open spec fn updates<W, L>(trace: Seq<HookCall<W, L>>, before: Seq<L>, after: Seq<L>) -> bool {
    &&& trace.len() == before.len()
    &&& after.len() == before.len()
    &&& forall|turn: int|
        0 <= turn < trace.len() ==> #[trigger] trace[turn] == (HookCall::Update {
            before: before[turn],
            after: after[turn],
            given: trace[turn].given(),
            left: trace[turn].left(),
        })
}

/// Whether `trace` is the offering of `offered` to the layers of `before`,
/// newest first, that leaves the layers `after` and the event `outcome`:
/// every layer that the event reaches is offered the event as it was made,
/// and only the last of them can have handed it back handled.
pub open spec fn deliveries<W, L>(
    trace: Seq<HookCall<W, L>>,
    before: Seq<L>,
    after: Seq<L>,
    offered: HexgemEvent,
    outcome: HexgemEvent,
) -> bool {
    &&& offered_to(before, after, offered, outcome, trace.len() as int)
    &&& forall|turn: int|
        0 <= turn < trace.len() ==> #[trigger] trace[turn] == (HookCall::Event {
            before: before[before.len() - 1 - turn],
            after: after[before.len() - 1 - turn],
            offered,
            handled: turn == trace.len() - 1 && outcome.consumed(),
            given: trace[turn].given(),
            left: trace[turn].left(),
        })
}

/// One update of every layer of a group and then of every layer of another
/// is one update of every layer of both.
pub proof fn lemma_updates_concat<W, L>(
    first: Seq<HookCall<W, L>>,
    second: Seq<HookCall<W, L>>,
    before_first: Seq<L>,
    after_first: Seq<L>,
    before_second: Seq<L>,
    after_second: Seq<L>,
)
    requires
        updates(first, before_first, after_first),
        updates(second, before_second, after_second),
    ensures
        updates(first + second, before_first + before_second, after_first + after_second),
{
    let whole = first + second;
    assert forall|turn: int| 0 <= turn < whole.len() implies #[trigger] whole[turn] == (
    HookCall::Update {
        before: (before_first + before_second)[turn],
        after: (after_first + after_second)[turn],
        given: whole[turn].given(),
        left: whole[turn].left(),
    }) by {
        if turn < first.len() {
            assert(whole[turn] == first[turn]);
        } else {
            assert(whole[turn] == second[turn - first.len()]);
        }
    }
}

/// The layers of an application: base layers, and overlays that come before
/// every base layer.
///
/// Both groups grow and shrink at their end. Updates go through the layers
/// oldest first within each group, events newest first, the overlays ahead of
/// the base layers either way.
pub struct LayerStack<L> {
    overlayers: Vec<L>,
    layers: Vec<L>,
}

impl<L> LayerStack<L> {
    /// The overlays, oldest first.
    pub closed spec fn overlays(&self) -> Seq<L> {
        self.overlayers@
    }

    /// The base layers, oldest first.
    pub closed spec fn base(&self) -> Seq<L> {
        self.layers@
    }

    /// The layers in the order in which they are updated.
    pub open spec fn update_order(&self) -> Seq<L> {
        self.overlays() + self.base()
    }

    /// The layers in the order in which an event is offered to them.
    pub open spec fn event_order(&self) -> Seq<L> {
        self.overlays().reverse() + self.base().reverse()
    }

    /// Whether this stack has as many overlays and as many base layers as
    /// `other`.
    pub open spec fn same_shape(&self, other: &LayerStack<L>) -> bool {
        &&& self.overlays().len() == other.overlays().len()
        &&& self.base().len() == other.base().len()
    }

    /// What offering `offered` to the layers of `before` in event order may
    /// leave behind, where the overlays hand the event on to the base layers
    /// as `passed_on`.
    pub open spec fn handed_down(
        &self,
        before: &LayerStack<L>,
        offered: HexgemEvent,
        passed_on: HexgemEvent,
        outcome: HexgemEvent,
        delivery: Delivery,
    ) -> bool {
        &&& offered_to(
            before.overlays(),
            self.overlays(),
            offered,
            passed_on,
            delivery.overlays as int,
        )
        &&& offered_to(before.base(), self.base(), passed_on, outcome, delivery.base as int)
    }

    /// What offering `offered` to the layers of `before` in event order may
    /// leave behind: this stack, the event `outcome`, and the numbers
    /// `delivery` of layers that the event reached.
    pub open spec fn passed_through(
        &self,
        before: &LayerStack<L>,
        offered: HexgemEvent,
        outcome: HexgemEvent,
        delivery: Delivery,
    ) -> bool {
        exists|passed_on: HexgemEvent|
            #[trigger] self.handed_down(before, offered, passed_on, outcome, delivery)
    }

    /// Whether `trace` is one update of every layer of `before`, in update
    /// order, that leaves this stack.
    pub open spec fn updated<W>(&self, before: &LayerStack<L>, trace: Seq<HookCall<W, L>>) -> bool {
        &&& self.same_shape(before)
        &&& updates(trace, before.update_order(), self.update_order())
    }

    /// Whether `trace` is the offering of `offered` to the layers of
    /// `before` in event order that leaves this stack, the event `outcome`
    /// and the numbers `delivery`: first the overlays are offered the event,
    /// then the base layers what the overlays have passed on.
    pub open spec fn delivered<W>(
        &self,
        before: &LayerStack<L>,
        offered: HexgemEvent,
        outcome: HexgemEvent,
        delivery: Delivery,
        trace: Seq<HookCall<W, L>>,
    ) -> bool {
        exists|passed_on: HexgemEvent|
            {
                &&& #[trigger] self.handed_down(before, offered, passed_on, outcome, delivery)
                &&& trace.len() == delivery.total()
                &&& deliveries(
                    trace.take(delivery.overlays as int),
                    before.overlays(),
                    self.overlays(),
                    offered,
                    passed_on,
                )
                &&& deliveries(
                    trace.skip(delivery.overlays as int),
                    before.base(),
                    self.base(),
                    passed_on,
                    outcome,
                )
            }
    }

    /// A stack without layers.
    pub fn create() -> (stack: Self)
        ensures
            stack.overlays() == Seq::<L>::empty(),
            stack.base() == Seq::<L>::empty(),
    {
        Self { overlayers: Vec::new(), layers: Vec::new() }
    }

    /// Puts `layer` on top of the base layers.
    pub fn push_layer(&mut self, layer: L)
        ensures
            final(self).base() == old(self).base().push(layer),
            final(self).overlays() == old(self).overlays(),
    {
        self.layers.push(layer);
    }

    /// Takes the newest base layer off, if there is one.
    pub fn pop_layer(&mut self) -> (popped: Option<L>)
        ensures
            final(self).overlays() == old(self).overlays(),
            old(self).base().len() == 0 ==> popped is None && final(self).base() == old(self).base(),
            old(self).base().len() > 0 ==> popped == Some(old(self).base().last()) && final(self).base() == old(self).base().drop_last(),
    {
        self.layers.pop()
    }

    /// Puts `layer` on top of the overlays.
    pub fn push_overlay(&mut self, layer: L)
        ensures
            final(self).overlays() == old(self).overlays().push(layer),
            final(self).base() == old(self).base(),
    {
        self.overlayers.push(layer);
    }

    /// Takes the newest overlay off, if there is one.
    pub fn pop_overlay(&mut self) -> (popped: Option<L>)
        ensures
            final(self).base() == old(self).base(),
            old(self).overlays().len() == 0 ==> popped is None && final(self).overlays() == old(self).overlays(),
            old(self).overlays().len() > 0 ==> popped == Some(old(self).overlays().last())
                && final(self).overlays() == old(self).overlays().drop_last(),
    {
        self.overlayers.pop()
    }

    /// The layers in the order in which they are updated: the overlays, then
    /// the base layers, each group oldest first.
    pub fn layers(&self) -> (all: Vec<&L>)
        ensures
            all@.len() == self.update_order().len(),
            forall|i: int| 0 <= i < all@.len() ==> *all@[i] == self.update_order()[i],
    {
        let mut all: Vec<&L> = Vec::new();
        let mut i: usize = 0;
        while i < self.overlayers.len()
            invariant
                i <= self.overlayers.len(),
                all@.len() == i,
                forall|j: int| 0 <= j < i ==> *all@[j] == self.overlayers@[j],
            decreases self.overlayers.len() - i,
        {
            all.push(&self.overlayers[i]);
            i += 1;
        }
        let mut k: usize = 0;
        while k < self.layers.len()
            invariant
                k <= self.layers.len(),
                all@.len() == self.overlayers.len() + k,
                forall|j: int| 0 <= j < self.overlayers.len() ==> *all@[j] == self.overlayers@[j],
                forall|j: int|
                    self.overlayers.len() <= j < all@.len() ==> *all@[j] == self.layers@[j
                        - self.overlayers.len()],
            decreases self.layers.len() - k,
        {
            all.push(&self.layers[k]);
            k += 1;
        }
        all
    }

    /// The layers in the order in which an event is offered to them: the
    /// overlays, then the base layers, each group newest first.
    pub fn layers_rev(&self) -> (all: Vec<&L>)
        ensures
            all@.len() == self.event_order().len(),
            forall|i: int| 0 <= i < all@.len() ==> *all@[i] == self.event_order()[i],
    {
        let mut all: Vec<&L> = Vec::new();
        let overlays = self.overlayers.len();
        let mut i: usize = overlays;
        while i > 0
            invariant
                overlays == self.overlayers.len(),
                i <= overlays,
                all@.len() == overlays - i,
                forall|j: int|
                    0 <= j < overlays - i ==> *all@[j] == self.overlayers@[overlays - 1 - j],
            decreases i,
        {
            i -= 1;
            all.push(&self.overlayers[i]);
        }
        let base = self.layers.len();
        let mut k: usize = base;
        while k > 0
            invariant
                overlays == self.overlayers.len(),
                base == self.layers.len(),
                k <= base,
                all@.len() == overlays + (base - k),
                forall|j: int| 0 <= j < overlays ==> *all@[j] == self.overlayers@[overlays - 1 - j],
                forall|j: int|
                    overlays <= j < all@.len() ==> *all@[j] == self.layers@[base - 1 - (j
                        - overlays)],
            decreases k,
        {
            k -= 1;
            all.push(&self.layers[k]);
        }
        all
    }
}

impl<L> LayerStack<L> {
    /// Updates every layer of one group, oldest first, and tells the calls
    /// it made.
    fn update_group<W>(group: &mut Vec<L>, window: &mut W) -> (trace: Ghost<
        Seq<HookCall<W, L>>,
    >) where L: Layer<W>
        ensures
            updates(trace@, old(group)@, final(group)@),
            chained(trace@, *old(window), *final(window)),
            forall|turn: int|
                #[trigger] is_turn(turn, trace@.len()) ==> match trace@[turn] {
                    HookCall::Update { before, after, given, left } => exists|
                        layer: &mut L,
                        seen: &mut W,
                    |
                        *layer == before && *final(layer) == after && *seen == given && *final(seen) == left
                            && #[trigger] call_ensures(L::on_update, (layer, seen), ()),
                    HookCall::Event { before, after, offered, handled, given, left } => exists|
                        layer: &mut L,
                        event: &mut HexgemEvent,
                        seen: &mut W,
                    |
                        *layer == before && *final(layer) == after && *event == offered
                            && final(event).consumed() == handled && *seen == given
                            && *final(seen) == left
                            && #[trigger] call_ensures(L::on_event, (layer, event, seen), ()),
                    HookCall::Poll { .. } => false,
                },
    {
        let ghost mut trace: Seq<HookCall<W, L>> = Seq::empty();
        let count = group.len();
        let mut i: usize = 0;
        while i < count
            invariant
                i <= count,
                count == group@.len(),
                count == old(group)@.len(),
                trace.len() == i,
                forall|j: int| i <= j < count ==> group@[j] == old(group)@[j],
                forall|turn: int|
                    0 <= turn < i ==> #[trigger] trace[turn] == (HookCall::Update {
                        before: old(group)@[turn],
                        after: group@[turn],
                        given: trace[turn].given(),
                        left: trace[turn].left(),
                    }),
                chained(trace, *old(window), *window),
                forall|turn: int|
                    #[trigger] is_turn(turn, trace.len()) ==> match trace[turn] {
                        HookCall::Update { before, after, given, left } => exists|
                            layer: &mut L,
                            seen: &mut W,
                        |
                            *layer == before && *final(layer) == after && *seen == given && *final(seen) == left
                                && #[trigger] call_ensures(L::on_update, (layer, seen), ()),
                        HookCall::Event { before, after, offered, handled, given, left } => exists|
                            layer: &mut L,
                            event: &mut HexgemEvent,
                            seen: &mut W,
                        |
                            *layer == before && *final(layer) == after && *event == offered
                                && final(event).consumed() == handled && *seen == given
                                && *final(seen) == left
                                && #[trigger] call_ensures(L::on_event, (layer, event, seen), ()),
                        HookCall::Poll { .. } => false,
                    },
            decreases count - i,
        {
            let ghost given = *window;
            let ghost before = group@[i as int];
            let ghost earlier = trace;
            let layer: &mut L = &mut group[i];
            layer.on_update(window);
            proof {
                let call = HookCall::Update { before, after: group@[i as int], given, left: *window };
                let single = seq![call];
                assert(match call {
                    HookCall::Update { before, after, given, left } => exists|
                        layer: &mut L,
                        seen: &mut W,
                    |
                        *layer == before && *final(layer) == after && *seen == given && *final(seen) == left
                            && #[trigger] call_ensures(L::on_update, (layer, seen), ()),
                    HookCall::Event { before, after, offered, handled, given, left } => exists|
                        layer: &mut L,
                        event: &mut HexgemEvent,
                        seen: &mut W,
                    |
                        *layer == before && *final(layer) == after && *event == offered
                            && final(event).consumed() == handled && *seen == given
                            && *final(seen) == left
                            && #[trigger] call_ensures(L::on_event, (layer, event, seen), ()),
                    HookCall::Poll { .. } => false,
                });
                assert forall|turn: int| #[trigger] is_turn(turn, single.len()) implies match single[turn] {
                    HookCall::Update { before, after, given, left } => exists|
                        layer: &mut L,
                        seen: &mut W,
                    |
                        *layer == before && *final(layer) == after && *seen == given && *final(seen) == left
                            && #[trigger] call_ensures(L::on_update, (layer, seen), ()),
                    HookCall::Event { before, after, offered, handled, given, left } => exists|
                        layer: &mut L,
                        event: &mut HexgemEvent,
                        seen: &mut W,
                    |
                        *layer == before && *final(layer) == after && *event == offered
                            && final(event).consumed() == handled && *seen == given
                            && *final(seen) == left
                            && #[trigger] call_ensures(L::on_event, (layer, event, seen), ()),
                    HookCall::Poll { .. } => false,
                } by {
                    assert(single[turn] == call);
                }
                lemma_layer_calls_concat(earlier, single);
                assert(chained(single, given, *window));
                lemma_chained_concat(earlier, single, *old(window), given, *window);
                trace = earlier + single;
                assert forall|turn: int| 0 <= turn < i + 1 implies #[trigger] trace[turn] == (
                HookCall::Update {
                    before: old(group)@[turn],
                    after: group@[turn],
                    given: trace[turn].given(),
                    left: trace[turn].left(),
                }) by {
                    if turn < i {
                        assert(trace[turn] == earlier[turn]);
                    }
                }
            }
            i += 1;
        }
        Ghost(trace)
    }

    /// Updates every layer, in update order, and tells the calls it made.
    pub(crate) fn update_traced<W>(&mut self, window: &mut W) -> (trace: Ghost<Seq<HookCall<W, L>>>) where
        L: Layer<W>,

        ensures
            final(self).updated(old(self), trace@),
            chained(trace@, *old(window), *final(window)),
            forall|turn: int|
                #[trigger] is_turn(turn, trace@.len()) ==> match trace@[turn] {
                    HookCall::Update { before, after, given, left } => exists|
                        layer: &mut L,
                        seen: &mut W,
                    |
                        *layer == before && *final(layer) == after && *seen == given && *final(seen) == left
                            && #[trigger] call_ensures(L::on_update, (layer, seen), ()),
                    HookCall::Event { before, after, offered, handled, given, left } => exists|
                        layer: &mut L,
                        event: &mut HexgemEvent,
                        seen: &mut W,
                    |
                        *layer == before && *final(layer) == after && *event == offered
                            && final(event).consumed() == handled && *seen == given
                            && *final(seen) == left
                            && #[trigger] call_ensures(L::on_event, (layer, event, seen), ()),
                    HookCall::Poll { .. } => false,
                },
    {
        let ghost given = *window;
        let first = Self::update_group(&mut self.overlayers, window);
        let ghost passed = *window;
        let second = Self::update_group(&mut self.layers, window);
        proof {
            lemma_updates_concat(
                first@,
                second@,
                old(self).overlayers@,
                self.overlayers@,
                old(self).layers@,
                self.layers@,
            );
            lemma_chained_concat(first@, second@, given, passed, *window);
            lemma_layer_calls_concat(first@, second@);
        }
        Ghost(first@ + second@)
    }

    /// Lets every layer do its work for the frame: each layer is updated
    /// once, in update order, and is handed the window as the layer before
    /// it has left it.
    pub fn update<W>(&mut self, window: &mut W) where L: Layer<W>
        ensures
            final(self).same_shape(old(self)),
            exists|trace: Seq<HookCall<W, L>>|
                {
                    &&& #[trigger] final(self).updated(old(self), trace)
                    &&& chained(trace, *old(window), *final(window))
                    &&& forall|turn: int|
                        #[trigger] is_turn(turn, trace.len()) ==> match trace[turn] {
                            HookCall::Update { before, after, given, left } => exists|
                                layer: &mut L,
                                seen: &mut W,
                            |
                                *layer == before && *final(layer) == after && *seen == given && *final(seen) == left
                                    && #[trigger] call_ensures(L::on_update, (layer, seen), ()),
                            HookCall::Event { before, after, offered, handled, given, left } => exists|
                                layer: &mut L,
                                event: &mut HexgemEvent,
                                seen: &mut W,
                            |
                                *layer == before && *final(layer) == after && *event == offered
                                    && final(event).consumed() == handled && *seen == given
                                    && *final(seen) == left
                                    && #[trigger] call_ensures(L::on_event, (layer, event, seen), ()),
                            HookCall::Poll { .. } => false,
                        }
                },
    {
        let trace = self.update_traced(window);
        assert(self.updated(old(self), trace@));
    }

    /// Offers `event` to the layers of one group, newest first, until one of
    /// them hands it back handled, and tells the calls it made. Only the
    /// handled flag is taken from what a layer hands back.
    fn offer<W>(group: &mut Vec<L>, event: &mut HexgemEvent, window: &mut W) -> (outcome: (
        usize,
        Ghost<Seq<HookCall<W, L>>>,
    )) where L: Layer<W>
        ensures
            outcome.0 == outcome.1@.len(),
            deliveries(outcome.1@, old(group)@, final(group)@, *old(event), *final(event)),
            chained(outcome.1@, *old(window), *final(window)),
            forall|turn: int|
                #[trigger] is_turn(turn, outcome.1@.len()) ==> match outcome.1@[turn] {
                    HookCall::Update { before, after, given, left } => exists|
                        layer: &mut L,
                        seen: &mut W,
                    |
                        *layer == before && *final(layer) == after && *seen == given && *final(seen) == left
                            && #[trigger] call_ensures(L::on_update, (layer, seen), ()),
                    HookCall::Event { before, after, offered, handled, given, left } => exists|
                        layer: &mut L,
                        event: &mut HexgemEvent,
                        seen: &mut W,
                    |
                        *layer == before && *final(layer) == after && *event == offered
                            && final(event).consumed() == handled && *seen == given
                            && *final(seen) == left
                            && #[trigger] call_ensures(L::on_event, (layer, event, seen), ()),
                    HookCall::Poll { .. } => false,
                },
    {
        let ghost mut trace: Seq<HookCall<W, L>> = Seq::empty();
        let count = group.len();
        let mut received: usize = 0;
        proof {
            lemma_marking_keeps_the_occurrence(*old(event), false);
        }
        while received < count && !event.is_handled()
            invariant
                count == group@.len(),
                count == old(group)@.len(),
                received <= count,
                received == trace.len(),
                forall|i: int| 0 <= i < count - received ==> group@[i] == old(group)@[i],
                event.follows(*old(event)),
                old(event).consumed() ==> received == 0,
                received == 0 ==> *event == *old(event),
                !old(event).consumed() ==> old(event).marked(false) == *old(event),
                !event.consumed() ==> *event == *old(event),
                forall|turn: int|
                    0 <= turn < received ==> #[trigger] trace[turn] == (HookCall::Event {
                        before: old(group)@[count - 1 - turn],
                        after: group@[count - 1 - turn],
                        offered: *old(event),
                        handled: turn == received - 1 && event.consumed(),
                        given: trace[turn].given(),
                        left: trace[turn].left(),
                    }),
                chained(trace, *old(window), *window),
                forall|turn: int|
                    #[trigger] is_turn(turn, trace.len()) ==> match trace[turn] {
                        HookCall::Update { before, after, given, left } => exists|
                            layer: &mut L,
                            seen: &mut W,
                        |
                            *layer == before && *final(layer) == after && *seen == given && *final(seen) == left
                                && #[trigger] call_ensures(L::on_update, (layer, seen), ()),
                        HookCall::Event { before, after, offered, handled, given, left } => exists|
                            layer: &mut L,
                            event: &mut HexgemEvent,
                            seen: &mut W,
                        |
                            *layer == before && *final(layer) == after && *event == offered
                                && final(event).consumed() == handled && *seen == given
                                && *final(seen) == left
                                && #[trigger] call_ensures(L::on_event, (layer, event, seen), ()),
                        HookCall::Poll { .. } => false,
                    },
            decreases count - received,
        {
            let ghost given = *window;
            let ghost before = group@[count - 1 - received];
            let ghost earlier = trace;
            let offered = *event;
            let layer: &mut L = &mut group[count - 1 - received];
            layer.on_event(event, window);
            let handled = event.is_handled();
            *event = offered;
            if handled {
                event.set_handled();
            }
            proof {
                let call = HookCall::Event {
                    before,
                    after: group@[count - 1 - received],
                    offered: *old(event),
                    handled,
                    given,
                    left: *window,
                };
                let single = seq![call];
                assert(match call {
                    HookCall::Update { before, after, given, left } => exists|
                        layer: &mut L,
                        seen: &mut W,
                    |
                        *layer == before && *final(layer) == after && *seen == given && *final(seen) == left
                            && #[trigger] call_ensures(L::on_update, (layer, seen), ()),
                    HookCall::Event { before, after, offered, handled, given, left } => exists|
                        layer: &mut L,
                        event: &mut HexgemEvent,
                        seen: &mut W,
                    |
                        *layer == before && *final(layer) == after && *event == offered
                            && final(event).consumed() == handled && *seen == given
                            && *final(seen) == left
                            && #[trigger] call_ensures(L::on_event, (layer, event, seen), ()),
                    HookCall::Poll { .. } => false,
                });
                assert forall|turn: int| #[trigger] is_turn(turn, single.len()) implies match single[turn] {
                    HookCall::Update { before, after, given, left } => exists|
                        layer: &mut L,
                        seen: &mut W,
                    |
                        *layer == before && *final(layer) == after && *seen == given && *final(seen) == left
                            && #[trigger] call_ensures(L::on_update, (layer, seen), ()),
                    HookCall::Event { before, after, offered, handled, given, left } => exists|
                        layer: &mut L,
                        event: &mut HexgemEvent,
                        seen: &mut W,
                    |
                        *layer == before && *final(layer) == after && *event == offered
                            && final(event).consumed() == handled && *seen == given
                            && *final(seen) == left
                            && #[trigger] call_ensures(L::on_event, (layer, event, seen), ()),
                    HookCall::Poll { .. } => false,
                } by {
                    assert(single[turn] == call);
                }
                lemma_layer_calls_concat(earlier, single);
                assert(chained(single, given, *window));
                lemma_chained_concat(earlier, single, *old(window), given, *window);
                trace = earlier + single;
                assert forall|turn: int| 0 <= turn < received + 1 implies #[trigger] trace[turn] == (
                HookCall::Event {
                    before: old(group)@[count - 1 - turn],
                    after: group@[count - 1 - turn],
                    offered: *old(event),
                    handled: turn == received && event.consumed(),
                    given: trace[turn].given(),
                    left: trace[turn].left(),
                }) by {
                    if turn < received {
                        assert(trace[turn] == earlier[turn]);
                    }
                }
            }
            received += 1;
        }
        (received, Ghost(trace))
    }

    /// Offers `event` to the layers in event order and tells the calls it
    /// made.
    pub(crate) fn propagate_traced<W>(&mut self, event: &mut HexgemEvent, window: &mut W) -> (outcome: (
        Delivery,
        Ghost<Seq<HookCall<W, L>>>,
    )) where L: Layer<W>
        ensures
            final(self).delivered(old(self), *old(event), *final(event), outcome.0, outcome.1@),
            final(self).passed_through(old(self), *old(event), *final(event), outcome.0),
            final(event).follows(*old(event)),
            chained(outcome.1@, *old(window), *final(window)),
            forall|turn: int|
                #[trigger] is_turn(turn, outcome.1@.len()) ==> match outcome.1@[turn] {
                    HookCall::Update { before, after, given, left } => exists|
                        layer: &mut L,
                        seen: &mut W,
                    |
                        *layer == before && *final(layer) == after && *seen == given && *final(seen) == left
                            && #[trigger] call_ensures(L::on_update, (layer, seen), ()),
                    HookCall::Event { before, after, offered, handled, given, left } => exists|
                        layer: &mut L,
                        event: &mut HexgemEvent,
                        seen: &mut W,
                    |
                        *layer == before && *final(layer) == after && *event == offered
                            && final(event).consumed() == handled && *seen == given
                            && *final(seen) == left
                            && #[trigger] call_ensures(L::on_event, (layer, event, seen), ()),
                    HookCall::Poll { .. } => false,
                },
    {
        let ghost given = *window;
        let (overlays, first) = Self::offer(&mut self.overlayers, event, window);
        let ghost passed_on = *event;
        let ghost passed = *window;
        let (base, second) = Self::offer(&mut self.layers, event, window);
        let delivery = Delivery { overlays, base };
        proof {
            let trace = first@ + second@;
            assert(self.handed_down(old(self), *old(event), passed_on, *event, delivery));
            assert(trace.take(overlays as int) =~= first@);
            assert(trace.skip(overlays as int) =~= second@);
            lemma_chained_concat(first@, second@, given, passed, *window);
            lemma_layer_calls_concat(first@, second@);
        }
        (delivery, Ghost(first@ + second@))
    }

    /// Offers `event` to the layers in event order (the overlays newest
    /// first, then the base layers newest first) until one of them hands it
    /// back handled, and says how many layers of each group received it.
    ///
    /// Every layer that the event reaches is offered the event as it was
    /// made, and the base layers see it only after every overlay has passed
    /// it on unhandled.
    pub fn propagate<W>(&mut self, event: &mut HexgemEvent, window: &mut W) -> (delivery:
        Delivery) where L: Layer<W>
        ensures
            final(event).follows(*old(event)),
            final(self).passed_through(old(self), *old(event), *final(event), delivery),
            delivery.total() == 0 ==> *final(window) == *old(window),
            exists|trace: Seq<HookCall<W, L>>|
                {
                    &&& #[trigger] final(self).delivered(
                        old(self),
                        *old(event),
                        *final(event),
                        delivery,
                        trace,
                    )
                    &&& chained(trace, *old(window), *final(window))
                    &&& forall|turn: int|
                        #[trigger] is_turn(turn, trace.len()) ==> match trace[turn] {
                            HookCall::Update { before, after, given, left } => exists|
                                layer: &mut L,
                                seen: &mut W,
                            |
                                *layer == before && *final(layer) == after && *seen == given && *final(seen) == left
                                    && #[trigger] call_ensures(L::on_update, (layer, seen), ()),
                            HookCall::Event { before, after, offered, handled, given, left } => exists|
                                layer: &mut L,
                                event: &mut HexgemEvent,
                                seen: &mut W,
                            |
                                *layer == before && *final(layer) == after && *event == offered
                                    && final(event).consumed() == handled && *seen == given
                                    && *final(seen) == left
                                    && #[trigger] call_ensures(L::on_event, (layer, event, seen), ()),
                            HookCall::Poll { .. } => false,
                        }
                },
    {
        let (delivery, trace) = self.propagate_traced(event, window);
        assert(self.delivered(old(self), *old(event), *event, delivery, trace@));
        delivery
    }
}

/// An event stops at the first layer that hands it back handled: the layers
/// that come later in event order are left as they were, an event that stops
/// early is handled, and one that was handled from the start reaches nobody.
pub proof fn lemma_propagation_stops_when_handled<L>(
    before: LayerStack<L>,
    after: LayerStack<L>,
    offered: HexgemEvent,
    outcome: HexgemEvent,
    delivery: Delivery,
)
    requires
        after.passed_through(&before, offered, outcome, delivery),
    ensures
        after.event_order().len() == before.event_order().len(),
        delivery.total() <= before.event_order().len(),
        forall|i: int|
            delivery.total() <= i < before.event_order().len() ==> after.event_order()[i]
                == before.event_order()[i],
        delivery.total() < before.event_order().len() ==> outcome.consumed(),
        offered.consumed() ==> delivery.total() == 0,
        delivery.total() == 0 ==> outcome == offered && after.event_order()
            == before.event_order(),
        !offered.consumed() && before.event_order().len() > 0 ==> delivery.total() >= 1,
        outcome.follows(offered),
{
    let passed_on = choose|passed_on: HexgemEvent| #[trigger]
        after.handed_down(&before, offered, passed_on, outcome, delivery);
    let overlays = before.overlays().len() as int;
    let base = before.base().len() as int;
    assert forall|i: int| delivery.total() <= i < before.event_order().len() implies
        after.event_order()[i] == before.event_order()[i] by {
        if i < overlays {
            assert(after.overlays()[overlays - 1 - i] == before.overlays()[overlays - 1 - i]);
        } else {
            assert(after.base()[base - 1 - (i - overlays)] == before.base()[base - 1 - (i
                - overlays)]);
        }
    }
    if delivery.total() == 0 {
        assert(after.overlays() =~= before.overlays());
        assert(after.base() =~= before.base());
    }
}

/// The overlays come first: a base layer receives an event only after every
/// overlay has received it, and where an overlay has stopped the event, the
/// base layers are left as they were.
pub proof fn lemma_overlays_before_base<L>(
    before: LayerStack<L>,
    after: LayerStack<L>,
    offered: HexgemEvent,
    outcome: HexgemEvent,
    delivery: Delivery,
)
    requires
        after.passed_through(&before, offered, outcome, delivery),
    ensures
        delivery.base > 0 ==> delivery.overlays == before.overlays().len(),
        delivery.overlays < before.overlays().len() ==> delivery.base == 0 && after.base()
            == before.base() && outcome.consumed(),
{
    let passed_on = choose|passed_on: HexgemEvent| #[trigger]
        after.handed_down(&before, offered, passed_on, outcome, delivery);
    if delivery.overlays < before.overlays().len() {
        assert(passed_on.consumed());
        assert(after.base() =~= before.base());
    }
}

/// A layer that hands back handled every event it is offered stops the
/// event: no older layer of its group receives it, and an event that gets as
/// far as this layer comes out handled.
pub proof fn lemma_handler_stops_event<W, L: Layer<W>>(
    trace: Seq<HookCall<W, L>>,
    before: Seq<L>,
    after: Seq<L>,
    offered: HexgemEvent,
    outcome: HexgemEvent,
    position: int,
)
    requires
        deliveries(trace, before, after, offered, outcome),
        forall|turn: int|
            #[trigger] is_turn(turn, trace.len()) ==> match trace[turn] {
                HookCall::Update { before, after, given, left } => exists|
                    layer: &mut L,
                    seen: &mut W,
                |
                    *layer == before && *final(layer) == after && *seen == given && *final(seen) == left
                        && #[trigger] call_ensures(L::on_update, (layer, seen), ()),
                HookCall::Event { before, after, offered, handled, given, left } => exists|
                    layer: &mut L,
                    event: &mut HexgemEvent,
                    seen: &mut W,
                |
                    *layer == before && *final(layer) == after && *event == offered
                        && final(event).consumed() == handled && *seen == given
                        && *final(seen) == left
                        && #[trigger] call_ensures(L::on_event, (layer, event, seen), ()),
                HookCall::Poll { .. } => false,
            },
        0 <= position < before.len(),
        forall|layer: &mut L, event: &mut HexgemEvent, seen: &mut W|
            *layer == before[position] && #[trigger] call_ensures(
                L::on_event,
                (layer, event, seen),
                (),
            ) ==> final(event).consumed(),
    ensures
        trace.len() <= before.len() - position,
        forall|i: int| 0 <= i < position ==> after[i] == before[i],
        trace.len() == before.len() - position ==> outcome.consumed(),
{
    let turn = before.len() - 1 - position;
    if turn < trace.len() {
        assert(is_turn(turn, trace.len()));
        assert(trace[turn] == (HookCall::<W, L>::Event {
            before: before[before.len() - 1 - turn],
            after: after[before.len() - 1 - turn],
            offered,
            handled: turn == trace.len() - 1 && outcome.consumed(),
            given: trace[turn].given(),
            left: trace[turn].left(),
        }));
    }
}

/// Layers that never hand an event back handled all receive an event that
/// comes to their group unhandled, and it leaves the group as it came.
pub proof fn lemma_unhandled_event_reaches_all<W, L: Layer<W>>(
    trace: Seq<HookCall<W, L>>,
    before: Seq<L>,
    after: Seq<L>,
    offered: HexgemEvent,
    outcome: HexgemEvent,
)
    requires
        deliveries(trace, before, after, offered, outcome),
        forall|turn: int|
            #[trigger] is_turn(turn, trace.len()) ==> match trace[turn] {
                HookCall::Update { before, after, given, left } => exists|
                    layer: &mut L,
                    seen: &mut W,
                |
                    *layer == before && *final(layer) == after && *seen == given && *final(seen) == left
                        && #[trigger] call_ensures(L::on_update, (layer, seen), ()),
                HookCall::Event { before, after, offered, handled, given, left } => exists|
                    layer: &mut L,
                    event: &mut HexgemEvent,
                    seen: &mut W,
                |
                    *layer == before && *final(layer) == after && *event == offered
                        && final(event).consumed() == handled && *seen == given
                        && *final(seen) == left
                        && #[trigger] call_ensures(L::on_event, (layer, event, seen), ()),
                HookCall::Poll { .. } => false,
            },
        !offered.consumed(),
        forall|layer: &mut L, event: &mut HexgemEvent, seen: &mut W|
            #[trigger] call_ensures(L::on_event, (layer, event, seen), ()) ==> !final(event).consumed(),
    ensures
        trace.len() == before.len(),
        outcome == offered,
{
    lemma_marking_keeps_the_occurrence(offered, false);
    lemma_marking_keeps_the_occurrence(outcome, false);
    if trace.len() > 0 {
        let turn = trace.len() - 1;
        assert(is_turn(turn, trace.len()));
        assert(trace[turn] == (HookCall::<W, L>::Event {
            before: before[before.len() - 1 - turn],
            after: after[before.len() - 1 - turn],
            offered,
            handled: turn == trace.len() - 1 && outcome.consumed(),
            given: trace[turn].given(),
            left: trace[turn].left(),
        }));
    }
}

/// A layer that never hands an event back handled passes it on: where it
/// receives an event and is not the oldest of its group, the next older
/// layer receives the event too; where it is the oldest, the event leaves
/// the group unhandled.
pub proof fn lemma_passive_layer_passes_on<W, L: Layer<W>>(
    trace: Seq<HookCall<W, L>>,
    before: Seq<L>,
    after: Seq<L>,
    offered: HexgemEvent,
    outcome: HexgemEvent,
    position: int,
)
    requires
        deliveries(trace, before, after, offered, outcome),
        forall|turn: int|
            #[trigger] is_turn(turn, trace.len()) ==> match trace[turn] {
                HookCall::Update { before, after, given, left } => exists|
                    layer: &mut L,
                    seen: &mut W,
                |
                    *layer == before && *final(layer) == after && *seen == given && *final(seen) == left
                        && #[trigger] call_ensures(L::on_update, (layer, seen), ()),
                HookCall::Event { before, after, offered, handled, given, left } => exists|
                    layer: &mut L,
                    event: &mut HexgemEvent,
                    seen: &mut W,
                |
                    *layer == before && *final(layer) == after && *event == offered
                        && final(event).consumed() == handled && *seen == given
                        && *final(seen) == left
                        && #[trigger] call_ensures(L::on_event, (layer, event, seen), ()),
                HookCall::Poll { .. } => false,
            },
        0 <= position < before.len(),
        before.len() - position <= trace.len(),
        forall|layer: &mut L, event: &mut HexgemEvent, seen: &mut W|
            *layer == before[position] && #[trigger] call_ensures(
                L::on_event,
                (layer, event, seen),
                (),
            ) ==> !final(event).consumed(),
    ensures
        position > 0 ==> before.len() - position < trace.len(),
        position == 0 ==> !outcome.consumed(),
{
    let turn = before.len() - 1 - position;
    assert(is_turn(turn, trace.len()));
    assert(trace[turn] == (HookCall::<W, L>::Event {
        before: before[before.len() - 1 - turn],
        after: after[before.len() - 1 - turn],
        offered,
        handled: turn == trace.len() - 1 && outcome.consumed(),
        given: trace[turn].given(),
        left: trace[turn].left(),
    }));
}

/// Layers that never hand an event back handled all receive an event that
/// comes to the stack unhandled, overlays and base layers alike, and it
/// leaves the stack as it came.
pub proof fn lemma_unhandled_event_reaches_every_layer<W, L: Layer<W>>(
    before: LayerStack<L>,
    after: LayerStack<L>,
    offered: HexgemEvent,
    outcome: HexgemEvent,
    delivery: Delivery,
    trace: Seq<HookCall<W, L>>,
)
    requires
        after.delivered(&before, offered, outcome, delivery, trace),
        forall|turn: int|
            #[trigger] is_turn(turn, trace.len()) ==> match trace[turn] {
                HookCall::Update { before, after, given, left } => exists|
                    layer: &mut L,
                    seen: &mut W,
                |
                    *layer == before && *final(layer) == after && *seen == given && *final(seen) == left
                        && #[trigger] call_ensures(L::on_update, (layer, seen), ()),
                HookCall::Event { before, after, offered, handled, given, left } => exists|
                    layer: &mut L,
                    event: &mut HexgemEvent,
                    seen: &mut W,
                |
                    *layer == before && *final(layer) == after && *event == offered
                        && final(event).consumed() == handled && *seen == given
                        && *final(seen) == left
                        && #[trigger] call_ensures(L::on_event, (layer, event, seen), ()),
                HookCall::Poll { .. } => false,
            },
        !offered.consumed(),
        forall|layer: &mut L, event: &mut HexgemEvent, seen: &mut W|
            #[trigger] call_ensures(L::on_event, (layer, event, seen), ()) ==> !final(event).consumed(),
    ensures
        delivery.overlays == before.overlays().len(),
        delivery.base == before.base().len(),
        outcome == offered,
{
    let passed_on = choose|passed_on: HexgemEvent|
        {
            &&& #[trigger] after.handed_down(&before, offered, passed_on, outcome, delivery)
            &&& trace.len() == delivery.total()
            &&& deliveries(
                trace.take(delivery.overlays as int),
                before.overlays(),
                after.overlays(),
                offered,
                passed_on,
            )
            &&& deliveries(
                trace.skip(delivery.overlays as int),
                before.base(),
                after.base(),
                passed_on,
                outcome,
            )
        };
    let first = trace.take(delivery.overlays as int);
    let second = trace.skip(delivery.overlays as int);
    assert(first == trace.subrange(0, delivery.overlays as int));
    assert(second == trace.subrange(delivery.overlays as int, trace.len() as int));
    lemma_layer_calls_part(trace, 0, delivery.overlays as int);
    lemma_layer_calls_part(trace, delivery.overlays as int, trace.len() as int);
    lemma_unhandled_event_reaches_all(first, before.overlays(), after.overlays(), offered, passed_on);
    lemma_unhandled_event_reaches_all(second, before.base(), after.base(), passed_on, outcome);
}

/// An overlay that hands back handled every event it is offered keeps the
/// events from the base layers: an event that comes to the stack unhandled
/// reaches no base layer, and comes out handled.
pub proof fn lemma_overlay_that_handles_shields_base<W, L: Layer<W>>(
    before: LayerStack<L>,
    after: LayerStack<L>,
    offered: HexgemEvent,
    outcome: HexgemEvent,
    delivery: Delivery,
    trace: Seq<HookCall<W, L>>,
    position: int,
)
    requires
        after.delivered(&before, offered, outcome, delivery, trace),
        forall|turn: int|
            #[trigger] is_turn(turn, trace.len()) ==> match trace[turn] {
                HookCall::Update { before, after, given, left } => exists|
                    layer: &mut L,
                    seen: &mut W,
                |
                    *layer == before && *final(layer) == after && *seen == given && *final(seen) == left
                        && #[trigger] call_ensures(L::on_update, (layer, seen), ()),
                HookCall::Event { before, after, offered, handled, given, left } => exists|
                    layer: &mut L,
                    event: &mut HexgemEvent,
                    seen: &mut W,
                |
                    *layer == before && *final(layer) == after && *event == offered
                        && final(event).consumed() == handled && *seen == given
                        && *final(seen) == left
                        && #[trigger] call_ensures(L::on_event, (layer, event, seen), ()),
                HookCall::Poll { .. } => false,
            },
        !offered.consumed(),
        0 <= position < before.overlays().len(),
        forall|layer: &mut L, event: &mut HexgemEvent, seen: &mut W|
            *layer == before.overlays()[position] && #[trigger] call_ensures(
                L::on_event,
                (layer, event, seen),
                (),
            ) ==> final(event).consumed(),
    ensures
        delivery.base == 0,
        after.base() == before.base(),
        outcome.consumed(),
        forall|i: int| 0 <= i < position ==> after.overlays()[i] == before.overlays()[i],
{
    let passed_on = choose|passed_on: HexgemEvent|
        {
            &&& #[trigger] after.handed_down(&before, offered, passed_on, outcome, delivery)
            &&& trace.len() == delivery.total()
            &&& deliveries(
                trace.take(delivery.overlays as int),
                before.overlays(),
                after.overlays(),
                offered,
                passed_on,
            )
            &&& deliveries(
                trace.skip(delivery.overlays as int),
                before.base(),
                after.base(),
                passed_on,
                outcome,
            )
        };
    let first = trace.take(delivery.overlays as int);
    assert(first == trace.subrange(0, delivery.overlays as int));
    lemma_layer_calls_part(trace, 0, delivery.overlays as int);
    lemma_handler_stops_event(
        first,
        before.overlays(),
        after.overlays(),
        offered,
        passed_on,
        position,
    );
    assert(passed_on.consumed());
    assert(after.base() =~= before.base());
}

/// A base layer that hands back handled every event it is offered keeps the
/// events from the base layers that are older than it.
pub proof fn lemma_base_handler_shields_older<W, L: Layer<W>>(
    before: LayerStack<L>,
    after: LayerStack<L>,
    offered: HexgemEvent,
    outcome: HexgemEvent,
    delivery: Delivery,
    trace: Seq<HookCall<W, L>>,
    position: int,
)
    requires
        after.delivered(&before, offered, outcome, delivery, trace),
        forall|turn: int|
            #[trigger] is_turn(turn, trace.len()) ==> match trace[turn] {
                HookCall::Update { before, after, given, left } => exists|
                    layer: &mut L,
                    seen: &mut W,
                |
                    *layer == before && *final(layer) == after && *seen == given && *final(seen) == left
                        && #[trigger] call_ensures(L::on_update, (layer, seen), ()),
                HookCall::Event { before, after, offered, handled, given, left } => exists|
                    layer: &mut L,
                    event: &mut HexgemEvent,
                    seen: &mut W,
                |
                    *layer == before && *final(layer) == after && *event == offered
                        && final(event).consumed() == handled && *seen == given
                        && *final(seen) == left
                        && #[trigger] call_ensures(L::on_event, (layer, event, seen), ()),
                HookCall::Poll { .. } => false,
            },
        0 <= position < before.base().len(),
        forall|layer: &mut L, event: &mut HexgemEvent, seen: &mut W|
            *layer == before.base()[position] && #[trigger] call_ensures(
                L::on_event,
                (layer, event, seen),
                (),
            ) ==> final(event).consumed(),
    ensures
        delivery.base <= before.base().len() - position,
        forall|i: int| 0 <= i < position ==> after.base()[i] == before.base()[i],
        delivery.base == before.base().len() - position ==> outcome.consumed(),
{
    let passed_on = choose|passed_on: HexgemEvent|
        {
            &&& #[trigger] after.handed_down(&before, offered, passed_on, outcome, delivery)
            &&& trace.len() == delivery.total()
            &&& deliveries(
                trace.take(delivery.overlays as int),
                before.overlays(),
                after.overlays(),
                offered,
                passed_on,
            )
            &&& deliveries(
                trace.skip(delivery.overlays as int),
                before.base(),
                after.base(),
                passed_on,
                outcome,
            )
        };
    let second = trace.skip(delivery.overlays as int);
    assert(second == trace.subrange(delivery.overlays as int, trace.len() as int));
    lemma_layer_calls_part(trace, delivery.overlays as int, trace.len() as int);
    lemma_handler_stops_event(second, before.base(), after.base(), passed_on, outcome, position);
}

/// The layer that was pushed last is the one that is popped first, and
/// popping it leaves the group as it was before the push.
pub proof fn lemma_push_pop_is_lifo<L>(group: Seq<L>, layer: L)
    ensures
        group.push(layer).len() > 0,
        group.push(layer).last() == layer,
        group.push(layer).drop_last() == group,
{
    assert(group.push(layer).drop_last() =~= group);
}

} // verus!
