use crate::event::HexgemEvent;
use crate::layer::Layer;
use crate::window::Window;
use vstd::prelude::*;

verus! {

/// Whether `turn` is one of `count` turns, numbered from 0.
pub open spec fn is_turn(turn: int, count: nat) -> bool {
    0 <= turn < count
}

/// One call of a hook, as the engine makes it: the layer and the window as
/// they went in and as they came out, and what else the hook was handed or
/// gave back.
///
/// The contracts of the engine tell what it did as a list of such calls, in
/// the order in which it made them. Each call of the list is one that the
/// hook can make: its outcome is one that the hook's own contract allows.
pub enum HookCall<W, L> {
    /// `on_update` of a layer.
    Update { before: L, after: L, given: W, left: W },
    /// `on_event` of a layer, which was offered `offered` and handed it back
    /// handled or not.
    Event { before: L, after: L, offered: HexgemEvent, handled: bool, given: W, left: W },
    /// `on_update` of the window, which reported `polled`.
    Poll { given: W, left: W, polled: Vec<HexgemEvent> },
}

impl<W, L> HookCall<W, L> {
    /// The window as the hook was handed it.
    pub open spec fn given(self) -> W {
        match self {
            HookCall::Update { given, .. } => given,
            HookCall::Event { given, .. } => given,
            HookCall::Poll { given, .. } => given,
        }
    }

    /// The window as the hook left it.
    pub open spec fn left(self) -> W {
        match self {
            HookCall::Update { left, .. } => left,
            HookCall::Event { left, .. } => left,
            HookCall::Poll { left, .. } => left,
        }
    }
}

/// Whether the calls of `trace` hand the window on from one to the next,
/// from `first` to `last`.
pub open spec fn chained<W, L>(trace: Seq<HookCall<W, L>>, first: W, last: W) -> bool {
    if trace.len() == 0 {
        first == last
    } else {
        &&& trace[0].given() == first
        &&& trace[trace.len() - 1].left() == last
        &&& forall|turn: int|
            0 <= turn < trace.len() - 1 ==> (#[trigger] trace[turn]).left() == trace[turn
                + 1].given()
    }
}

/// Two lists of calls that hand the window on, the second from where the
/// first has left it, hand it on when put together.
pub proof fn lemma_chained_concat<W, L>(
    first: Seq<HookCall<W, L>>,
    second: Seq<HookCall<W, L>>,
    start: W,
    middle: W,
    end: W,
)
    requires
        chained(first, start, middle),
        chained(second, middle, end),
    ensures
        chained(first + second, start, end),
{
    let whole = first + second;
    if first.len() == 0 {
        assert(whole =~= second);
    } else if second.len() == 0 {
        assert(whole =~= first);
    } else {
        assert forall|turn: int| 0 <= turn < whole.len() - 1 implies (#[trigger] whole[turn]).left()
            == whole[turn + 1].given() by {
            if turn < first.len() - 1 {
                assert(first[turn].left() == first[turn + 1].given());
            } else if turn == first.len() - 1 {
                assert(whole[turn + 1] == second[0]);
            } else {
                assert(second[turn - first.len()].left() == second[turn - first.len()
                    + 1].given());
            }
        }
    }
}

/// Calls of layers that their hooks can make stay such when two lists of
/// them are put together.
pub proof fn lemma_layer_calls_concat<W, L: Layer<W>>(
    first: Seq<HookCall<W, L>>,
    second: Seq<HookCall<W, L>>,
)
    requires
        forall|turn: int|
            #[trigger] is_turn(turn, first.len()) ==> match first[turn] {
                HookCall::Update { before, after, given, left } => exists|
                    layer: &mut L,
                    seen: &mut W,
                |
                    *layer == before && *final(layer) == after && *seen == given && *final(seen) == left
                        && #[trigger] call_ensures(L::on_update, (layer, seen), ()),
                HookCall::Event { before, after, offered, handled, given, left } => exists|
                    layer: &mut L,
                    event: &mut HexgemEvent,
                    seen: &mut W,
                |
                    *layer == before && *final(layer) == after && *event == offered
                        && final(event).consumed() == handled && *seen == given
                        && *final(seen) == left
                        && #[trigger] call_ensures(L::on_event, (layer, event, seen), ()),
                HookCall::Poll { .. } => false,
            },
        forall|turn: int|
            #[trigger] is_turn(turn, second.len()) ==> match second[turn] {
                HookCall::Update { before, after, given, left } => exists|
                    layer: &mut L,
                    seen: &mut W,
                |
                    *layer == before && *final(layer) == after && *seen == given && *final(seen) == left
                        && #[trigger] call_ensures(L::on_update, (layer, seen), ()),
                HookCall::Event { before, after, offered, handled, given, left } => exists|
                    layer: &mut L,
                    event: &mut HexgemEvent,
                    seen: &mut W,
                |
                    *layer == before && *final(layer) == after && *event == offered
                        && final(event).consumed() == handled && *seen == given
                        && *final(seen) == left
                        && #[trigger] call_ensures(L::on_event, (layer, event, seen), ()),
                HookCall::Poll { .. } => false,
            },
    ensures
        forall|turn: int|
            #[trigger] is_turn(turn, (first + second).len()) ==> match (first + second)[turn] {
                HookCall::Update { before, after, given, left } => exists|
                    layer: &mut L,
                    seen: &mut W,
                |
                    *layer == before && *final(layer) == after && *seen == given && *final(seen) == left
                        && #[trigger] call_ensures(L::on_update, (layer, seen), ()),
                HookCall::Event { before, after, offered, handled, given, left } => exists|
                    layer: &mut L,
                    event: &mut HexgemEvent,
                    seen: &mut W,
                |
                    *layer == before && *final(layer) == after && *event == offered
                        && final(event).consumed() == handled && *seen == given
                        && *final(seen) == left
                        && #[trigger] call_ensures(L::on_event, (layer, event, seen), ()),
                HookCall::Poll { .. } => false,
            },
{
    let whole = first + second;
    assert forall|turn: int| #[trigger] is_turn(turn, whole.len()) implies match whole[turn] {
            HookCall::Update { before, after, given, left } => exists|
                layer: &mut L,
                seen: &mut W,
            |
                *layer == before && *final(layer) == after && *seen == given && *final(seen) == left
                    && #[trigger] call_ensures(L::on_update, (layer, seen), ()),
            HookCall::Event { before, after, offered, handled, given, left } => exists|
                layer: &mut L,
                event: &mut HexgemEvent,
                seen: &mut W,
            |
                *layer == before && *final(layer) == after && *event == offered
                    && final(event).consumed() == handled && *seen == given
                    && *final(seen) == left
                    && #[trigger] call_ensures(L::on_event, (layer, event, seen), ()),
            HookCall::Poll { .. } => false,
        } by {
        if turn < first.len() {
            assert(is_turn(turn, first.len()));
            assert(whole[turn] == first[turn]);
        } else {
            assert(is_turn(turn - first.len(), second.len()));
            assert(whole[turn] == second[turn - first.len()]);
        }
    }
}

/// Calls that the hooks can make stay such when two lists of them are put
/// together.
pub proof fn lemma_calls_concat<W: Window, L: Layer<W>>(
    first: Seq<HookCall<W, L>>,
    second: Seq<HookCall<W, L>>,
)
    requires
        forall|turn: int|
            #[trigger] is_turn(turn, first.len()) ==> match first[turn] {
                HookCall::Update { before, after, given, left } => exists|
                    layer: &mut L,
                    seen: &mut W,
                |
                    *layer == before && *final(layer) == after && *seen == given && *final(seen) == left
                        && #[trigger] call_ensures(L::on_update, (layer, seen), ()),
                HookCall::Event { before, after, offered, handled, given, left } => exists|
                    layer: &mut L,
                    event: &mut HexgemEvent,
                    seen: &mut W,
                |
                    *layer == before && *final(layer) == after && *event == offered
                        && final(event).consumed() == handled && *seen == given
                        && *final(seen) == left
                        && #[trigger] call_ensures(L::on_event, (layer, event, seen), ()),
                HookCall::Poll { given, left, polled } => exists|window: &mut W|
                    *window == given && *final(window) == left && #[trigger] call_ensures(
                        W::on_update,
                        (window,),
                        polled,
                    ),
            },
        forall|turn: int|
            #[trigger] is_turn(turn, second.len()) ==> match second[turn] {
                HookCall::Update { before, after, given, left } => exists|
                    layer: &mut L,
                    seen: &mut W,
                |
                    *layer == before && *final(layer) == after && *seen == given && *final(seen) == left
                        && #[trigger] call_ensures(L::on_update, (layer, seen), ()),
                HookCall::Event { before, after, offered, handled, given, left } => exists|
                    layer: &mut L,
                    event: &mut HexgemEvent,
                    seen: &mut W,
                |
                    *layer == before && *final(layer) == after && *event == offered
                        && final(event).consumed() == handled && *seen == given
                        && *final(seen) == left
                        && #[trigger] call_ensures(L::on_event, (layer, event, seen), ()),
                HookCall::Poll { given, left, polled } => exists|window: &mut W|
                    *window == given && *final(window) == left && #[trigger] call_ensures(
                        W::on_update,
                        (window,),
                        polled,
                    ),
            },
    ensures
        forall|turn: int|
            #[trigger] is_turn(turn, (first + second).len()) ==> match (first + second)[turn] {
                HookCall::Update { before, after, given, left } => exists|
                    layer: &mut L,
                    seen: &mut W,
                |
                    *layer == before && *final(layer) == after && *seen == given && *final(seen) == left
                        && #[trigger] call_ensures(L::on_update, (layer, seen), ()),
                HookCall::Event { before, after, offered, handled, given, left } => exists|
                    layer: &mut L,
                    event: &mut HexgemEvent,
                    seen: &mut W,
                |
                    *layer == before && *final(layer) == after && *event == offered
                        && final(event).consumed() == handled && *seen == given
                        && *final(seen) == left
                        && #[trigger] call_ensures(L::on_event, (layer, event, seen), ()),
                HookCall::Poll { given, left, polled } => exists|window: &mut W|
                    *window == given && *final(window) == left && #[trigger] call_ensures(
                        W::on_update,
                        (window,),
                        polled,
                    ),
            },
{
    let whole = first + second;
    assert forall|turn: int| #[trigger] is_turn(turn, whole.len()) implies match whole[turn] {
            HookCall::Update { before, after, given, left } => exists|
                layer: &mut L,
                seen: &mut W,
            |
                *layer == before && *final(layer) == after && *seen == given && *final(seen) == left
                    && #[trigger] call_ensures(L::on_update, (layer, seen), ()),
            HookCall::Event { before, after, offered, handled, given, left } => exists|
                layer: &mut L,
                event: &mut HexgemEvent,
                seen: &mut W,
            |
                *layer == before && *final(layer) == after && *event == offered
                    && final(event).consumed() == handled && *seen == given
                    && *final(seen) == left
                    && #[trigger] call_ensures(L::on_event, (layer, event, seen), ()),
            HookCall::Poll { given, left, polled } => exists|window: &mut W|
                *window == given && *final(window) == left && #[trigger] call_ensures(
                    W::on_update,
                    (window,),
                    polled,
                ),
        } by {
        if turn < first.len() {
            assert(is_turn(turn, first.len()));
            assert(whole[turn] == first[turn]);
        } else {
            assert(is_turn(turn - first.len(), second.len()));
            assert(whole[turn] == second[turn - first.len()]);
        }
    }
}

/// A call that a layer's hook can make is one that the hooks can make.
pub proof fn lemma_layer_calls_are_calls<W: Window, L: Layer<W>>(trace: Seq<HookCall<W, L>>)
    requires
        forall|turn: int|
            #[trigger] is_turn(turn, trace.len()) ==> match trace[turn] {
                HookCall::Update { before, after, given, left } => exists|
                    layer: &mut L,
                    seen: &mut W,
                |
                    *layer == before && *final(layer) == after && *seen == given && *final(seen) == left
                        && #[trigger] call_ensures(L::on_update, (layer, seen), ()),
                HookCall::Event { before, after, offered, handled, given, left } => exists|
                    layer: &mut L,
                    event: &mut HexgemEvent,
                    seen: &mut W,
                |
                    *layer == before && *final(layer) == after && *event == offered
                        && final(event).consumed() == handled && *seen == given
                        && *final(seen) == left
                        && #[trigger] call_ensures(L::on_event, (layer, event, seen), ()),
                HookCall::Poll { .. } => false,
            },
    ensures
        forall|turn: int|
            #[trigger] is_turn(turn, trace.len()) ==> match trace[turn] {
                HookCall::Update { before, after, given, left } => exists|
                    layer: &mut L,
                    seen: &mut W,
                |
                    *layer == before && *final(layer) == after && *seen == given && *final(seen) == left
                        && #[trigger] call_ensures(L::on_update, (layer, seen), ()),
                HookCall::Event { before, after, offered, handled, given, left } => exists|
                    layer: &mut L,
                    event: &mut HexgemEvent,
                    seen: &mut W,
                |
                    *layer == before && *final(layer) == after && *event == offered
                        && final(event).consumed() == handled && *seen == given
                        && *final(seen) == left
                        && #[trigger] call_ensures(L::on_event, (layer, event, seen), ()),
                HookCall::Poll { given, left, polled } => exists|window: &mut W|
                    *window == given && *final(window) == left && #[trigger] call_ensures(
                        W::on_update,
                        (window,),
                        polled,
                    ),
            },
{
    assert forall|turn: int| #[trigger] is_turn(turn, trace.len()) implies match trace[turn] {
            HookCall::Update { before, after, given, left } => exists|
                layer: &mut L,
                seen: &mut W,
            |
                *layer == before && *final(layer) == after && *seen == given && *final(seen) == left
                    && #[trigger] call_ensures(L::on_update, (layer, seen), ()),
            HookCall::Event { before, after, offered, handled, given, left } => exists|
                layer: &mut L,
                event: &mut HexgemEvent,
                seen: &mut W,
            |
                *layer == before && *final(layer) == after && *event == offered
                    && final(event).consumed() == handled && *seen == given
                    && *final(seen) == left
                    && #[trigger] call_ensures(L::on_event, (layer, event, seen), ()),
            HookCall::Poll { given, left, polled } => exists|window: &mut W|
                *window == given && *final(window) == left && #[trigger] call_ensures(
                    W::on_update,
                    (window,),
                    polled,
                ),
        } by {
        assert(is_turn(turn, trace.len()));
    }
}

/// Calls of layers that their hooks can make stay such in every part of their
/// list.
pub proof fn lemma_layer_calls_part<W, L: Layer<W>>(
    trace: Seq<HookCall<W, L>>,
    from: int,
    to: int,
)
    requires
        0 <= from <= to <= trace.len(),
        forall|turn: int|
            #[trigger] is_turn(turn, trace.len()) ==> match trace[turn] {
                HookCall::Update { before, after, given, left } => exists|
                    layer: &mut L,
                    seen: &mut W,
                |
                    *layer == before && *final(layer) == after && *seen == given && *final(seen) == left
                        && #[trigger] call_ensures(L::on_update, (layer, seen), ()),
                HookCall::Event { before, after, offered, handled, given, left } => exists|
                    layer: &mut L,
                    event: &mut HexgemEvent,
                    seen: &mut W,
                |
                    *layer == before && *final(layer) == after && *event == offered
                        && final(event).consumed() == handled && *seen == given
                        && *final(seen) == left
                        && #[trigger] call_ensures(L::on_event, (layer, event, seen), ()),
                HookCall::Poll { .. } => false,
            },
    ensures
        forall|turn: int|
            #[trigger] is_turn(turn, trace.subrange(from, to).len()) ==> match trace.subrange(from, to)[turn] {
                HookCall::Update { before, after, given, left } => exists|
                    layer: &mut L,
                    seen: &mut W,
                |
                    *layer == before && *final(layer) == after && *seen == given && *final(seen) == left
                        && #[trigger] call_ensures(L::on_update, (layer, seen), ()),
                HookCall::Event { before, after, offered, handled, given, left } => exists|
                    layer: &mut L,
                    event: &mut HexgemEvent,
                    seen: &mut W,
                |
                    *layer == before && *final(layer) == after && *event == offered
                        && final(event).consumed() == handled && *seen == given
                        && *final(seen) == left
                        && #[trigger] call_ensures(L::on_event, (layer, event, seen), ()),
                HookCall::Poll { .. } => false,
            },
{
    let part = trace.subrange(from, to);
    assert forall|turn: int| #[trigger] is_turn(turn, part.len()) implies match part[turn] {
            HookCall::Update { before, after, given, left } => exists|
                layer: &mut L,
                seen: &mut W,
            |
                *layer == before && *final(layer) == after && *seen == given && *final(seen) == left
                    && #[trigger] call_ensures(L::on_update, (layer, seen), ()),
            HookCall::Event { before, after, offered, handled, given, left } => exists|
                layer: &mut L,
                event: &mut HexgemEvent,
                seen: &mut W,
            |
                *layer == before && *final(layer) == after && *event == offered
                    && final(event).consumed() == handled && *seen == given
                    && *final(seen) == left
                    && #[trigger] call_ensures(L::on_event, (layer, event, seen), ()),
            HookCall::Poll { .. } => false,
        } by {
        assert(is_turn(turn + from, trace.len()));
        assert(part[turn] == trace[turn + from]);
    }
}

} // verus!
