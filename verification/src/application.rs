use crate::application_event::WindowCloseEvent;
use crate::event::{Event, EventDispatcher, EventType, HexgemEvent, NoneEvent};
use crate::hexgem_types::{Key, Mod};
use crate::key_event::KeyboardEvent;
use crate::layer::Layer;
use crate::hook_call::{
    chained, is_turn, lemma_calls_concat, lemma_chained_concat, lemma_layer_calls_are_calls,
    lemma_layer_calls_concat, HookCall,
};
use crate::layer_stack::{Delivery, LayerStack};
use crate::window::{Window, WindowProps};
use crate::window_types::{lemma_sdl_gui_held, sdl_holds, GlfwEvent, SdlEvent, SdlWindowEvent};
use vstd::prelude::*;

verus! {

/// Whether `event` is the keyboard's way of asking the application to quit:
/// the key Q going down while a Gui key is held.
pub open spec fn is_quit_chord(event: KeyboardEvent) -> bool {
    event.pressed && event.modifiers.spec_has(Mod::Gui) && event.key == Key::Q
}

/// Whether `event` asks the application to stop: a request to close the
/// window, or the quit chord.
pub open spec fn requests_quit(event: HexgemEvent) -> bool {
    match event {
        HexgemEvent::WindowClose(_) => true,
        HexgemEvent::Keyboard(payload) => is_quit_chord(payload),
        _ => false,
    }
}

/// The event as the application hands it on to its layers: a request to
/// close the window is the application's own business and counts as handled.
pub open spec fn handed_to_layers(event: HexgemEvent) -> HexgemEvent {
    if event.kind() == EventType::WindowClose {
        event.marked(true)
    } else {
        event
    }
}

/// Whether none of the events of `events` asks the application to stop.
pub open spec fn none_requests_quit(events: Seq<HexgemEvent>) -> bool {
    forall|i: int| 0 <= i < events.len() ==> !requests_quit(#[trigger] events[i])
}

/// The events that a frame deals with: what the window reported, or one
/// empty event where it reported nothing.
pub open spec fn frame_events(polled: Seq<HexgemEvent>) -> Seq<HexgemEvent> {
    if polled.len() == 0 {
        seq![HexgemEvent::Empty(NoneEvent { handled: false })]
    } else {
        polled
    }
}

/// Whether `trace` is the dealing with `events`, oldest first, that takes
/// the layers from `before` to `after` and the window from `first` to
/// `last`: each event in its turn is offered to the layers in event order,
/// as the application hands it on, whatever the events before it asked for.
pub open spec fn dealt_with<W, L>(
    trace: Seq<HookCall<W, L>>,
    before: LayerStack<L>,
    after: LayerStack<L>,
    first: W,
    last: W,
    events: Seq<HexgemEvent>,
) -> bool
    decreases events.len(),
{
    if events.len() == 0 {
        trace.len() == 0 && after == before && last == first
    } else {
        exists|cut: int, middle: LayerStack<L>, passed: W, outcome: HexgemEvent, delivery: Delivery|
            {
                &&& 0 <= cut <= trace.len()
                &&& dealt_with(
                    trace.take(cut),
                    before,
                    middle,
                    first,
                    passed,
                    events.drop_last(),
                )
                &&& #[trigger] after.delivered(
                    &middle,
                    handed_to_layers(events.last()),
                    outcome,
                    delivery,
                    trace.skip(cut),
                )
                &&& #[trigger] chained(trace.skip(cut), passed, last)
            }
    }
}

/// One window, the layers that live in it, and the flag that keeps the
/// frame loop going.
pub struct Application<W, L> {
    pub window: Option<W>,
    layer_stack: LayerStack<L>,
    running: bool,
}

impl<W: Window, L: Layer<W>> Application<W, L> {
    /// The window, unless it has been taken out.
    pub closed spec fn window(&self) -> Option<W> {
        self.window
    }

    /// The layers.
    pub closed spec fn stack(&self) -> LayerStack<L> {
        self.layer_stack
    }

    /// Whether the frame loop is to go on.
    pub closed spec fn running(&self) -> bool {
        self.running
    }

    /// The turn at which the window is polled in a turn of the frame loop:
    /// the one after the updates of all layers.
    pub open spec fn poll_turn(&self) -> int {
        self.stack().update_order().len() as int
    }

    /// Whether `trace` is one turn of the frame loop that takes the
    /// application from `before` to this: every layer is updated once, in
    /// update order; the window is then polled; and what it reported is
    /// dealt with, so that the application goes on exactly if it was running
    /// and nothing that the window reported asks it to stop.
    pub open spec fn turned(&self, before: &Self, trace: Seq<HookCall<W, L>>) -> bool {
        &&& before.window() is Some
        &&& self.window() is Some
        &&& trace.len() > before.poll_turn()
        &&& exists|updated: LayerStack<L>, polled: Vec<HexgemEvent>|
            {
                &&& #[trigger] updated.updated(&before.stack(), trace.take(before.poll_turn()))
                &&& chained(
                    trace.take(before.poll_turn()),
                    before.window()->0,
                    trace[before.poll_turn()].given(),
                )
                &&& trace[before.poll_turn()] == (HookCall::<W, L>::Poll {
                    given: trace[before.poll_turn()].given(),
                    left: trace[before.poll_turn()].left(),
                    polled,
                })
                &&& #[trigger] dealt_with(
                    trace.skip(before.poll_turn() + 1),
                    updated,
                    self.stack(),
                    trace[before.poll_turn()].left(),
                    self.window()->0,
                    frame_events(polled@),
                )
                &&& self.running() == (before.running() && none_requests_quit(polled@))
            }
    }

    /// Whether `trace` is `frames` turns of the frame loop, one after the
    /// other, that take the application from `before` to this, each of them
    /// begun while the application was running.
    pub open spec fn ran(&self, before: &Self, frames: nat, trace: Seq<HookCall<W, L>>) -> bool
        decreases frames,
    {
        if frames == 0 {
            trace.len() == 0 && self == before
        } else {
            exists|cut: int, middle: Self|
                {
                    &&& 0 <= cut <= trace.len()
                    &&& middle.ran(before, (frames - 1) as nat, trace.take(cut))
                    &&& middle.running()
                    &&& #[trigger] self.turned(&middle, trace.skip(cut))
                }
        }
    }

    /// An application that runs, with a freshly opened window of the default
    /// size and title and without layers.
    pub fn create() -> (application: Self)
        ensures
            application.running(),
            application.window() is Some,
            application.stack().overlays() == Seq::<L>::empty(),
            application.stack().base() == Seq::<L>::empty(),
            exists|props: WindowProps|
                {
                    &&& props.title@ == "HexgemApp"@
                    &&& props.width == 1280
                    &&& props.height == 720
                    &&& #[trigger] call_ensures(W::create, (props,), application.window()->0)
                },
    {
        Self::create_with(WindowProps::default())
    }

    /// An application that runs, with a freshly opened window made to
    /// `props` and without layers.
    pub fn create_with(props: WindowProps) -> (application: Self)
        ensures
            application.running(),
            application.window() is Some,
            application.stack().overlays() == Seq::<L>::empty(),
            application.stack().base() == Seq::<L>::empty(),
            call_ensures(W::create, (props,), application.window()->0),
    {
        let window = Some(W::create(props));
        let layer_stack = LayerStack::create();
        Self { layer_stack, running: true, window }
    }

    /// Attaches `layer`, by one call of its `on_attach`, and puts it on top
    /// of the base layers as the call has left it.
    pub fn push_layer(&mut self, layer: L)
        ensures
            final(self).stack().base().len() == old(self).stack().base().len() + 1,
            final(self).stack().base().drop_last() == old(self).stack().base(),
            final(self).stack().overlays() == old(self).stack().overlays(),
            final(self).running() == old(self).running(),
            final(self).window() == old(self).window(),
            exists|attached: &mut L|
                {
                    &&& *attached == layer
                    &&& #[trigger] call_ensures(L::on_attach, (attached,), ())
                    &&& final(self).stack().base().last() == *final(attached)
                },
    {
        let mut layer = layer;
        let attached: &mut L = &mut layer;
        attached.on_attach();
        self.layer_stack.push_layer(layer);
        assert(self.layer_stack.base().drop_last() =~= old(self).layer_stack.base());
    }

    /// Attaches `layer`, by one call of its `on_attach`, and puts it on top
    /// of the overlays as the call has left it.
    pub fn push_overlay(&mut self, layer: L)
        ensures
            final(self).stack().overlays().len() == old(self).stack().overlays().len() + 1,
            final(self).stack().overlays().drop_last() == old(self).stack().overlays(),
            final(self).stack().base() == old(self).stack().base(),
            final(self).running() == old(self).running(),
            final(self).window() == old(self).window(),
            exists|attached: &mut L|
                {
                    &&& *attached == layer
                    &&& #[trigger] call_ensures(L::on_attach, (attached,), ())
                    &&& final(self).stack().overlays().last() == *final(attached)
                },
    {
        let mut layer = layer;
        let attached: &mut L = &mut layer;
        attached.on_attach();
        self.layer_stack.push_overlay(layer);
        assert(self.layer_stack.overlays().drop_last() =~= old(self).layer_stack.overlays());
    }

    /// Takes the newest base layer off, if there is one, detaches it by one
    /// call of its `on_detach`, and hands it out as the call has left it.
    pub fn pop_layer(&mut self) -> (popped: Option<L>)
        ensures
            popped is Some == (old(self).stack().base().len() > 0),
            popped is Some ==> final(self).stack().base() == old(self).stack().base().drop_last(),
            popped is None ==> final(self).stack().base() == old(self).stack().base(),
            final(self).stack().overlays() == old(self).stack().overlays(),
            final(self).running() == old(self).running(),
            final(self).window() == old(self).window(),
            popped matches Some(handed_out) ==> exists|detached: &mut L|
                {
                    &&& *detached == old(self).stack().base().last()
                    &&& #[trigger] call_ensures(L::on_detach, (detached,), ())
                    &&& handed_out == *final(detached)
                },
    {
        match self.layer_stack.pop_layer() {
            Some(layer) => {
                let mut layer = layer;
                let detached: &mut L = &mut layer;
                detached.on_detach();
                Some(layer)
            },
            None => None,
        }
    }

    /// Takes the newest overlay off, if there is one, detaches it by one call
    /// of its `on_detach`, and hands it out as the call has left it.
    pub fn pop_overlay(&mut self) -> (popped: Option<L>)
        ensures
            popped is Some == (old(self).stack().overlays().len() > 0),
            popped is Some ==> final(self).stack().overlays() == old(
                self).stack().overlays().drop_last(),
            popped is None ==> final(self).stack().overlays() == old(self).stack().overlays(),
            final(self).stack().base() == old(self).stack().base(),
            final(self).running() == old(self).running(),
            final(self).window() == old(self).window(),
            popped matches Some(handed_out) ==> exists|detached: &mut L|
                {
                    &&& *detached == old(self).stack().overlays().last()
                    &&& #[trigger] call_ensures(L::on_detach, (detached,), ())
                    &&& handed_out == *final(detached)
                },
    {
        match self.layer_stack.pop_overlay() {
            Some(layer) => {
                let mut layer = layer;
                let detached: &mut L = &mut layer;
                detached.on_detach();
                Some(layer)
            },
            None => None,
        }
    }

    /// Whether the frame loop is to go on.
    pub fn is_running(&self) -> (running: bool)
        ensures
            running == self.running(),
    {
        self.running
    }

    /// The layers.
    pub fn layer_stack(&self) -> (stack: &LayerStack<L>)
        ensures
            *stack == self.stack(),
    {
        &self.layer_stack
    }

    /// The window, unless it has been taken out.
    pub fn get_window(&self) -> (window: &Option<W>)
        ensures
            *window == self.window(),
    {
        &self.window
    }

    /// The window, to work on, if the application has one. Whatever is
    /// done to it is done to the application's window.
    pub fn get_mut_window(&mut self) -> (window: Option<&mut W>)
        ensures
            match old(self).window() {
                None => window is None && final(self).window() is None,
                Some(held) => window is Some && *window.unwrap() == held && final(self).window()
                    == Some(*final(window.unwrap())),
            },
            final(self).running() == old(self).running(),
            final(self).stack() == old(self).stack(),
    {
        self.window.as_mut()
    }

    /// Whether `event` is the quit chord.
    pub fn quit_chord(event: &KeyboardEvent) -> (quit: bool)
        ensures
            quit == is_quit_chord(*event),
    {
        event.pressed && event.modifiers.has(Mod::Gui) && event.key == Key::Q
    }

    /// Deals with one event and tells the calls it made.
    fn on_event_traced(&mut self, event: &mut HexgemEvent, window: &mut W) -> (outcome: (
        Delivery,
        Ghost<Seq<HookCall<W, L>>>,
    ))
        ensures
            final(self).running() == (old(self).running() && !requests_quit(*old(event))),
            final(self).window() == old(self).window(),
            final(self).stack().passed_through(
                &old(self).stack(),
                handed_to_layers(*old(event)),
                *final(event),
                outcome.0,
            ),
            final(self).stack().delivered(
                &old(self).stack(),
                handed_to_layers(*old(event)),
                *final(event),
                outcome.0,
                outcome.1@,
            ),
            chained(outcome.1@, *old(window), *final(window)),
            forall|turn: int|
                #[trigger] is_turn(turn, outcome.1@.len()) ==> match outcome.1@[turn] {
                    HookCall::Update { before, after, given, left } => exists|
                        layer: &mut L,
                        seen: &mut W,
                    |
                        *layer == before && *final(layer) == after && *seen == given && *final(seen) == left
                            && #[trigger] call_ensures(L::on_update, (layer, seen), ()),
                    HookCall::Event { before, after, offered, handled, given, left } => exists|
                        layer: &mut L,
                        event: &mut HexgemEvent,
                        seen: &mut W,
                    |
                        *layer == before && *final(layer) == after && *event == offered
                            && final(event).consumed() == handled && *seen == given
                            && *final(seen) == left
                            && #[trigger] call_ensures(L::on_event, (layer, event, seen), ()),
                    HookCall::Poll { .. } => false,
                },
    {
        let quit: bool;
        let closed: bool;
        proof {
            KeyboardEvent::lemma_downcast(*event);
            WindowCloseEvent::lemma_downcast(*event);
        }
        {
            let on_key = |pressed: &KeyboardEvent| -> (answer: Option<bool>)
                ensures
                    answer == Some(is_quit_chord(*pressed)),
                {
                    Some(Self::quit_chord(pressed))
                };
            let on_close = |_closing: &WindowCloseEvent| -> (answer: Option<bool>)
                ensures
                    answer is None,
                {
                    None
                };
            let dispatcher = EventDispatcher::from(&*event);
            quit = dispatcher.dispatch(EventType::KeyPressed, on_key);
            closed = dispatcher.dispatch(EventType::WindowClose, on_close);
        }
        if quit || closed {
            self.running = false;
        }
        if closed {
            event.set_handled();
        }
        self.layer_stack.propagate_traced(event, window)
    }

    /// Deals with one event: the application stops where the event asks for
    /// it, and the layers then get the event in event order, unless it was
    /// a request to close the window.
    ///
    /// Every layer that the event reaches is offered the event as the
    /// application hands it on, and the event stops at the first layer that
    /// hands it back handled.
    pub fn on_event(&mut self, event: &mut HexgemEvent, window: &mut W) -> (delivery: Delivery)
        ensures
            final(self).running() == (old(self).running() && !requests_quit(*old(event))),
            final(self).window() == old(self).window(),
            final(self).stack().passed_through(
                &old(self).stack(),
                handed_to_layers(*old(event)),
                *final(event),
                delivery,
            ),
            delivery.total() == 0 ==> *final(window) == *old(window),
            exists|trace: Seq<HookCall<W, L>>|
                {
                    &&& #[trigger] final(self).stack().delivered(
                        &old(self).stack(),
                        handed_to_layers(*old(event)),
                        *final(event),
                        delivery,
                        trace,
                    )
                    &&& chained(trace, *old(window), *final(window))
                    &&& forall|turn: int|
                        #[trigger] is_turn(turn, trace.len()) ==> match trace[turn] {
                            HookCall::Update { before, after, given, left } => exists|
                                layer: &mut L,
                                seen: &mut W,
                            |
                                *layer == before && *final(layer) == after && *seen == given && *final(seen) == left
                                    && #[trigger] call_ensures(L::on_update, (layer, seen), ()),
                            HookCall::Event { before, after, offered, handled, given, left } => exists|
                                layer: &mut L,
                                event: &mut HexgemEvent,
                                seen: &mut W,
                            |
                                *layer == before && *final(layer) == after && *event == offered
                                    && final(event).consumed() == handled && *seen == given
                                    && *final(seen) == left
                                    && #[trigger] call_ensures(L::on_event, (layer, event, seen), ()),
                            HookCall::Poll { .. } => false,
                        }
                },
    {
        let (delivery, trace) = self.on_event_traced(event, window);
        assert(self.stack().delivered(
            &old(self).stack(),
            handed_to_layers(*old(event)),
            *event,
            delivery,
            trace@,
        ));
        delivery
    }

    /// Deals with the events of one frame and tells the calls it made.
    fn process_traced(&mut self, events: Vec<HexgemEvent>, window: &mut W) -> (trace: Ghost<
        Seq<HookCall<W, L>>,
    >)
        ensures
            final(self).running() == (old(self).running() && none_requests_quit(events@)),
            final(self).window() == old(self).window(),
            final(self).stack().same_shape(&old(self).stack()),
            dealt_with(
                trace@,
                old(self).stack(),
                final(self).stack(),
                *old(window),
                *final(window),
                frame_events(events@),
            ),
            forall|turn: int|
                #[trigger] is_turn(turn, trace@.len()) ==> match trace@[turn] {
                    HookCall::Update { before, after, given, left } => exists|
                        layer: &mut L,
                        seen: &mut W,
                    |
                        *layer == before && *final(layer) == after && *seen == given && *final(seen) == left
                            && #[trigger] call_ensures(L::on_update, (layer, seen), ()),
                    HookCall::Event { before, after, offered, handled, given, left } => exists|
                        layer: &mut L,
                        event: &mut HexgemEvent,
                        seen: &mut W,
                    |
                        *layer == before && *final(layer) == after && *event == offered
                            && final(event).consumed() == handled && *seen == given
                            && *final(seen) == left
                            && #[trigger] call_ensures(L::on_event, (layer, event, seen), ()),
                    HookCall::Poll { .. } => false,
                },
    {
        if events.len() == 0 {
            let mut nothing = NoneEvent::create().into_event();
            let ghost before = self.layer_stack;
            let ghost given = *window;
            let (delivery, trace) = self.on_event_traced(&mut nothing, window);
            proof {
                let one = frame_events(events@);
                let empty = Seq::<HookCall<W, L>>::empty();
                assert(one.drop_last() =~= Seq::<HexgemEvent>::empty());
                assert(trace@.take(0) =~= empty);
                assert(trace@.skip(0) =~= trace@);
                assert(dealt_with(trace@.take(0), before, before, given, given, one.drop_last()));
                assert(self.stack().delivered(
                    &before,
                    handed_to_layers(one.last()),
                    nothing,
                    delivery,
                    trace@.skip(0),
                ));
            }
            trace
        } else {
            let ghost mut trace: Seq<HookCall<W, L>> = Seq::empty();
            let mut i: usize = 0;
            while i < events.len()
                invariant
                    i <= events.len(),
                    events.len() > 0,
                    self.running() == (old(self).running() && none_requests_quit(
                        events@.take(i as int),
                    )),
                    self.window() == old(self).window(),
                    self.stack().same_shape(&old(self).stack()),
                    dealt_with(
                        trace,
                        old(self).stack(),
                        self.stack(),
                        *old(window),
                        *window,
                        events@.take(i as int),
                    ),
                    forall|turn: int|
                        #[trigger] is_turn(turn, trace.len()) ==> match trace[turn] {
                            HookCall::Update { before, after, given, left } => exists|
                                layer: &mut L,
                                seen: &mut W,
                            |
                                *layer == before && *final(layer) == after && *seen == given && *final(seen) == left
                                    && #[trigger] call_ensures(L::on_update, (layer, seen), ()),
                            HookCall::Event { before, after, offered, handled, given, left } => exists|
                                layer: &mut L,
                                event: &mut HexgemEvent,
                                seen: &mut W,
                            |
                                *layer == before && *final(layer) == after && *event == offered
                                    && final(event).consumed() == handled && *seen == given
                                    && *final(seen) == left
                                    && #[trigger] call_ensures(L::on_event, (layer, event, seen), ()),
                            HookCall::Poll { .. } => false,
                        },
                decreases events.len() - i,
            {
                let mut event = events[i];
                let ghost seen = events@.take(i as int);
                let ghost before = self.layer_stack;
                let ghost given = *window;
                let ghost earlier = trace;
                let (delivery, step) = self.on_event_traced(&mut event, window);
                proof {
                    let now = events@.take(i + 1);
                    assert(now.drop_last() =~= seen);
                    assert(now.last() == events@[i as int]);
                    if none_requests_quit(now) {
                        assert forall|j: int| 0 <= j < seen.len() implies !requests_quit(
                            #[trigger] seen[j],
                        ) by {
                            assert(seen[j] == now[j]);
                        }
                        assert(!requests_quit(now[i as int]));
                    }
                    if none_requests_quit(seen) && !requests_quit(events@[i as int]) {
                        assert forall|j: int| 0 <= j < now.len() implies !requests_quit(
                            #[trigger] now[j],
                        ) by {
                            if j < i {
                                assert(now[j] == seen[j]);
                            }
                        }
                    }
                    trace = earlier + step@;
                    let cut = earlier.len() as int;
                    assert(trace.take(cut) =~= earlier);
                    assert(trace.skip(cut) =~= step@);
                    assert(dealt_with(
                        trace.take(cut),
                        old(self).stack(),
                        before,
                        *old(window),
                        given,
                        now.drop_last(),
                    ));
                    assert(self.stack().delivered(
                        &before,
                        handed_to_layers(now.last()),
                        event,
                        delivery,
                        trace.skip(cut),
                    ));
                    assert(chained(trace.skip(cut), given, *window));
                    assert(dealt_with(
                        trace,
                        old(self).stack(),
                        self.stack(),
                        *old(window),
                        *window,
                        now,
                    ));
                    lemma_layer_calls_concat(earlier, step@);
                }
                i += 1;
            }
            assert(events@.take(events@.len() as int) =~= events@);
            Ghost(trace)
        }
    }

    /// Deals with the events of one frame, oldest first: each of them in its
    /// turn is offered to the layers as `on_event` does it. A frame in which
    /// nothing happened counts as one event of kind `NoEvent`, so that the
    /// layers hear of every frame.
    ///
    /// A request to stop does not cut the frame short: the events that come
    /// after it are still dealt with.
    pub fn process_events(&mut self, events: Vec<HexgemEvent>, window: &mut W)
        ensures
            final(self).running() == (old(self).running() && none_requests_quit(events@)),
            final(self).window() == old(self).window(),
            final(self).stack().same_shape(&old(self).stack()),
            exists|trace: Seq<HookCall<W, L>>|
                {
                    &&& #[trigger] dealt_with(
                        trace,
                        old(self).stack(),
                        final(self).stack(),
                        *old(window),
                        *final(window),
                        frame_events(events@),
                    )
                    &&& forall|turn: int|
                        #[trigger] is_turn(turn, trace.len()) ==> match trace[turn] {
                            HookCall::Update { before, after, given, left } => exists|
                                layer: &mut L,
                                seen: &mut W,
                            |
                                *layer == before && *final(layer) == after && *seen == given && *final(seen) == left
                                    && #[trigger] call_ensures(L::on_update, (layer, seen), ()),
                            HookCall::Event { before, after, offered, handled, given, left } => exists|
                                layer: &mut L,
                                event: &mut HexgemEvent,
                                seen: &mut W,
                            |
                                *layer == before && *final(layer) == after && *event == offered
                                    && final(event).consumed() == handled && *seen == given
                                    && *final(seen) == left
                                    && #[trigger] call_ensures(L::on_event, (layer, event, seen), ()),
                            HookCall::Poll { .. } => false,
                        }
                },
    {
        let trace = self.process_traced(events, window);
        assert(dealt_with(
            trace@,
            old(self).stack(),
            self.stack(),
            *old(window),
            *window,
            frame_events(events@),
        ));
    }

    /// Takes one turn of the frame loop and tells the calls it made.
    fn frame_traced(&mut self) -> (trace: Ghost<Seq<HookCall<W, L>>>)
        ensures
            final(self).window() is Some == old(self).window() is Some,
            final(self).stack().same_shape(&old(self).stack()),
            final(self).running() ==> old(self).running(),
            old(self).window() is None ==> *final(self) == *old(self) && trace@.len() == 0,
            old(self).window() is Some ==> final(self).turned(old(self), trace@),
            forall|turn: int|
                #[trigger] is_turn(turn, trace@.len()) ==> match trace@[turn] {
                    HookCall::Update { before, after, given, left } => exists|
                        layer: &mut L,
                        seen: &mut W,
                    |
                        *layer == before && *final(layer) == after && *seen == given && *final(seen) == left
                            && #[trigger] call_ensures(L::on_update, (layer, seen), ()),
                    HookCall::Event { before, after, offered, handled, given, left } => exists|
                        layer: &mut L,
                        event: &mut HexgemEvent,
                        seen: &mut W,
                    |
                        *layer == before && *final(layer) == after && *event == offered
                            && final(event).consumed() == handled && *seen == given
                            && *final(seen) == left
                            && #[trigger] call_ensures(L::on_event, (layer, event, seen), ()),
                    HookCall::Poll { given, left, polled } => exists|window: &mut W|
                        *window == given && *final(window) == left && #[trigger] call_ensures(
                            W::on_update,
                            (window,),
                            polled,
                        ),
                },
    {
        match self.window.take() {
            Some(window) => {
                let mut window = window;
                let ghost given = window;
                let first = self.layer_stack.update_traced(&mut window);
                let ghost updated = self.layer_stack;
                let ghost before_poll = window;
                let polling: &mut W = &mut window;
                let events = polling.on_update();
                let ghost after_poll = window;
                let ghost polled = events;
                let ghost poll = HookCall::<W, L>::Poll {
                    given: before_poll,
                    left: after_poll,
                    polled,
                };
                assert(exists|window: &mut W|
                    *window == before_poll && *final(window) == after_poll
                        && #[trigger] call_ensures(W::on_update, (window,), polled));
                assert(poll matches HookCall::Poll { given: g, left: l, polled: p } && g
                    == before_poll && l == after_poll && p == polled);
                assert(poll matches HookCall::Poll { given: g, left: l, polled: p } && (exists|
                    window: &mut W,
                |
                    *window == g && *final(window) == l && #[trigger] call_ensures(
                        W::on_update,
                        (window,),
                        p,
                    )));
                assert(match poll {
                    HookCall::Update { before, after, given, left } => exists|
                        layer: &mut L,
                        seen: &mut W,
                    |
                        *layer == before && *final(layer) == after && *seen == given && *final(seen) == left
                            && #[trigger] call_ensures(L::on_update, (layer, seen), ()),
                    HookCall::Event { before, after, offered, handled, given, left } => exists|
                        layer: &mut L,
                        event: &mut HexgemEvent,
                        seen: &mut W,
                    |
                        *layer == before && *final(layer) == after && *event == offered
                            && final(event).consumed() == handled && *seen == given
                            && *final(seen) == left
                            && #[trigger] call_ensures(L::on_event, (layer, event, seen), ()),
                    HookCall::Poll { given, left, polled } => exists|window: &mut W|
                        *window == given && *final(window) == left && #[trigger] call_ensures(
                            W::on_update,
                            (window,),
                            polled,
                        ),
                });
                let rest = self.process_traced(events, &mut window);
                let ghost trace = first@ + seq![poll] + rest@;
                let ghost turn = old(self).poll_turn();
                proof {
                    let single = seq![poll];
                    lemma_layer_calls_are_calls(first@);
                    lemma_layer_calls_are_calls(rest@);
                    assert forall|t: int| #[trigger] is_turn(t, single.len()) implies match single[t] {
                        HookCall::Update { before, after, given, left } => exists|
                            layer: &mut L,
                            seen: &mut W,
                        |
                            *layer == before && *final(layer) == after && *seen == given && *final(seen) == left
                                && #[trigger] call_ensures(L::on_update, (layer, seen), ()),
                        HookCall::Event { before, after, offered, handled, given, left } => exists|
                            layer: &mut L,
                            event: &mut HexgemEvent,
                            seen: &mut W,
                        |
                            *layer == before && *final(layer) == after && *event == offered
                                && final(event).consumed() == handled && *seen == given
                                && *final(seen) == left
                                && #[trigger] call_ensures(L::on_event, (layer, event, seen), ()),
                        HookCall::Poll { given, left, polled } => exists|window: &mut W|
                            *window == given && *final(window) == left && #[trigger] call_ensures(
                                W::on_update,
                                (window,),
                                polled,
                            ),
                    } by {
                        assert(single[t] == poll);
                    }
                    lemma_calls_concat(first@, single);
                    lemma_calls_concat(first@ + single, rest@);
                    assert(first@.len() == turn);
                    assert(trace.take(turn) =~= first@);
                    assert(trace[turn] == poll);
                    assert(trace.skip(turn + 1) =~= rest@);
                }
                self.window = Some(window);
                proof {
                    assert(updated.updated(&old(self).stack(), trace.take(turn)));
                    assert(chained(trace.take(turn), old(self).window()->0, trace[turn].given()));
                    assert(dealt_with(
                        trace.skip(turn + 1),
                        updated,
                        self.stack(),
                        trace[turn].left(),
                        self.window()->0,
                        frame_events(polled@),
                    ));
                    assert(self.running() == (old(self).running() && none_requests_quit(polled@)));
                    assert(self.turned(old(self), trace));
                }
                Ghost(trace)
            },
            None => Ghost(Seq::empty()),
        }
    }

    /// One turn of the frame loop: every layer is updated once, in update
    /// order; the window then presents the frame and reports what has
    /// happened; and those events are dealt with, so that the application
    /// goes on exactly if it was running and none of them asks it to stop.
    ///
    /// The window is taken out for the turn and put back at its end. An
    /// application whose window has been taken out does nothing.
    pub fn frame(&mut self)
        ensures
            final(self).window() is Some == old(self).window() is Some,
            final(self).stack().same_shape(&old(self).stack()),
            final(self).running() ==> old(self).running(),
            old(self).window() is None ==> *final(self) == *old(self),
            old(self).window() is Some ==> exists|trace: Seq<HookCall<W, L>>|
                {
                    &&& #[trigger] final(self).turned(old(self), trace)
                    &&& forall|turn: int|
                        #[trigger] is_turn(turn, trace.len()) ==> match trace[turn] {
                            HookCall::Update { before, after, given, left } => exists|
                                layer: &mut L,
                                seen: &mut W,
                            |
                                *layer == before && *final(layer) == after && *seen == given && *final(seen) == left
                                    && #[trigger] call_ensures(L::on_update, (layer, seen), ()),
                            HookCall::Event { before, after, offered, handled, given, left } => exists|
                                layer: &mut L,
                                event: &mut HexgemEvent,
                                seen: &mut W,
                            |
                                *layer == before && *final(layer) == after && *event == offered
                                    && final(event).consumed() == handled && *seen == given
                                    && *final(seen) == left
                                    && #[trigger] call_ensures(L::on_event, (layer, event, seen), ()),
                            HookCall::Poll { given, left, polled } => exists|window: &mut W|
                                *window == given && *final(window) == left && #[trigger] call_ensures(
                                    W::on_update,
                                    (window,),
                                    polled,
                                ),
                        }
                },
    {
        let trace = self.frame_traced();
        assert(old(self).window() is Some ==> self.turned(old(self), trace@));
    }

    /// Runs the frame loop and tells the calls it made.
    fn run_traced(&mut self, max_frames: u64) -> (outcome: (u64, Ghost<Seq<HookCall<W, L>>>))
        ensures
            outcome.0 <= max_frames,
            !old(self).running() || old(self).window() is None ==> outcome.0 == 0,
            outcome.0 < max_frames ==> !final(self).running() || final(self).window() is None,
            final(self).running() ==> old(self).running(),
            final(self).window() is Some == old(self).window() is Some,
            final(self).stack().same_shape(&old(self).stack()),
            final(self).ran(old(self), outcome.0 as nat, outcome.1@),
            forall|turn: int|
                #[trigger] is_turn(turn, outcome.1@.len()) ==> match outcome.1@[turn] {
                    HookCall::Update { before, after, given, left } => exists|
                        layer: &mut L,
                        seen: &mut W,
                    |
                        *layer == before && *final(layer) == after && *seen == given && *final(seen) == left
                            && #[trigger] call_ensures(L::on_update, (layer, seen), ()),
                    HookCall::Event { before, after, offered, handled, given, left } => exists|
                        layer: &mut L,
                        event: &mut HexgemEvent,
                        seen: &mut W,
                    |
                        *layer == before && *final(layer) == after && *event == offered
                            && final(event).consumed() == handled && *seen == given
                            && *final(seen) == left
                            && #[trigger] call_ensures(L::on_event, (layer, event, seen), ()),
                    HookCall::Poll { given, left, polled } => exists|window: &mut W|
                        *window == given && *final(window) == left && #[trigger] call_ensures(
                            W::on_update,
                            (window,),
                            polled,
                        ),
                },
    {
        let mut frames: u64 = 0;
        let ghost mut trace: Seq<HookCall<W, L>> = Seq::empty();
        if self.window.is_none() {
            return (frames, Ghost(trace));
        }
        while self.running && frames < max_frames
            invariant
                frames <= max_frames,
                self.window() is Some,
                old(self).window() is Some,
                !old(self).running() ==> frames == 0,
                self.running() ==> old(self).running(),
                self.stack().same_shape(&old(self).stack()),
                self.ran(old(self), frames as nat, trace),
                forall|turn: int|
                    #[trigger] is_turn(turn, trace.len()) ==> match trace[turn] {
                        HookCall::Update { before, after, given, left } => exists|
                            layer: &mut L,
                            seen: &mut W,
                        |
                            *layer == before && *final(layer) == after && *seen == given && *final(seen) == left
                                && #[trigger] call_ensures(L::on_update, (layer, seen), ()),
                        HookCall::Event { before, after, offered, handled, given, left } => exists|
                            layer: &mut L,
                            event: &mut HexgemEvent,
                            seen: &mut W,
                        |
                            *layer == before && *final(layer) == after && *event == offered
                                && final(event).consumed() == handled && *seen == given
                                && *final(seen) == left
                                && #[trigger] call_ensures(L::on_event, (layer, event, seen), ()),
                        HookCall::Poll { given, left, polled } => exists|window: &mut W|
                            *window == given && *final(window) == left && #[trigger] call_ensures(
                                W::on_update,
                                (window,),
                                polled,
                            ),
                    },
            decreases max_frames - frames,
        {
            let ghost middle = *self;
            let ghost earlier = trace;
            let step = self.frame_traced();
            proof {
                trace = earlier + step@;
                let cut = earlier.len() as int;
                assert(trace.take(cut) =~= earlier);
                assert(trace.skip(cut) =~= step@);
                assert(self.turned(&middle, trace.skip(cut)));
                lemma_calls_concat(earlier, step@);
            }
            frames += 1;
        }
        (frames, Ghost(trace))
    }

    /// Runs the frame loop until the application stops, for `max_frames`
    /// turns at most, and says how many turns it took: each of them is a turn
    /// as `frame` takes it, begun while the application was running.
    ///
    /// Whether to go on is decided between two turns only: a request to stop
    /// takes effect when the turn in which it came is over. An application
    /// that has stopped, or whose window has been taken out, takes no turn.
    pub fn run(&mut self, max_frames: u64) -> (frames: u64)
        ensures
            frames <= max_frames,
            !old(self).running() || old(self).window() is None ==> frames == 0,
            frames == 0 ==> *final(self) == *old(self),
            frames < max_frames ==> !final(self).running() || final(self).window() is None,
            final(self).running() ==> old(self).running(),
            final(self).window() is Some == old(self).window() is Some,
            final(self).stack().same_shape(&old(self).stack()),
            exists|trace: Seq<HookCall<W, L>>|
                {
                    &&& #[trigger] final(self).ran(old(self), frames as nat, trace)
                    &&& forall|turn: int|
                        #[trigger] is_turn(turn, trace.len()) ==> match trace[turn] {
                            HookCall::Update { before, after, given, left } => exists|
                                layer: &mut L,
                                seen: &mut W,
                            |
                                *layer == before && *final(layer) == after && *seen == given && *final(seen) == left
                                    && #[trigger] call_ensures(L::on_update, (layer, seen), ()),
                            HookCall::Event { before, after, offered, handled, given, left } => exists|
                                layer: &mut L,
                                event: &mut HexgemEvent,
                                seen: &mut W,
                            |
                                *layer == before && *final(layer) == after && *event == offered
                                    && final(event).consumed() == handled && *seen == given
                                    && *final(seen) == left
                                    && #[trigger] call_ensures(L::on_event, (layer, event, seen), ()),
                            HookCall::Poll { given, left, polled } => exists|window: &mut W|
                                *window == given && *final(window) == left && #[trigger] call_ensures(
                                    W::on_update,
                                    (window,),
                                    polled,
                                ),
                        }
                },
    {
        let (frames, trace) = self.run_traced(max_frames);
        assert(self.ran(old(self), frames as nat, trace@));
        frames
    }
}

impl<W: Window, L: Layer<W>> Application<W, L> {
    /// In a turn of the frame loop the window is polled once, after the
    /// updates, and the application goes on exactly if it was running and
    /// nothing that the window reported in this turn asks it to stop.
    pub proof fn lemma_turn_polls_once(self, before: Self, trace: Seq<HookCall<W, L>>)
        requires
            self.turned(&before, trace),
        ensures
            before.window() is Some,
            trace.len() > before.poll_turn(),
            trace[before.poll_turn()] is Poll,
            self.running() == (before.running() && none_requests_quit(
                trace[before.poll_turn()]->polled@,
            )),
    {
    }

    /// The frame loop stops after the turn in which it is asked to stop:
    /// a run takes its first turn while the application is running, and it
    /// takes a second one only if nothing that the window reported in the
    /// first asked the application to stop.
    pub proof fn lemma_run_stops_when_asked(
        self,
        before: Self,
        frames: nat,
        trace: Seq<HookCall<W, L>>,
    )
        requires
            self.ran(&before, frames, trace),
            frames >= 1,
        ensures
            before.running(),
            before.window() is Some,
            trace.len() > before.poll_turn(),
            trace[before.poll_turn()] is Poll,
            frames > 1 ==> none_requests_quit(trace[before.poll_turn()]->polled@),
            frames == 1 ==> self.running() == none_requests_quit(
                trace[before.poll_turn()]->polled@,
            ),
        decreases frames,
    {
        let (cut, middle) = choose|cut: int, middle: Self|
            {
                &&& 0 <= cut <= trace.len()
                &&& middle.ran(&before, (frames - 1) as nat, trace.take(cut))
                &&& middle.running()
                &&& #[trigger] self.turned(&middle, trace.skip(cut))
            };
        if frames == 1 {
            assert(trace.take(cut).len() == 0);
            assert(trace.skip(cut) =~= trace);
            self.lemma_turn_polls_once(before, trace);
        } else {
            middle.lemma_run_stops_when_asked(before, (frames - 1) as nat, trace.take(cut));
            assert(trace.take(cut)[before.poll_turn()] == trace[before.poll_turn()]);
        }
    }
}

/// A request to close the window and the quit chord ask for the same
/// thing: each of them stops the application that is given it.
pub proof fn lemma_quit_requests(closing: WindowCloseEvent, chord: KeyboardEvent)
    requires
        is_quit_chord(chord),
    ensures
        requests_quit(closing.as_event()),
        requests_quit(chord.as_event()),
        closing.as_event().kind() == EventType::WindowClose,
        chord.as_event().kind() == EventType::KeyPressed,
{
}

/// As SDL reports it, the key Q going down asks the application to stop
/// exactly when the left or the right Gui key is held; a request to close
/// the window always does, from SDL and from GLFW alike.
pub proof fn lemma_native_quit_requests(keymod: u16, repeat: bool)
    ensures
        requests_quit(
            SdlEvent::engine_event(Some(SdlEvent::KeyDown { keycode: Some(113), keymod, repeat })),
        ) <==> sdl_holds(keymod, 0x0400) || sdl_holds(keymod, 0x0800),
        requests_quit(SdlEvent::engine_event(Some(SdlEvent::Window(SdlWindowEvent::Close)))),
        requests_quit(GlfwEvent::engine_event(Some(GlfwEvent::Close))),
{
    lemma_sdl_gui_held(keymod);
    assert(Key::Q.sdl_code() == Some(113int));
    assert(Key::of_sdl_code(113) == Key::Q);
}

/// A program built on the engine: it says what its application is made of.
pub trait HexgemApp: Sized {
    /// The window that the program runs in.
    type Screen: Window;

    /// The layers that the program is made of.
    type Scene: Layer<Self::Screen>;

    /// The application as it is before the program has set it up.
    fn application() -> Application<Self::Screen, Self::Scene>;
}

/// Makes the application of the program `A`, lets `setup` set it up, and
/// runs it until it stops, for `max_frames` turns of the frame loop at most;
/// hands back the number of turns it took and the application as the run
/// left it.
pub fn run_app<A: HexgemApp, T: FnOnce(Application<A::Screen, A::Scene>) -> Application<
    A::Screen,
    A::Scene,
>>(setup: T, max_frames: u64) -> (outcome: (u64, Application<A::Screen, A::Scene>))
    requires
        forall|fresh: Application<A::Screen, A::Scene>| call_requires(setup, (fresh,)),
    ensures
        outcome.0 <= max_frames,
        outcome.0 < max_frames ==> !outcome.1.running() || outcome.1.window() is None,
        exists|
            fresh: Application<A::Screen, A::Scene>,
            configured: Application<A::Screen, A::Scene>,
        |
            {
                &&& call_ensures(A::application, (), fresh)
                &&& #[trigger] call_ensures(setup, (fresh,), configured)
                &&& exists|trace: Seq<HookCall<A::Screen, A::Scene>>|
                    {
                        &&& #[trigger] outcome.1.ran(&configured, outcome.0 as nat, trace)
                        &&& forall|turn: int|
                    #[trigger] is_turn(turn, trace.len()) ==> match trace[turn] {
                        HookCall::Update { before, after, given, left } => exists|
                            layer: &mut A::Scene,
                            seen: &mut A::Screen,
                        |
                            *layer == before && *final(layer) == after && *seen == given && *final(seen) == left
                                && #[trigger] call_ensures(<A::Scene as Layer<A::Screen>>::on_update, (layer, seen), ()),
                        HookCall::Event { before, after, offered, handled, given, left } => exists|
                            layer: &mut A::Scene,
                            event: &mut HexgemEvent,
                            seen: &mut A::Screen,
                        |
                            *layer == before && *final(layer) == after && *event == offered
                                && final(event).consumed() == handled && *seen == given
                                && *final(seen) == left
                                && #[trigger] call_ensures(<A::Scene as Layer<A::Screen>>::on_event, (layer, event, seen), ()),
                        HookCall::Poll { given, left, polled } => exists|window: &mut A::Screen|
                            *window == given && *final(window) == left && #[trigger] call_ensures(
                                <A::Screen as Window>::on_update,
                                (window,),
                                polled,
                            ),
                    }
                    }
            },
{
    let fresh = A::application();
    let mut application = setup(fresh);
    let ghost configured = application;
    let (frames, trace) = application.run_traced(max_frames);
    assert(call_ensures(A::application, (), fresh));
    assert(call_ensures(setup, (fresh,), configured));
    assert(application.ran(&configured, frames as nat, trace@));
    assert(exists|trace: Seq<HookCall<A::Screen, A::Scene>>|
        {
            &&& #[trigger] application.ran(&configured, frames as nat, trace)
            &&& forall|turn: int|
                #[trigger] is_turn(turn, trace.len()) ==> match trace[turn] {
                    HookCall::Update { before, after, given, left } => exists|
                        layer: &mut A::Scene,
                        seen: &mut A::Screen,
                    |
                        *layer == before && *final(layer) == after && *seen == given && *final(seen) == left
                            && #[trigger] call_ensures(<A::Scene as Layer<A::Screen>>::on_update, (layer, seen), ()),
                    HookCall::Event { before, after, offered, handled, given, left } => exists|
                        layer: &mut A::Scene,
                        event: &mut HexgemEvent,
                        seen: &mut A::Screen,
                    |
                        *layer == before && *final(layer) == after && *event == offered
                            && final(event).consumed() == handled && *seen == given
                            && *final(seen) == left
                            && #[trigger] call_ensures(<A::Scene as Layer<A::Screen>>::on_event, (layer, event, seen), ()),
                    HookCall::Poll { given, left, polled } => exists|window: &mut A::Screen|
                        *window == given && *final(window) == left && #[trigger] call_ensures(
                            <A::Screen as Window>::on_update,
                            (window,),
                            polled,
                        ),
                }
        });
    (frames, application)
}

} // verus!
