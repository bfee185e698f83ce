use hexgem_engine::{
    AppRenderEvent, AppTickEvent, AppUpdateEvent, Event, EventDispatcher, EventType, FloatBits,
    HexgemEvent, Key, KeyboardEvent, Mod, Modifiers, MouseButton, MouseButtonEvent,
    MouseMoveEvent, MouseScrollEvent, NoneEvent, Position, Size, WindowCloseEvent,
    WindowFocusEvent, WindowMoveEvent, WindowResizeEvent,
};

const ALL_TYPES: [EventType; 15] = [
    EventType::NoEvent,
    EventType::WindowClose,
    EventType::WindowResize,
    EventType::WindowFocus,
    EventType::WindowLostFocus,
    EventType::WindowMoved,
    EventType::AppTick,
    EventType::AppUpdate,
    EventType::AppRender,
    EventType::KeyPressed,
    EventType::KeyReleased,
    EventType::MouseButtonPressed,
    EventType::MouseButtonReleased,
    EventType::MouseMoved,
    EventType::MouseScrolled,
];

fn event_of(event_type: EventType) -> HexgemEvent {
    let held = Modifiers::create(vec![Mod::Control]);
    let zero = FloatBits(0.0f64.to_bits());
    match event_type {
        EventType::NoEvent => NoneEvent::create().into_event(),
        EventType::WindowClose => WindowCloseEvent::create().into_event(),
        EventType::WindowResize => {
            WindowResizeEvent::create(Size { width: 1, height: 2 }).into_event()
        }
        EventType::WindowFocus => WindowFocusEvent::create(true).into_event(),
        EventType::WindowLostFocus => WindowFocusEvent::create(false).into_event(),
        EventType::WindowMoved => WindowMoveEvent::create(Position { x: 1, y: 2 }).into_event(),
        EventType::AppTick => AppTickEvent::create().into_event(),
        EventType::AppUpdate => AppUpdateEvent::create().into_event(),
        EventType::AppRender => AppRenderEvent::create().into_event(),
        EventType::KeyPressed => KeyboardEvent::create(true, Key::K, false, held).into_event(),
        EventType::KeyReleased => KeyboardEvent::create(false, Key::K, false, held).into_event(),
        EventType::MouseButtonPressed => {
            MouseButtonEvent::create(true, false, MouseButton::RightButton, held).into_event()
        }
        EventType::MouseButtonReleased => {
            MouseButtonEvent::create(false, false, MouseButton::RightButton, held).into_event()
        }
        EventType::MouseMoved => {
            MouseMoveEvent::create(Position { x: zero, y: zero }).into_event()
        }
        EventType::MouseScrolled => MouseScrollEvent::create(zero, zero).into_event(),
    }
}

/// Dispatches with the payload type `I`, and gives the result and the number
/// of times the callback ran.
fn dispatch_counting<I: Event>(
    event: &HexgemEvent,
    expected: EventType,
    answer: Option<bool>,
) -> (bool, usize) {
    let mut calls = 0;
    let dispatcher = EventDispatcher::from(event);
    let used = dispatcher.dispatch(expected, |_payload: &I| {
        calls += 1;
        answer
    });
    (used, calls)
}

/// Dispatches for events of kind `expected` with the payload type that
/// carries this kind.
fn dispatch_as(event: &HexgemEvent, expected: EventType, answer: Option<bool>) -> (bool, usize) {
    match expected {
        EventType::NoEvent => dispatch_counting::<NoneEvent>(event, expected, answer),
        EventType::WindowClose => dispatch_counting::<WindowCloseEvent>(event, expected, answer),
        EventType::WindowResize => dispatch_counting::<WindowResizeEvent>(event, expected, answer),
        EventType::WindowFocus | EventType::WindowLostFocus => {
            dispatch_counting::<WindowFocusEvent>(event, expected, answer)
        }
        EventType::WindowMoved => dispatch_counting::<WindowMoveEvent>(event, expected, answer),
        EventType::AppTick => dispatch_counting::<AppTickEvent>(event, expected, answer),
        EventType::AppUpdate => dispatch_counting::<AppUpdateEvent>(event, expected, answer),
        EventType::AppRender => dispatch_counting::<AppRenderEvent>(event, expected, answer),
        EventType::KeyPressed | EventType::KeyReleased => {
            dispatch_counting::<KeyboardEvent>(event, expected, answer)
        }
        EventType::MouseButtonPressed | EventType::MouseButtonReleased => {
            dispatch_counting::<MouseButtonEvent>(event, expected, answer)
        }
        EventType::MouseMoved => dispatch_counting::<MouseMoveEvent>(event, expected, answer),
        EventType::MouseScrolled => dispatch_counting::<MouseScrollEvent>(event, expected, answer),
    }
}

#[test]
fn mismatched_types_never_reach_the_callback() {
    for actual in ALL_TYPES {
        let event = event_of(actual);
        for expected in ALL_TYPES {
            let (used, calls) = dispatch_as(&event, expected, None);
            if actual == expected {
                assert!(used, "{:?} dispatched as {:?}", actual, expected);
                assert_eq!(calls, 1);
            } else {
                assert!(!used, "{:?} dispatched as {:?}", actual, expected);
                assert_eq!(calls, 0);
            }
        }
    }
}

#[test]
fn at_most_one_of_a_chain_of_dispatches_matches() {
    for actual in ALL_TYPES {
        let event = event_of(actual);
        let matches = ALL_TYPES
            .iter()
            .filter(|expected| dispatch_as(&event, **expected, Some(true)).0)
            .count();
        assert_eq!(matches, 1);
    }
}

#[test]
fn the_answer_decides_whether_the_event_is_used() {
    let event = event_of(EventType::KeyPressed);
    assert_eq!(dispatch_as(&event, EventType::KeyPressed, None), (true, 1));
    assert_eq!(dispatch_as(&event, EventType::KeyPressed, Some(true)), (true, 1));
    assert_eq!(dispatch_as(&event, EventType::KeyPressed, Some(false)), (false, 1));
    assert!(EventDispatcher::resolve(None));
    assert!(EventDispatcher::resolve(Some(true)));
    assert!(!EventDispatcher::resolve(Some(false)));
}

#[test]
fn dispatching_twice_gives_the_same_result_and_keeps_the_event() {
    for actual in ALL_TYPES {
        let event = event_of(actual);
        let before = event;
        let first = dispatch_as(&event, actual, None);
        let second = dispatch_as(&event, actual, None);
        assert_eq!(first, second);
        assert_eq!(first, (true, 1));
        assert_eq!(event, before);
        assert!(!event.handled());
    }
}

#[test]
fn the_callback_sees_the_payload() {
    let key = KeyboardEvent::create(true, Key::Q, true, Modifiers::create(vec![Mod::Gui]));
    let event = key.into_event();
    let dispatcher = EventDispatcher::from(&event);
    let mut seen = None;
    let used = dispatcher.dispatch(EventType::KeyPressed, |payload: &KeyboardEvent| {
        seen = Some(*payload);
        Some(payload.key == Key::Q)
    });
    assert!(used);
    assert_eq!(seen, Some(key));
}

#[test]
fn the_sum_itself_is_a_payload_of_every_kind() {
    for actual in ALL_TYPES {
        let event = event_of(actual);
        assert_eq!(dispatch_counting::<HexgemEvent>(&event, actual, Some(true)), (true, 1));
    }
}
