use hexgem_engine::{
    bit, AppRenderEvent, AppTickEvent, AppUpdateEvent, CategoryBitFlag, Event, EventCategory,
    EventType, FloatBits, HexgemEvent, Key, KeyboardEvent, Modifiers, Mod, MouseButton,
    MouseButtonEvent, MouseMoveEvent, MouseScrollEvent, NoneEvent, Position, Size,
    WindowCloseEvent, WindowFocusEvent, WindowMoveEvent, WindowResizeEvent, BIT,
};

/// One event of every kind, in the order of `EventType`.
fn one_of_each() -> Vec<(EventType, HexgemEvent)> {
    let held = Modifiers::create(vec![Mod::LeftShift]);
    vec![
        (EventType::NoEvent, NoneEvent::create().into_event()),
        (EventType::WindowClose, WindowCloseEvent::create().into_event()),
        (
            EventType::WindowResize,
            WindowResizeEvent::create(Size { width: 800, height: 600 }).into_event(),
        ),
        (EventType::WindowFocus, WindowFocusEvent::create(true).into_event()),
        (EventType::WindowLostFocus, WindowFocusEvent::create(false).into_event()),
        (
            EventType::WindowMoved,
            WindowMoveEvent::create(Position { x: -3, y: 40 }).into_event(),
        ),
        (EventType::AppTick, AppTickEvent::create().into_event()),
        (EventType::AppUpdate, AppUpdateEvent::create().into_event()),
        (EventType::AppRender, AppRenderEvent::create().into_event()),
        (
            EventType::KeyPressed,
            KeyboardEvent::create(true, Key::A, false, held).into_event(),
        ),
        (
            EventType::KeyReleased,
            KeyboardEvent::create(false, Key::A, false, held).into_event(),
        ),
        (
            EventType::MouseButtonPressed,
            MouseButtonEvent::create(true, false, MouseButton::LeftButton, held).into_event(),
        ),
        (
            EventType::MouseButtonReleased,
            MouseButtonEvent::create(false, false, MouseButton::LeftButton, held).into_event(),
        ),
        (
            EventType::MouseMoved,
            MouseMoveEvent::create(Position {
                x: FloatBits(12.5f64.to_bits()),
                y: FloatBits(7.25f64.to_bits()),
            })
            .into_event(),
        ),
        (
            EventType::MouseScrolled,
            MouseScrollEvent::create(FloatBits(0.0f64.to_bits()), FloatBits((-1.0f64).to_bits()))
                .into_event(),
        ),
    ]
}

fn expected_category(event_type: EventType) -> u32 {
    match event_type {
        EventType::NoEvent => 0,
        EventType::KeyPressed | EventType::KeyReleased => 0b00110,
        EventType::MouseButtonPressed | EventType::MouseButtonReleased => 0b11010,
        EventType::MouseMoved | EventType::MouseScrolled => 0b01010,
        _ => 0b00001,
    }
}

#[test]
fn bit_gives_single_bit_masks() {
    assert_eq!(bit(0), 1);
    assert_eq!(bit(1), 2);
    assert_eq!(bit(4), 16);
    assert_eq!(bit(31), 0x8000_0000);
    assert_eq!(BIT(3), CategoryBitFlag(8));
}

#[test]
fn category_bits_are_the_documented_ones() {
    assert_eq!(EventCategory::none(), CategoryBitFlag(0));
    assert_eq!(EventCategory::application(), CategoryBitFlag(1));
    assert_eq!(EventCategory::input(), CategoryBitFlag(2));
    assert_eq!(EventCategory::keyboard(), CategoryBitFlag(4));
    assert_eq!(EventCategory::mouse(), CategoryBitFlag(8));
    assert_eq!(EventCategory::mouse_button(), CategoryBitFlag(16));
}

#[test]
fn categories_combine_with_or_and_meet_with_and() {
    let both = EventCategory::mouse() | EventCategory::input();
    assert_eq!(both, CategoryBitFlag(10));
    assert_eq!(both, EventCategory::mouse().union(EventCategory::input()));
    assert_eq!(both & EventCategory::input(), CategoryBitFlag(2));
    assert_eq!(both.intersection(EventCategory::keyboard()), CategoryBitFlag(0));
}

#[test]
fn fresh_events_are_unhandled() {
    for (_, event) in one_of_each() {
        assert!(!event.handled());
        assert!(!event.is_handled());
    }
    assert!(!NoneEvent::create().handled());
    assert!(!WindowFocusEvent::create(true).handled());
    assert!(!WindowCloseEvent::create().handled());
    assert!(!AppTickEvent::create().handled());
    assert!(!AppUpdateEvent::create().handled());
    assert!(!AppRenderEvent::create().handled());
    assert!(!KeyboardEvent::create(true, Key::Q, true, Modifiers::create(vec![])).handled());
}

#[test]
fn every_kind_reports_its_type() {
    for (event_type, event) in one_of_each() {
        assert_eq!(event.get_event_type(), event_type);
    }
}

#[test]
fn category_is_decided_by_the_type() {
    for (event_type, event) in one_of_each() {
        assert_eq!(event.get_category(), CategoryBitFlag(expected_category(event_type)));
    }
    // Two events of one kind with different payloads have the same category.
    let a = KeyboardEvent::create(true, Key::A, false, Modifiers::create(vec![]));
    let z = KeyboardEvent::create(true, Key::Z, true, Modifiers::create(vec![Mod::Control]));
    assert_eq!(a.get_category(), z.get_category());
}

#[test]
fn mouse_button_pressed_categories() {
    let event = MouseButtonEvent::create(
        true,
        false,
        MouseButton::LeftButton,
        Modifiers::create(vec![Mod::Shift]),
    );
    assert_eq!(event.get_event_type(), EventType::MouseButtonPressed);
    assert!(event.is_in_category(EventCategory::mouse_button()));
    assert!(event.is_in_category(EventCategory::mouse()));
    assert!(event.is_in_category(EventCategory::input()));
    assert!(!event.is_in_category(EventCategory::keyboard()));
    assert!(!event.is_in_category(EventCategory::application()));
    let any: HexgemEvent = event.into_event();
    assert!(any.is_in_category(EventCategory::mouse() | EventCategory::keyboard()));
    assert!(!any.is_in_category(EventCategory::none()));
}

#[test]
fn the_empty_event_is_in_no_category() {
    let nothing = NoneEvent::create();
    assert!(!nothing.is_in_category(EventCategory::application()));
    assert!(!nothing.is_in_category(CategoryBitFlag(u32::MAX)));
}

#[test]
fn set_handled_sets_the_flag_and_keeps_the_rest() {
    for (event_type, event) in one_of_each() {
        let mut event = event;
        let before = event;
        event.set_handled();
        assert!(event.handled());
        assert_eq!(event.get_event_type(), event_type);
        assert_ne!(event, before);
        // Setting it again changes nothing.
        let once = event;
        event.set_handled();
        assert_eq!(event, once);
    }
    let mut key = KeyboardEvent::create(false, Key::F5, true, Modifiers::create(vec![Mod::Alt]));
    key.set_handled();
    assert_eq!(key.key, Key::F5);
    assert!(key.repeat);
    assert!(!key.pressed);
    assert!(key.modifiers.has(Mod::LeftAlt));
    assert!(key.handled);
}

#[test]
fn downcast_finds_the_payload_of_its_own_type_only() {
    let key = KeyboardEvent::create(true, Key::W, false, Modifiers::create(vec![]));
    let event = key.into_event();
    assert_eq!(KeyboardEvent::downcast(&event), Some(&key));
    assert_eq!(MouseButtonEvent::downcast(&event), None);
    assert_eq!(NoneEvent::downcast(&event), None);
    assert_eq!(HexgemEvent::downcast(&event), Some(&event));
    let lost = WindowFocusEvent::create(false);
    assert_eq!(WindowFocusEvent::downcast(&lost.into_event()), Some(&lost));
    assert_eq!(WindowCloseEvent::downcast(&lost.into_event()), None);
}

#[test]
fn payloads_keep_what_they_were_made_with() {
    let resize = WindowResizeEvent::create(Size { width: 1920, height: 1080 });
    assert_eq!(resize.size, Size { width: 1920, height: 1080 });
    let moved = WindowMoveEvent::create(Position { x: 5, y: -9 });
    assert_eq!(moved.position, Position { x: 5, y: -9 });
    let scroll = MouseScrollEvent::create(FloatBits(1.5f64.to_bits()), FloatBits(2.0f64.to_bits()));
    assert_eq!(f64::from_bits(scroll.dx.0), 1.5);
    assert_eq!(f64::from_bits(scroll.dy.0), 2.0);
    let pointer = MouseMoveEvent::create(Position {
        x: FloatBits(640.0f64.to_bits()),
        y: FloatBits(360.5f64.to_bits()),
    });
    assert_eq!(f64::from_bits(pointer.position.x.0), 640.0);
    assert_eq!(f64::from_bits(pointer.position.y.0), 360.5);
    let click = MouseButtonEvent::create(
        false,
        true,
        MouseButton::Button4,
        Modifiers::create(vec![Mod::Gui]),
    );
    assert!(click.repeated);
    assert_eq!(click.button, MouseButton::Button4);
    assert_eq!(click.get_event_type(), EventType::MouseButtonReleased);
}
