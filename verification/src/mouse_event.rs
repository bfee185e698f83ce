use crate::event::{category_of, CategoryBitFlag, Event, EventCategory, EventType, HexgemEvent};
use crate::hexgem_types::{Modifiers, MouseButton};
use crate::primitives::{FloatBits, Position};
use vstd::prelude::*;

verus! {

/// A button of the pointing device went down or up.
#[derive(Clone, Copy, Debug, PartialEq, Eq)]
pub struct MouseButtonEvent {
    pub pressed: bool,
    pub repeated: bool,
    pub handled: bool,
    pub modifiers: Modifiers,
    pub button: MouseButton,
}

impl MouseButtonEvent {
    /// A fresh event, which nobody has handled yet.
    pub fn create(pressed: bool,
        repeated: bool,
        button: MouseButton,
        modifiers: Modifiers,
    ) -> (event: Self)
        ensures
            event == (MouseButtonEvent { button, pressed, repeated, modifiers, handled: false }),
            !event.spec_handled(),
    {
        Self { button, pressed, repeated, modifiers, handled: false }
    }
}

impl Event for MouseButtonEvent {
    open spec fn spec_event_type(&self) -> EventType {
        if self.pressed {
            EventType::MouseButtonPressed
        } else {
            EventType::MouseButtonReleased
        }
    }

    open spec fn spec_handled(&self) -> bool {
        self.handled
    }

    open spec fn with_handled(self, handled: bool) -> Self {
        MouseButtonEvent { handled, ..self }
    }

    open spec fn as_event(self) -> HexgemEvent {
        HexgemEvent::MouseButton(self)
    }

    open spec fn spec_downcast(event: HexgemEvent) -> Option<Self> {
        match event {
            HexgemEvent::MouseButton(payload) => Some(payload),
            _ => None,
        }
    }

    open spec fn carries(event_type: EventType) -> bool {
        event_type == EventType::MouseButtonPressed || event_type == EventType::MouseButtonReleased
    }

    proof fn lemma_downcast(event: HexgemEvent) {
    }

    proof fn lemma_as_event(self) {
    }

    proof fn lemma_with_handled(self, first: bool, second: bool) {
    }

    fn handled(&self) -> bool {
        self.handled
    }

    fn set_handled(&mut self) {
        self.handled = true;
    }

    fn get_event_type(&self) -> EventType {
        if self.pressed {
            EventType::MouseButtonPressed
        } else {
            EventType::MouseButtonReleased
        }
    }

    fn get_category(&self) -> CategoryBitFlag {
        let category = EventCategory::mouse().union(EventCategory::mouse_button()).union(
            EventCategory::input(),
        );
        assert(2u32 | (16u32 | 8u32) == 8u32 | 16u32 | 2u32) by (bit_vector);
        assert(category_of(self.spec_event_type()) == category);
        category
    }

    fn is_handled(&self) -> bool {
        self.handled
    }

    fn downcast(event: &HexgemEvent) -> Option<&Self> {
        match event {
            HexgemEvent::MouseButton(payload) => Some(payload),
            _ => None,
        }
    }

    fn into_event(self) -> HexgemEvent {
        HexgemEvent::MouseButton(self)
    }
}

/// The wheel of the pointing device turned by `dx` and `dy`.
#[derive(Clone, Copy, Debug, PartialEq, Eq, Structural)]
pub struct MouseScrollEvent {
    pub handled: bool,
    pub dx: FloatBits,
    pub dy: FloatBits,
}

impl MouseScrollEvent {
    /// A fresh event, which nobody has handled yet.
    pub fn create(dx: FloatBits, dy: FloatBits) -> (event: Self)
        ensures
            event == (MouseScrollEvent { dx, dy, handled: false }),
            !event.spec_handled(),
    {
        Self { dx, dy, handled: false }
    }
}

impl Event for MouseScrollEvent {
    open spec fn spec_event_type(&self) -> EventType {
        EventType::MouseScrolled
    }

    open spec fn spec_handled(&self) -> bool {
        self.handled
    }

    open spec fn with_handled(self, handled: bool) -> Self {
        MouseScrollEvent { handled, ..self }
    }

    open spec fn as_event(self) -> HexgemEvent {
        HexgemEvent::MouseScroll(self)
    }

    open spec fn spec_downcast(event: HexgemEvent) -> Option<Self> {
        match event {
            HexgemEvent::MouseScroll(payload) => Some(payload),
            _ => None,
        }
    }

    open spec fn carries(event_type: EventType) -> bool {
        event_type == EventType::MouseScrolled
    }

    proof fn lemma_downcast(event: HexgemEvent) {
    }

    proof fn lemma_as_event(self) {
    }

    proof fn lemma_with_handled(self, first: bool, second: bool) {
    }

    fn handled(&self) -> bool {
        self.handled
    }

    fn set_handled(&mut self) {
        self.handled = true;
    }

    fn get_event_type(&self) -> EventType {
        EventType::MouseScrolled
    }

    fn get_category(&self) -> CategoryBitFlag {
        let category = EventCategory::mouse().union(EventCategory::input());
        assert(2u32 | 8u32 == 8u32 | 2u32) by (bit_vector);
        assert(category_of(self.spec_event_type()) == category);
        category
    }

    fn is_handled(&self) -> bool {
        self.handled
    }

    fn downcast(event: &HexgemEvent) -> Option<&Self> {
        match event {
            HexgemEvent::MouseScroll(payload) => Some(payload),
            _ => None,
        }
    }

    fn into_event(self) -> HexgemEvent {
        HexgemEvent::MouseScroll(self)
    }
}

/// The pointer moved to `position`, in window coordinates.
#[derive(Clone, Copy, Debug, PartialEq, Eq)]
pub struct MouseMoveEvent {
    pub handled: bool,
    pub position: Position<FloatBits>,
}

impl MouseMoveEvent {
    /// A fresh event, which nobody has handled yet.
    pub fn create(position: Position<FloatBits>) -> (event: Self)
        ensures
            event == (MouseMoveEvent { position, handled: false }),
            !event.spec_handled(),
    {
        Self { position, handled: false }
    }
}

impl Event for MouseMoveEvent {
    open spec fn spec_event_type(&self) -> EventType {
        EventType::MouseMoved
    }

    open spec fn spec_handled(&self) -> bool {
        self.handled
    }

    open spec fn with_handled(self, handled: bool) -> Self {
        MouseMoveEvent { handled, ..self }
    }

    open spec fn as_event(self) -> HexgemEvent {
        HexgemEvent::MouseMove(self)
    }

    open spec fn spec_downcast(event: HexgemEvent) -> Option<Self> {
        match event {
            HexgemEvent::MouseMove(payload) => Some(payload),
            _ => None,
        }
    }

    open spec fn carries(event_type: EventType) -> bool {
        event_type == EventType::MouseMoved
    }

    proof fn lemma_downcast(event: HexgemEvent) {
    }

    proof fn lemma_as_event(self) {
    }

    proof fn lemma_with_handled(self, first: bool, second: bool) {
    }

    fn handled(&self) -> bool {
        self.handled
    }

    fn set_handled(&mut self) {
        self.handled = true;
    }

    fn get_event_type(&self) -> EventType {
        EventType::MouseMoved
    }

    fn get_category(&self) -> CategoryBitFlag {
        let category = EventCategory::mouse().union(EventCategory::input());
        assert(2u32 | 8u32 == 8u32 | 2u32) by (bit_vector);
        assert(category_of(self.spec_event_type()) == category);
        category
    }

    fn is_handled(&self) -> bool {
        self.handled
    }

    fn downcast(event: &HexgemEvent) -> Option<&Self> {
        match event {
            HexgemEvent::MouseMove(payload) => Some(payload),
            _ => None,
        }
    }

    fn into_event(self) -> HexgemEvent {
        HexgemEvent::MouseMove(self)
    }
}

} // verus!
