use crate::event::{category_of, CategoryBitFlag, Event, EventCategory, EventType, HexgemEvent};
use crate::hexgem_types::{Key, Modifiers};
use vstd::prelude::*;

verus! {

/// A key went down, repeated while held, or went up.
#[derive(Clone, Copy, Debug, PartialEq, Eq)]
pub struct KeyboardEvent {
    pub pressed: bool,
    pub handled: bool,
    pub key: Key,
    pub repeat: bool,
    pub modifiers: Modifiers,
}

impl KeyboardEvent {
    /// A fresh event, which nobody has handled yet.
    pub fn create(pressed: bool, key: Key, repeat: bool, modifiers: Modifiers) -> (event: Self)
        ensures
            event == (KeyboardEvent { key, repeat, pressed, modifiers, handled: false }),
            !event.spec_handled(),
    {
        Self { key, repeat, pressed, modifiers, handled: false }
    }
}

impl Event for KeyboardEvent {
    open spec fn spec_event_type(&self) -> EventType {
        if self.pressed {
            EventType::KeyPressed
        } else {
            EventType::KeyReleased
        }
    }

    open spec fn spec_handled(&self) -> bool {
        self.handled
    }

    open spec fn with_handled(self, handled: bool) -> Self {
        KeyboardEvent { handled, ..self }
    }

    open spec fn as_event(self) -> HexgemEvent {
        HexgemEvent::Keyboard(self)
    }

    open spec fn spec_downcast(event: HexgemEvent) -> Option<Self> {
        match event {
            HexgemEvent::Keyboard(payload) => Some(payload),
            _ => None,
        }
    }

    open spec fn carries(event_type: EventType) -> bool {
        event_type == EventType::KeyPressed || event_type == EventType::KeyReleased
    }

    proof fn lemma_downcast(event: HexgemEvent) {
    }

    proof fn lemma_as_event(self) {
    }

    proof fn lemma_with_handled(self, first: bool, second: bool) {
    }

    fn handled(&self) -> bool {
        self.handled
    }

    fn set_handled(&mut self) {
        self.handled = true;
    }

    fn get_event_type(&self) -> EventType {
        if self.pressed {
            EventType::KeyPressed
        } else {
            EventType::KeyReleased
        }
    }

    fn get_category(&self) -> CategoryBitFlag {
        let category = EventCategory::keyboard().union(EventCategory::input());
        assert(2u32 | 4u32 == 4u32 | 2u32) by (bit_vector);
        assert(category_of(self.spec_event_type()) == category);
        category
    }

    fn is_handled(&self) -> bool {
        self.handled
    }

    fn downcast(event: &HexgemEvent) -> Option<&Self> {
        match event {
            HexgemEvent::Keyboard(payload) => Some(payload),
            _ => None,
        }
    }

    fn into_event(self) -> HexgemEvent {
        HexgemEvent::Keyboard(self)
    }
}

} // verus!
