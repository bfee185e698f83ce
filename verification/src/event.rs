use crate::application_event::{
    AppRenderEvent, AppTickEvent, AppUpdateEvent, WindowCloseEvent, WindowFocusEvent,
    WindowMoveEvent, WindowResizeEvent,
};
use crate::key_event::KeyboardEvent;
use crate::mouse_event::{MouseButtonEvent, MouseMoveEvent, MouseScrollEvent};
use crate::primitives::bit;
use vstd::prelude::*;

verus! {

/// A set of event categories, one bit for each.
#[derive(Clone, Copy, Debug, PartialEq, Eq, Structural)]
pub struct CategoryBitFlag(pub u32);

impl CategoryBitFlag {
    /// The categories of this set and those of `other`.
    pub open spec fn spec_union(self, other: CategoryBitFlag) -> CategoryBitFlag {
        CategoryBitFlag(other.0 | self.0)
    }

    /// The categories that this set and `other` have in common.
    pub open spec fn spec_intersection(self, other: CategoryBitFlag) -> CategoryBitFlag {
        CategoryBitFlag(other.0 & self.0)
    }

    /// Whether this set and `other` have a category in common.
    pub open spec fn intersects(self, other: CategoryBitFlag) -> bool {
        self.spec_intersection(other).0 != 0
    }

    /// The categories of this set and those of `other`; `self | other`.
    pub fn union(self, other: CategoryBitFlag) -> (both: CategoryBitFlag)
        ensures
            both == self.spec_union(other),
    {
        CategoryBitFlag(other.0 | self.0)
    }

    /// The categories that this set and `other` have in common;
    /// `self & other`.
    pub fn intersection(self, other: CategoryBitFlag) -> (common: CategoryBitFlag)
        ensures
            common == self.spec_intersection(other),
    {
        CategoryBitFlag(other.0 & self.0)
    }
}

impl vstd::std_specs::ops::BitOrSpecImpl for CategoryBitFlag {
    open spec fn obeys_bitor_spec() -> bool {
        true
    }

    open spec fn bitor_req(self, rhs: Self) -> bool {
        true
    }

    open spec fn bitor_spec(self, rhs: Self) -> Self {
        self.spec_union(rhs)
    }
}

impl core::ops::BitOr for CategoryBitFlag {
    type Output = CategoryBitFlag;

    fn bitor(self, rhs: Self) -> (union: Self) {
        self.union(rhs)
    }
}

impl vstd::std_specs::ops::BitAndSpecImpl for CategoryBitFlag {
    open spec fn obeys_bitand_spec() -> bool {
        true
    }

    open spec fn bitand_req(self, rhs: Self) -> bool {
        true
    }

    open spec fn bitand_spec(self, rhs: Self) -> Self {
        self.spec_intersection(rhs)
    }
}

impl core::ops::BitAnd for CategoryBitFlag {
    type Output = CategoryBitFlag;

    fn bitand(self, rhs: Self) -> (common: Self) {
        self.intersection(rhs)
    }
}

/// The category set that holds only the category of bit `i`.
#[allow(non_snake_case)]
pub fn BIT(i: u8) -> (flag: CategoryBitFlag)
    requires
        i < 32,
    ensures
        flag.0 == 1u32 << i,
{
    CategoryBitFlag(bit(i))
}

/// The categories that an event can belong to, each as a set of its own.
pub struct EventCategory {}

impl EventCategory {
    /// No category at all.
    pub fn none() -> (flag: CategoryBitFlag)
        ensures
            flag == CategoryBitFlag(0),
    {
        CategoryBitFlag(0)
    }

    /// Occurrences of the window and of the application's life cycle.
    pub fn application() -> (flag: CategoryBitFlag)
        ensures
            flag == CategoryBitFlag(1),
    {
        let flag = BIT(0);
        assert(1u32 << 0u8 == 1u32) by (bit_vector);
        flag
    }

    /// Input of any device.
    pub fn input() -> (flag: CategoryBitFlag)
        ensures
            flag == CategoryBitFlag(2),
    {
        let flag = BIT(1);
        assert(1u32 << 1u8 == 2u32) by (bit_vector);
        flag
    }

    /// Input of the keyboard.
    pub fn keyboard() -> (flag: CategoryBitFlag)
        ensures
            flag == CategoryBitFlag(4),
    {
        let flag = BIT(2);
        assert(1u32 << 2u8 == 4u32) by (bit_vector);
        flag
    }

    /// Input of the pointing device.
    pub fn mouse() -> (flag: CategoryBitFlag)
        ensures
            flag == CategoryBitFlag(8),
    {
        let flag = BIT(3);
        assert(1u32 << 3u8 == 8u32) by (bit_vector);
        flag
    }

    /// Input of the pointing device's buttons.
    pub fn mouse_button() -> (flag: CategoryBitFlag)
        ensures
            flag == CategoryBitFlag(16),
    {
        let flag = BIT(4);
        assert(1u32 << 4u8 == 16u32) by (bit_vector);
        flag
    }
}

/// The kinds of occurrence that the engine knows.
#[derive(Clone, Copy, Debug, PartialEq, Eq, Structural)]
pub enum EventType {
    NoEvent,
    WindowClose,
    WindowResize,
    WindowFocus,
    WindowLostFocus,
    WindowMoved,
    AppTick,
    AppUpdate,
    AppRender,
    KeyPressed,
    KeyReleased,
    MouseButtonPressed,
    MouseButtonReleased,
    MouseMoved,
    MouseScrolled,
}

/// The categories of an event of kind `event_type`.
pub open spec fn category_of(event_type: EventType) -> CategoryBitFlag {
    match event_type {
        EventType::NoEvent => CategoryBitFlag(0),
        EventType::WindowClose
        | EventType::WindowResize
        | EventType::WindowFocus
        | EventType::WindowLostFocus
        | EventType::WindowMoved
        | EventType::AppTick
        | EventType::AppUpdate
        | EventType::AppRender => CategoryBitFlag(1),
        EventType::KeyPressed | EventType::KeyReleased => CategoryBitFlag(4u32 | 2u32),
        EventType::MouseButtonPressed | EventType::MouseButtonReleased => CategoryBitFlag(
            8u32 | 16u32 | 2u32,
        ),
        EventType::MouseMoved | EventType::MouseScrolled => CategoryBitFlag(8u32 | 2u32),
    }
}

/// One occurrence, of any of the kinds that the engine knows.
///
/// Each variant holds the payload of one or two kinds: a `Keyboard` event is
/// of kind `KeyPressed` or `KeyReleased`, by its `pressed` field.
#[derive(Clone, Copy, Debug, PartialEq, Eq)]
pub enum HexgemEvent {
    Empty(NoneEvent),
    WindowFocus(WindowFocusEvent),
    WindowClose(WindowCloseEvent),
    WindowResize(WindowResizeEvent),
    WindowMove(WindowMoveEvent),
    AppTick(AppTickEvent),
    AppUpdate(AppUpdateEvent),
    AppRender(AppRenderEvent),
    Keyboard(KeyboardEvent),
    MouseButton(MouseButtonEvent),
    MouseScroll(MouseScrollEvent),
    MouseMove(MouseMoveEvent),
}

impl HexgemEvent {
    /// The kind of occurrence that this event reports.
    pub open spec fn kind(self) -> EventType {
        match self {
            HexgemEvent::Empty(_) => EventType::NoEvent,
            HexgemEvent::WindowFocus(payload) => if payload.is_focused {
                EventType::WindowFocus
            } else {
                EventType::WindowLostFocus
            },
            HexgemEvent::WindowClose(_) => EventType::WindowClose,
            HexgemEvent::WindowResize(_) => EventType::WindowResize,
            HexgemEvent::WindowMove(_) => EventType::WindowMoved,
            HexgemEvent::AppTick(_) => EventType::AppTick,
            HexgemEvent::AppUpdate(_) => EventType::AppUpdate,
            HexgemEvent::AppRender(_) => EventType::AppRender,
            HexgemEvent::Keyboard(payload) => if payload.pressed {
                EventType::KeyPressed
            } else {
                EventType::KeyReleased
            },
            HexgemEvent::MouseButton(payload) => if payload.pressed {
                EventType::MouseButtonPressed
            } else {
                EventType::MouseButtonReleased
            },
            HexgemEvent::MouseScroll(_) => EventType::MouseScrolled,
            HexgemEvent::MouseMove(_) => EventType::MouseMoved,
        }
    }

    /// Whether a handler has consumed this event.
    pub open spec fn consumed(self) -> bool {
        match self {
            HexgemEvent::Empty(payload) => payload.handled,
            HexgemEvent::WindowFocus(payload) => payload.handled,
            HexgemEvent::WindowClose(payload) => payload.handled,
            HexgemEvent::WindowResize(payload) => payload.handled,
            HexgemEvent::WindowMove(payload) => payload.handled,
            HexgemEvent::AppTick(payload) => payload.handled,
            HexgemEvent::AppUpdate(payload) => payload.handled,
            HexgemEvent::AppRender(payload) => payload.handled,
            HexgemEvent::Keyboard(payload) => payload.handled,
            HexgemEvent::MouseButton(payload) => payload.handled,
            HexgemEvent::MouseScroll(payload) => payload.handled,
            HexgemEvent::MouseMove(payload) => payload.handled,
        }
    }

    /// This event with its handled flag set to `handled`, and nothing else
    /// changed.
    pub open spec fn marked(self, handled: bool) -> HexgemEvent {
        match self {
            HexgemEvent::Empty(_) => HexgemEvent::Empty(NoneEvent { handled }),
            HexgemEvent::WindowFocus(payload) => HexgemEvent::WindowFocus(
                WindowFocusEvent { handled, ..payload },
            ),
            HexgemEvent::WindowClose(_) => HexgemEvent::WindowClose(WindowCloseEvent { handled }),
            HexgemEvent::WindowResize(payload) => HexgemEvent::WindowResize(
                WindowResizeEvent { handled, ..payload },
            ),
            HexgemEvent::WindowMove(payload) => HexgemEvent::WindowMove(
                WindowMoveEvent { handled, ..payload },
            ),
            HexgemEvent::AppTick(_) => HexgemEvent::AppTick(AppTickEvent { handled }),
            HexgemEvent::AppUpdate(_) => HexgemEvent::AppUpdate(AppUpdateEvent { handled }),
            HexgemEvent::AppRender(_) => HexgemEvent::AppRender(AppRenderEvent { handled }),
            HexgemEvent::Keyboard(payload) => HexgemEvent::Keyboard(
                KeyboardEvent { handled, ..payload },
            ),
            HexgemEvent::MouseButton(payload) => HexgemEvent::MouseButton(
                MouseButtonEvent { handled, ..payload },
            ),
            HexgemEvent::MouseScroll(payload) => HexgemEvent::MouseScroll(
                MouseScrollEvent { handled, ..payload },
            ),
            HexgemEvent::MouseMove(payload) => HexgemEvent::MouseMove(
                MouseMoveEvent { handled, ..payload },
            ),
        }
    }

    /// Whether this event and `other` report the same occurrence: they
    /// differ in nothing, or in their handled flags only.
    pub open spec fn same_occurrence(self, other: HexgemEvent) -> bool {
        self.marked(false) == other.marked(false)
    }

    /// Whether this event may have come out of handlers that were given
    /// `before`: it reports the same occurrence, and is still handled if
    /// `before` was.
    pub open spec fn follows(self, before: HexgemEvent) -> bool {
        &&& self.same_occurrence(before)
        &&& before.consumed() ==> self.consumed()
    }
}

/// What every event of the taxonomy offers, whatever its payload.
pub trait Event: Sized {
    /// The kind of occurrence that this event reports.
    spec fn spec_event_type(&self) -> EventType;

    /// Whether a handler has consumed this event.
    spec fn spec_handled(&self) -> bool;

    /// This event with its handled flag set to `handled`.
    spec fn with_handled(self, handled: bool) -> Self;

    /// This event as a value of the sum of all events.
    spec fn as_event(self) -> HexgemEvent;

    /// The payload of `event`, where it is of this type.
    spec fn spec_downcast(event: HexgemEvent) -> Option<Self>;

    /// Whether the events of kind `event_type` have a payload of this type.
    spec fn carries(event_type: EventType) -> bool;

    /// An event holds a payload of this type exactly where its kind is one
    /// that this type carries, and the payload then is the whole event.
    proof fn lemma_downcast(event: HexgemEvent)
        ensures
            Self::spec_downcast(event) is Some <==> Self::carries(event.kind()),
            Self::spec_downcast(event) matches Some(payload) ==> payload.as_event() == event,
    ;

    /// The sum keeps the kind and the handled flag of a payload, and gives
    /// the payload back.
    proof fn lemma_as_event(self)
        ensures
            Self::spec_downcast(self.as_event()) == Some(self),
            self.as_event().kind() == self.spec_event_type(),
            self.as_event().consumed() == self.spec_handled(),
            Self::carries(self.spec_event_type()),
    ;

    /// The handled flag can be set and read back, and setting it changes
    /// nothing else.
    proof fn lemma_with_handled(self, first: bool, second: bool)
        ensures
            self.with_handled(first).spec_handled() == first,
            self.with_handled(self.spec_handled()) == self,
            self.with_handled(first).with_handled(second) == self.with_handled(second),
            self.with_handled(first).spec_event_type() == self.spec_event_type(),
            self.with_handled(first).as_event() == self.as_event().marked(first),
    ;

    /// Whether a handler has consumed this event.
    fn handled(&self) -> (handled: bool)
        ensures
            handled == self.spec_handled(),
    ;

    /// Marks this event as consumed.
    fn set_handled(&mut self)
        ensures
            *final(self) == old(self).with_handled(true),
    ;

    /// The kind of occurrence that this event reports.
    fn get_event_type(&self) -> (event_type: EventType)
        ensures
            event_type == self.spec_event_type(),
    ;

    /// The categories of this event, which its kind alone decides.
    fn get_category(&self) -> (category: CategoryBitFlag)
        ensures
            category == category_of(self.spec_event_type()),
    ;

    /// Whether a handler has consumed this event; the same as `handled`.
    fn is_handled(&self) -> (handled: bool)
        ensures
            handled == self.spec_handled(),
    ;

    /// Whether this event belongs to one of the categories of `category`.
    fn is_in_category(&self, category: CategoryBitFlag) -> (inside: bool)
        ensures
            inside == category_of(self.spec_event_type()).intersects(category),
    {
        self.get_category().intersection(category).0 != 0
    }

    /// The payload of `event`, where it is of this type.
    fn downcast(event: &HexgemEvent) -> (payload: Option<&Self>)
        ensures
            payload matches Some(found) ==> Self::spec_downcast(*event) == Some(*found),
            payload is None ==> Self::spec_downcast(*event) is None,
    ;

    /// This event as a value of the sum of all events.
    fn into_event(self) -> (event: HexgemEvent)
        ensures
            event == self.as_event(),
    ;
}

/// Nothing happened: the event that stands for a frame without input.
#[derive(Clone, Copy, Debug, PartialEq, Eq, Structural)]
pub struct NoneEvent {
    pub handled: bool,
}

impl NoneEvent {
    /// A fresh event, which nobody has handled yet.
    pub fn create() -> (event: Self)
        ensures
            event == (NoneEvent { handled: false }),
            !event.spec_handled(),
    {
        Self { handled: false }
    }
}

impl Event for NoneEvent {
    open spec fn spec_event_type(&self) -> EventType {
        EventType::NoEvent
    }

    open spec fn spec_handled(&self) -> bool {
        self.handled
    }

    open spec fn with_handled(self, handled: bool) -> Self {
        NoneEvent { handled }
    }

    open spec fn as_event(self) -> HexgemEvent {
        HexgemEvent::Empty(self)
    }

    open spec fn spec_downcast(event: HexgemEvent) -> Option<Self> {
        match event {
            HexgemEvent::Empty(payload) => Some(payload),
            _ => None,
        }
    }

    open spec fn carries(event_type: EventType) -> bool {
        event_type == EventType::NoEvent
    }

    proof fn lemma_downcast(event: HexgemEvent) {
    }

    proof fn lemma_as_event(self) {
    }

    proof fn lemma_with_handled(self, first: bool, second: bool) {
    }

    fn handled(&self) -> bool {
        self.handled
    }

    fn set_handled(&mut self) {
        self.handled = true;
    }

    fn get_event_type(&self) -> EventType {
        EventType::NoEvent
    }

    fn get_category(&self) -> CategoryBitFlag {
        EventCategory::none()
    }

    fn is_handled(&self) -> bool {
        self.handled
    }

    fn downcast(event: &HexgemEvent) -> Option<&Self> {
        match event {
            HexgemEvent::Empty(payload) => Some(payload),
            _ => None,
        }
    }

    fn into_event(self) -> HexgemEvent {
        HexgemEvent::Empty(self)
    }
}

impl Event for HexgemEvent {
    open spec fn spec_event_type(&self) -> EventType {
        self.kind()
    }

    open spec fn spec_handled(&self) -> bool {
        self.consumed()
    }

    open spec fn with_handled(self, handled: bool) -> Self {
        self.marked(handled)
    }

    open spec fn as_event(self) -> HexgemEvent {
        self
    }

    open spec fn spec_downcast(event: HexgemEvent) -> Option<Self> {
        Some(event)
    }

    open spec fn carries(event_type: EventType) -> bool {
        true
    }

    proof fn lemma_downcast(event: HexgemEvent) {
    }

    proof fn lemma_as_event(self) {
    }

    proof fn lemma_with_handled(self, first: bool, second: bool) {
    }

    fn handled(&self) -> bool {
        self.is_handled()
    }

    fn set_handled(&mut self) {
        match self {
            HexgemEvent::Empty(payload) => payload.set_handled(),
            HexgemEvent::WindowFocus(payload) => payload.set_handled(),
            HexgemEvent::WindowClose(payload) => payload.set_handled(),
            HexgemEvent::WindowResize(payload) => payload.set_handled(),
            HexgemEvent::WindowMove(payload) => payload.set_handled(),
            HexgemEvent::AppTick(payload) => payload.set_handled(),
            HexgemEvent::AppUpdate(payload) => payload.set_handled(),
            HexgemEvent::AppRender(payload) => payload.set_handled(),
            HexgemEvent::Keyboard(payload) => payload.set_handled(),
            HexgemEvent::MouseButton(payload) => payload.set_handled(),
            HexgemEvent::MouseScroll(payload) => payload.set_handled(),
            HexgemEvent::MouseMove(payload) => payload.set_handled(),
        }
    }

    fn get_event_type(&self) -> EventType {
        match self {
            HexgemEvent::Empty(payload) => payload.get_event_type(),
            HexgemEvent::WindowFocus(payload) => payload.get_event_type(),
            HexgemEvent::WindowClose(payload) => payload.get_event_type(),
            HexgemEvent::WindowResize(payload) => payload.get_event_type(),
            HexgemEvent::WindowMove(payload) => payload.get_event_type(),
            HexgemEvent::AppTick(payload) => payload.get_event_type(),
            HexgemEvent::AppUpdate(payload) => payload.get_event_type(),
            HexgemEvent::AppRender(payload) => payload.get_event_type(),
            HexgemEvent::Keyboard(payload) => payload.get_event_type(),
            HexgemEvent::MouseButton(payload) => payload.get_event_type(),
            HexgemEvent::MouseScroll(payload) => payload.get_event_type(),
            HexgemEvent::MouseMove(payload) => payload.get_event_type(),
        }
    }

    fn get_category(&self) -> CategoryBitFlag {
        match self {
            HexgemEvent::Empty(payload) => payload.get_category(),
            HexgemEvent::WindowFocus(payload) => payload.get_category(),
            HexgemEvent::WindowClose(payload) => payload.get_category(),
            HexgemEvent::WindowResize(payload) => payload.get_category(),
            HexgemEvent::WindowMove(payload) => payload.get_category(),
            HexgemEvent::AppTick(payload) => payload.get_category(),
            HexgemEvent::AppUpdate(payload) => payload.get_category(),
            HexgemEvent::AppRender(payload) => payload.get_category(),
            HexgemEvent::Keyboard(payload) => payload.get_category(),
            HexgemEvent::MouseButton(payload) => payload.get_category(),
            HexgemEvent::MouseScroll(payload) => payload.get_category(),
            HexgemEvent::MouseMove(payload) => payload.get_category(),
        }
    }

    fn is_handled(&self) -> bool {
        match self {
            HexgemEvent::Empty(payload) => payload.is_handled(),
            HexgemEvent::WindowFocus(payload) => payload.is_handled(),
            HexgemEvent::WindowClose(payload) => payload.is_handled(),
            HexgemEvent::WindowResize(payload) => payload.is_handled(),
            HexgemEvent::WindowMove(payload) => payload.is_handled(),
            HexgemEvent::AppTick(payload) => payload.is_handled(),
            HexgemEvent::AppUpdate(payload) => payload.is_handled(),
            HexgemEvent::AppRender(payload) => payload.is_handled(),
            HexgemEvent::Keyboard(payload) => payload.is_handled(),
            HexgemEvent::MouseButton(payload) => payload.is_handled(),
            HexgemEvent::MouseScroll(payload) => payload.is_handled(),
            HexgemEvent::MouseMove(payload) => payload.is_handled(),
        }
    }

    fn downcast(event: &HexgemEvent) -> Option<&Self> {
        Some(event)
    }

    fn into_event(self) -> HexgemEvent {
        self
    }
}

/// What a handler's answer means for the event: only an explicit
/// `Some(false)` leaves it unhandled.
pub open spec fn counts_as_handled(answer: Option<bool>) -> bool {
    answer != Some(false)
}

/// Whether a handler for events of kind `event_type` that gives `answer`
/// when it is called uses `event`: it does not use an event of another kind,
/// and it uses one of this kind unless it says otherwise.
pub open spec fn dispatch_uses(
    event: HexgemEvent,
    event_type: EventType,
    answer: Option<bool>,
) -> bool {
    event.kind() == event_type && counts_as_handled(answer)
}

/// Offers one event to typed handlers, each of which names the kind of
/// event it wants.
pub struct EventDispatcher<'a> {
    event: &'a HexgemEvent,
}

impl<'a> EventDispatcher<'a> {
    /// The event that this dispatcher offers.
    pub closed spec fn event(&self) -> HexgemEvent {
        *self.event
    }

    /// A dispatcher that offers `event`.
    pub fn from(event: &'a HexgemEvent) -> (dispatcher: Self)
        ensures
            dispatcher.event() == *event,
    {
        Self { event }
    }

    /// Whether a handler that gave `answer` has handled the event.
    pub fn resolve(answer: Option<bool>) -> (handled: bool)
        ensures
            handled == counts_as_handled(answer),
    {
        match answer {
            Some(result) => result,
            None => true,
        }
    }

    /// Hands the event to `callback` if it is of kind `event_type`, and
    /// says whether the callback handled it.
    ///
    /// An event of another kind is not handed out, and the callback is then
    /// never called: nothing is asked of it. A caller that names a kind has
    /// to name a payload type `I` that carries it.
    pub fn dispatch<I: Event, F: FnOnce(&I) -> Option<bool>>(
        &self,
        event_type: EventType,
        callback: F,
    ) -> (used: bool)
        requires
            self.event().kind() == event_type ==> I::spec_downcast(self.event()) is Some,
            self.event().kind() == event_type ==> call_requires(
                callback,
                (&I::spec_downcast(self.event())->0,),
            ),
        ensures
            self.event().kind() != event_type ==> !used,
            self.event().kind() == event_type ==> exists|answer: Option<bool>|
                #[trigger] call_ensures(
                    callback,
                    (&I::spec_downcast(self.event())->0,),
                    answer,
                ) && used == dispatch_uses(self.event(), event_type, answer),
    {
        if self.event.get_event_type() == event_type {
            match I::downcast(self.event) {
                Some(payload) => {
                    let answer = callback(payload);
                    Self::resolve(answer)
                },
                None => false,
            }
        } else {
            false
        }
    }
}

/// Offering an event a second time ends as it did the first time: whether
/// the event is used depends on its kind, on the kind asked for and on the
/// handler's answer, none of which a dispatch changes, and not even on the
/// handled flag. A handler that answers nothing uses exactly the events of
/// its kind.
pub proof fn lemma_dispatch_is_repeatable(
    event: HexgemEvent,
    again: HexgemEvent,
    event_type: EventType,
    answer: Option<bool>,
)
    requires
        again.same_occurrence(event),
    ensures
        dispatch_uses(again, event_type, answer) == dispatch_uses(
            event,
            event_type,
            answer,
        ),
        dispatch_uses(event, event_type, None) == (event.kind() == event_type),
{
    assert(event.marked(false).kind() == event.kind());
    assert(again.marked(false).kind() == again.kind());
}

/// A handler is used for events of its own kind only, so of the handlers
/// for two different kinds at most one uses a given event, whatever they
/// answer.
pub proof fn lemma_dispatch_matches_one_kind(
    event: HexgemEvent,
    first: EventType,
    second: EventType,
    first_answer: Option<bool>,
    second_answer: Option<bool>,
)
    requires
        first != second,
    ensures
        event.kind() != first ==> !dispatch_uses(event, first, first_answer),
        !(dispatch_uses(event, first, first_answer) && dispatch_uses(
            event,
            second,
            second_answer,
        )),
{
}

/// The kind of an event decides its payload type: a payload type that
/// carries the kind asked for is the payload type of every event of that
/// kind, so a handler is always handed the payload it was written for.
pub proof fn lemma_payload_follows_kind<I: Event>(event: HexgemEvent, event_type: EventType)
    requires
        I::carries(event_type),
        event.kind() == event_type,
    ensures
        I::spec_downcast(event) is Some,
        I::spec_downcast(event)->0.as_event() == event,
        I::spec_downcast(event)->0.spec_event_type() == event_type,
{
    I::lemma_downcast(event);
    I::spec_downcast(event)->0.lemma_as_event();
}

/// Setting the handled flag never changes what an event reports: its kind
/// and its categories stay, and a flag that is set stays set.
pub proof fn lemma_marking_keeps_the_occurrence(event: HexgemEvent, handled: bool)
    ensures
        event.marked(handled).kind() == event.kind(),
        category_of(event.marked(handled).kind()) == category_of(event.kind()),
        event.marked(handled).consumed() == handled,
        event.marked(handled).same_occurrence(event),
        event.marked(event.consumed()) == event,
        event.marked(true).follows(event),
{
}

} // verus!
