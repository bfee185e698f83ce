use crate::event::{CategoryBitFlag, Event, EventCategory, EventType, HexgemEvent};
use crate::primitives::{Position, Size};
use vstd::prelude::*;

verus! {

/// The window gained or lost the input focus.
#[derive(Clone, Copy, Debug, PartialEq, Eq, Structural)]
pub struct WindowFocusEvent {
    pub is_focused: bool,
    pub handled: bool,
}

impl WindowFocusEvent {
    /// A fresh event, which nobody has handled yet.
    pub fn create(is_focused: bool) -> (event: Self)
        ensures
            event == (WindowFocusEvent { is_focused, handled: false }),
            !event.spec_handled(),
    {
        Self { is_focused, handled: false }
    }
}

impl Event for WindowFocusEvent {
    open spec fn spec_event_type(&self) -> EventType {
        if self.is_focused {
            EventType::WindowFocus
        } else {
            EventType::WindowLostFocus
        }
    }

    open spec fn spec_handled(&self) -> bool {
        self.handled
    }

    open spec fn with_handled(self, handled: bool) -> Self {
        WindowFocusEvent { handled, ..self }
    }

    open spec fn as_event(self) -> HexgemEvent {
        HexgemEvent::WindowFocus(self)
    }

    open spec fn spec_downcast(event: HexgemEvent) -> Option<Self> {
        match event {
            HexgemEvent::WindowFocus(payload) => Some(payload),
            _ => None,
        }
    }

    open spec fn carries(event_type: EventType) -> bool {
        event_type == EventType::WindowFocus || event_type == EventType::WindowLostFocus
    }

    proof fn lemma_downcast(event: HexgemEvent) {
    }

    proof fn lemma_as_event(self) {
    }

    proof fn lemma_with_handled(self, first: bool, second: bool) {
    }

    fn handled(&self) -> bool {
        self.handled
    }

    fn set_handled(&mut self) {
        self.handled = true;
    }

    fn get_event_type(&self) -> EventType {
        if self.is_focused {
            EventType::WindowFocus
        } else {
            EventType::WindowLostFocus
        }
    }

    fn get_category(&self) -> CategoryBitFlag {
        EventCategory::application()
    }

    fn is_handled(&self) -> bool {
        self.handled
    }

    fn downcast(event: &HexgemEvent) -> Option<&Self> {
        match event {
            HexgemEvent::WindowFocus(payload) => Some(payload),
            _ => None,
        }
    }

    fn into_event(self) -> HexgemEvent {
        HexgemEvent::WindowFocus(self)
    }
}

/// The user asked to close the window.
#[derive(Clone, Copy, Debug, PartialEq, Eq, Structural)]
pub struct WindowCloseEvent {
    pub handled: bool,
}

impl WindowCloseEvent {
    /// A fresh event, which nobody has handled yet.
    pub fn create() -> (event: Self)
        ensures
            event == (WindowCloseEvent { handled: false }),
            !event.spec_handled(),
    {
        Self { handled: false }
    }
}

impl Event for WindowCloseEvent {
    open spec fn spec_event_type(&self) -> EventType {
        EventType::WindowClose
    }

    open spec fn spec_handled(&self) -> bool {
        self.handled
    }

    open spec fn with_handled(self, handled: bool) -> Self {
        WindowCloseEvent { handled }
    }

    open spec fn as_event(self) -> HexgemEvent {
        HexgemEvent::WindowClose(self)
    }

    open spec fn spec_downcast(event: HexgemEvent) -> Option<Self> {
        match event {
            HexgemEvent::WindowClose(payload) => Some(payload),
            _ => None,
        }
    }

    open spec fn carries(event_type: EventType) -> bool {
        event_type == EventType::WindowClose
    }

    proof fn lemma_downcast(event: HexgemEvent) {
    }

    proof fn lemma_as_event(self) {
    }

    proof fn lemma_with_handled(self, first: bool, second: bool) {
    }

    fn handled(&self) -> bool {
        self.handled
    }

    fn set_handled(&mut self) {
        self.handled = true;
    }

    fn get_event_type(&self) -> EventType {
        EventType::WindowClose
    }

    fn get_category(&self) -> CategoryBitFlag {
        EventCategory::application()
    }

    fn is_handled(&self) -> bool {
        self.handled
    }

    fn downcast(event: &HexgemEvent) -> Option<&Self> {
        match event {
            HexgemEvent::WindowClose(payload) => Some(payload),
            _ => None,
        }
    }

    fn into_event(self) -> HexgemEvent {
        HexgemEvent::WindowClose(self)
    }
}

/// The window has a new size, in pixels.
#[derive(Clone, Copy, Debug, PartialEq, Eq)]
pub struct WindowResizeEvent {
    pub handled: bool,
    pub size: Size<i32>,
}

impl WindowResizeEvent {
    /// A fresh event, which nobody has handled yet.
    pub fn create(size: Size<i32>) -> (event: Self)
        ensures
            event == (WindowResizeEvent { size, handled: false }),
            !event.spec_handled(),
    {
        Self { size, handled: false }
    }
}

impl Event for WindowResizeEvent {
    open spec fn spec_event_type(&self) -> EventType {
        EventType::WindowResize
    }

    open spec fn spec_handled(&self) -> bool {
        self.handled
    }

    open spec fn with_handled(self, handled: bool) -> Self {
        WindowResizeEvent { handled, ..self }
    }

    open spec fn as_event(self) -> HexgemEvent {
        HexgemEvent::WindowResize(self)
    }

    open spec fn spec_downcast(event: HexgemEvent) -> Option<Self> {
        match event {
            HexgemEvent::WindowResize(payload) => Some(payload),
            _ => None,
        }
    }

    open spec fn carries(event_type: EventType) -> bool {
        event_type == EventType::WindowResize
    }

    proof fn lemma_downcast(event: HexgemEvent) {
    }

    proof fn lemma_as_event(self) {
    }

    proof fn lemma_with_handled(self, first: bool, second: bool) {
    }

    fn handled(&self) -> bool {
        self.handled
    }

    fn set_handled(&mut self) {
        self.handled = true;
    }

    fn get_event_type(&self) -> EventType {
        EventType::WindowResize
    }

    fn get_category(&self) -> CategoryBitFlag {
        EventCategory::application()
    }

    fn is_handled(&self) -> bool {
        self.handled
    }

    fn downcast(event: &HexgemEvent) -> Option<&Self> {
        match event {
            HexgemEvent::WindowResize(payload) => Some(payload),
            _ => None,
        }
    }

    fn into_event(self) -> HexgemEvent {
        HexgemEvent::WindowResize(self)
    }
}

/// The window has a new position on the screen.
#[derive(Clone, Copy, Debug, PartialEq, Eq)]
pub struct WindowMoveEvent {
    pub handled: bool,
    pub position: Position<i32>,
}

impl WindowMoveEvent {
    /// A fresh event, which nobody has handled yet.
    pub fn create(position: Position<i32>) -> (event: Self)
        ensures
            event == (WindowMoveEvent { position, handled: false }),
            !event.spec_handled(),
    {
        Self { position, handled: false }
    }
}

impl Event for WindowMoveEvent {
    open spec fn spec_event_type(&self) -> EventType {
        EventType::WindowMoved
    }

    open spec fn spec_handled(&self) -> bool {
        self.handled
    }

    open spec fn with_handled(self, handled: bool) -> Self {
        WindowMoveEvent { handled, ..self }
    }

    open spec fn as_event(self) -> HexgemEvent {
        HexgemEvent::WindowMove(self)
    }

    open spec fn spec_downcast(event: HexgemEvent) -> Option<Self> {
        match event {
            HexgemEvent::WindowMove(payload) => Some(payload),
            _ => None,
        }
    }

    open spec fn carries(event_type: EventType) -> bool {
        event_type == EventType::WindowMoved
    }

    proof fn lemma_downcast(event: HexgemEvent) {
    }

    proof fn lemma_as_event(self) {
    }

    proof fn lemma_with_handled(self, first: bool, second: bool) {
    }

    fn handled(&self) -> bool {
        self.handled
    }

    fn set_handled(&mut self) {
        self.handled = true;
    }

    fn get_event_type(&self) -> EventType {
        EventType::WindowMoved
    }

    fn get_category(&self) -> CategoryBitFlag {
        EventCategory::application()
    }

    fn is_handled(&self) -> bool {
        self.handled
    }

    fn downcast(event: &HexgemEvent) -> Option<&Self> {
        match event {
            HexgemEvent::WindowMove(payload) => Some(payload),
            _ => None,
        }
    }

    fn into_event(self) -> HexgemEvent {
        HexgemEvent::WindowMove(self)
    }
}

/// The application clock ticked.
#[derive(Clone, Copy, Debug, PartialEq, Eq, Structural)]
pub struct AppTickEvent {
    pub handled: bool,
}

impl AppTickEvent {
    /// A fresh event, which nobody has handled yet.
    pub fn create() -> (event: Self)
        ensures
            event == (AppTickEvent { handled: false }),
            !event.spec_handled(),
    {
        Self { handled: false }
    }
}

impl Event for AppTickEvent {
    open spec fn spec_event_type(&self) -> EventType {
        EventType::AppTick
    }

    open spec fn spec_handled(&self) -> bool {
        self.handled
    }

    open spec fn with_handled(self, handled: bool) -> Self {
        AppTickEvent { handled }
    }

    open spec fn as_event(self) -> HexgemEvent {
        HexgemEvent::AppTick(self)
    }

    open spec fn spec_downcast(event: HexgemEvent) -> Option<Self> {
        match event {
            HexgemEvent::AppTick(payload) => Some(payload),
            _ => None,
        }
    }

    open spec fn carries(event_type: EventType) -> bool {
        event_type == EventType::AppTick
    }

    proof fn lemma_downcast(event: HexgemEvent) {
    }

    proof fn lemma_as_event(self) {
    }

    proof fn lemma_with_handled(self, first: bool, second: bool) {
    }

    fn handled(&self) -> bool {
        self.handled
    }

    fn set_handled(&mut self) {
        self.handled = true;
    }

    fn get_event_type(&self) -> EventType {
        EventType::AppTick
    }

    fn get_category(&self) -> CategoryBitFlag {
        EventCategory::application()
    }

    fn is_handled(&self) -> bool {
        self.handled
    }

    fn downcast(event: &HexgemEvent) -> Option<&Self> {
        match event {
            HexgemEvent::AppTick(payload) => Some(payload),
            _ => None,
        }
    }

    fn into_event(self) -> HexgemEvent {
        HexgemEvent::AppTick(self)
    }
}

/// The application is about to update its state.
#[derive(Clone, Copy, Debug, PartialEq, Eq, Structural)]
pub struct AppUpdateEvent {
    pub handled: bool,
}

impl AppUpdateEvent {
    /// A fresh event, which nobody has handled yet.
    pub fn create() -> (event: Self)
        ensures
            event == (AppUpdateEvent { handled: false }),
            !event.spec_handled(),
    {
        Self { handled: false }
    }
}

impl Event for AppUpdateEvent {
    open spec fn spec_event_type(&self) -> EventType {
        EventType::AppUpdate
    }

    open spec fn spec_handled(&self) -> bool {
        self.handled
    }

    open spec fn with_handled(self, handled: bool) -> Self {
        AppUpdateEvent { handled }
    }

    open spec fn as_event(self) -> HexgemEvent {
        HexgemEvent::AppUpdate(self)
    }

    open spec fn spec_downcast(event: HexgemEvent) -> Option<Self> {
        match event {
            HexgemEvent::AppUpdate(payload) => Some(payload),
            _ => None,
        }
    }

    open spec fn carries(event_type: EventType) -> bool {
        event_type == EventType::AppUpdate
    }

    proof fn lemma_downcast(event: HexgemEvent) {
    }

    proof fn lemma_as_event(self) {
    }

    proof fn lemma_with_handled(self, first: bool, second: bool) {
    }

    fn handled(&self) -> bool {
        self.handled
    }

    fn set_handled(&mut self) {
        self.handled = true;
    }

    fn get_event_type(&self) -> EventType {
        EventType::AppUpdate
    }

    fn get_category(&self) -> CategoryBitFlag {
        EventCategory::application()
    }

    fn is_handled(&self) -> bool {
        self.handled
    }

    fn downcast(event: &HexgemEvent) -> Option<&Self> {
        match event {
            HexgemEvent::AppUpdate(payload) => Some(payload),
            _ => None,
        }
    }

    fn into_event(self) -> HexgemEvent {
        HexgemEvent::AppUpdate(self)
    }
}

/// The application is about to draw a frame.
#[derive(Clone, Copy, Debug, PartialEq, Eq, Structural)]
pub struct AppRenderEvent {
    pub handled: bool,
}

impl AppRenderEvent {
    /// A fresh event, which nobody has handled yet.
    pub fn create() -> (event: Self)
        ensures
            event == (AppRenderEvent { handled: false }),
            !event.spec_handled(),
    {
        Self { handled: false }
    }
}

impl Event for AppRenderEvent {
    open spec fn spec_event_type(&self) -> EventType {
        EventType::AppRender
    }

    open spec fn spec_handled(&self) -> bool {
        self.handled
    }

    open spec fn with_handled(self, handled: bool) -> Self {
        AppRenderEvent { handled }
    }

    open spec fn as_event(self) -> HexgemEvent {
        HexgemEvent::AppRender(self)
    }

    open spec fn spec_downcast(event: HexgemEvent) -> Option<Self> {
        match event {
            HexgemEvent::AppRender(payload) => Some(payload),
            _ => None,
        }
    }

    open spec fn carries(event_type: EventType) -> bool {
        event_type == EventType::AppRender
    }

    proof fn lemma_downcast(event: HexgemEvent) {
    }

    proof fn lemma_as_event(self) {
    }

    proof fn lemma_with_handled(self, first: bool, second: bool) {
    }

    fn handled(&self) -> bool {
        self.handled
    }

    fn set_handled(&mut self) {
        self.handled = true;
    }

    fn get_event_type(&self) -> EventType {
        EventType::AppRender
    }

    fn get_category(&self) -> CategoryBitFlag {
        EventCategory::application()
    }

    fn is_handled(&self) -> bool {
        self.handled
    }

    fn downcast(event: &HexgemEvent) -> Option<&Self> {
        match event {
            HexgemEvent::AppRender(payload) => Some(payload),
            _ => None,
        }
    }

    fn into_event(self) -> HexgemEvent {
        HexgemEvent::AppRender(self)
    }
}

} // verus!
