//! Event dispatch and layer propagation core of the Hexgem engine.
//!
//! An input or window occurrence becomes a [`HexgemEvent`], is offered to
//! typed handlers through an [`EventDispatcher`], and then travels down a
//! [`LayerStack`] until some layer marks it handled.
pub mod application;
pub mod application_event;
pub mod event;
pub mod event_emitter;
pub mod hexgem_types;
pub mod hook_call;
pub mod key_event;
pub mod layer;
pub mod layer_stack;
pub mod mouse_event;
pub mod primitives;
pub mod window;
pub mod window_types;

pub use crate::application::{
    handed_to_layers, is_quit_chord, none_requests_quit, requests_quit, run_app, Application,
    HexgemApp,
};
pub use crate::application_event::{
    AppRenderEvent, AppTickEvent, AppUpdateEvent, WindowCloseEvent, WindowFocusEvent,
    WindowMoveEvent, WindowResizeEvent,
};
pub use crate::event::{
    category_of, counts_as_handled, dispatch_uses, CategoryBitFlag, Event, EventCategory,
    EventDispatcher,
    EventType, HexgemEvent, NoneEvent, BIT,
};
pub use crate::event_emitter::{
    count_listeners, EventEmitter, EventHandler, EventSubscription, Listener,
};
pub use crate::hexgem_types::{Key, Mod, Modifiers, MouseButton};
pub use crate::hook_call::{chained, is_turn, HookCall};
pub use crate::key_event::KeyboardEvent;
pub use crate::layer::Layer;
pub use crate::layer_stack::{offered_to, Delivery, LayerStack};
pub use crate::mouse_event::{MouseButtonEvent, MouseMoveEvent, MouseScrollEvent};
pub use crate::primitives::{bit, FloatBits, Position, Size};
pub use crate::window::{Window, WindowProps};
pub use crate::window_types::{Action, GlfwEvent, SdlEvent, SdlWindowEvent};
