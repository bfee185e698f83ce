use crate::event::HexgemEvent;
use vstd::prelude::*;

verus! {

/// What a window is created with.
pub struct WindowProps {
    pub title: &'static str,
    pub width: u32,
    pub height: u32,
}

impl Default for WindowProps {
    /// A window of 1280 by 720 pixels with the title "HexgemApp".
    fn default() -> (props: Self)
        ensures
            props.title@ == "HexgemApp"@,
            props.width == 1280,
            props.height == 720,
    {
        Self { title: "HexgemApp", width: 1280, height: 720 }
    }
}

/// A native window, as the application loop needs it.
///
/// The engine asks nothing of what a window answers: whatever a backend
/// reports is taken as it comes.
pub trait Window: Sized {
    /// Opens a window. A backend that cannot open one does not return.
    fn create(props: WindowProps) -> Self;

    fn is_vsync(&self) -> bool;

    /// The width of the window's content, in pixels.
    fn get_width(&self) -> i32;

    /// The height of the window's content, in pixels.
    fn get_height(&self) -> i32;

    fn set_vsync(&mut self, enabled: bool);

    /// Presents the frame and hands out the occurrences that have queued up
    /// since the last call, oldest first; none if nothing happened.
    fn on_update(&mut self) -> Vec<HexgemEvent>;
}

} // verus!
