use crate::event::HexgemEvent;
use vstd::prelude::*;

verus! {

/// A unit of per-frame work and of event handling, for a window of type `W`.
///
/// A layer answers an event by marking it handled or by leaving it as it
/// is. It is never handed an event that is handled already, and nothing
/// else that it does to the event lasts: the next layer gets the event as it
/// was made.
pub trait Layer<W> {
    fn get_name(&self) -> &'static str;

    /// Called when the layer joins an application.
    fn on_attach(&mut self) {
    }

    /// Called when the layer leaves its application.
    fn on_detach(&mut self) {
    }

    /// Called once in every frame, before the frame's events.
    fn on_update(&mut self, window: &mut W) {
    }

    /// Called for every event that no layer before this one has handled.
    fn on_event(&mut self, event: &mut HexgemEvent, window: &mut W)
        requires
            !old(event).consumed(),
    ;
}

/// A boxed layer is the layer in the box: every call goes on to it, with
/// what it was called with, and what the layer in the box does and answers
/// is what the boxed layer does and answers.
impl<W, T: Layer<W> + ?Sized> Layer<W> for Box<T> {
    fn get_name(&self) -> (name: &'static str)
        ensures
            call_ensures(T::get_name, (&**self,), name),
    {
        (**self).get_name()
    }

    fn on_attach(&mut self)
        ensures
            exists|inner: &mut T|
                &*inner == &**old(self) && &*final(inner) == &**final(self)
                    && #[trigger] call_ensures(T::on_attach, (inner,), ()),
    {
        let inner: &mut T = &mut **self;
        inner.on_attach();
    }

    fn on_detach(&mut self)
        ensures
            exists|inner: &mut T|
                &*inner == &**old(self) && &*final(inner) == &**final(self)
                    && #[trigger] call_ensures(T::on_detach, (inner,), ()),
    {
        let inner: &mut T = &mut **self;
        inner.on_detach();
    }

    fn on_update(&mut self, window: &mut W)
        ensures
            exists|inner: &mut T, seen: &mut W|
                &*inner == &**old(self) && &*final(inner) == &**final(self) && *seen == *old(
                    window,
                ) && *final(seen) == *final(window) && #[trigger] call_ensures(
                    T::on_update,
                    (inner, seen),
                    (),
                ),
    {
        let inner: &mut T = &mut **self;
        inner.on_update(window);
    }

    fn on_event(&mut self, event: &mut HexgemEvent, window: &mut W)
        ensures
            exists|inner: &mut T, offered: &mut HexgemEvent, seen: &mut W|
                &*inner == &**old(self) && &*final(inner) == &**final(self) && *offered == *old(
                    event,
                ) && *final(offered) == *final(event) && *seen == *old(window) && *final(seen)
                    == *final(window) && #[trigger] call_ensures(
                    T::on_event,
                    (inner, offered, seen),
                    (),
                ),
    {
        let inner: &mut T = &mut **self;
        inner.on_event(event, window);
    }
}

} // verus!
