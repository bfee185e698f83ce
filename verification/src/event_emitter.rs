use crate::event::{category_of, CategoryBitFlag, Event, EventType, HexgemEvent};
use vstd::prelude::*;

verus! {

/// Something that wants to hear of events. Both hooks do nothing unless a
/// handler says otherwise.
pub trait EventHandler {
    fn handle_event(&self, event: &HexgemEvent) {
    }

    fn handle_category(&self, category: &CategoryBitFlag) {
    }
}

/// The place of a kind of event among the fifteen kinds.
pub open spec fn slot(event_type: EventType) -> int {
    match event_type {
        EventType::NoEvent => 0,
        EventType::WindowClose => 1,
        EventType::WindowResize => 2,
        EventType::WindowFocus => 3,
        EventType::WindowLostFocus => 4,
        EventType::WindowMoved => 5,
        EventType::AppTick => 6,
        EventType::AppUpdate => 7,
        EventType::AppRender => 8,
        EventType::KeyPressed => 9,
        EventType::KeyReleased => 10,
        EventType::MouseButtonPressed => 11,
        EventType::MouseButtonReleased => 12,
        EventType::MouseMoved => 13,
        EventType::MouseScrolled => 14,
    }
}

fn slot_of(event_type: EventType) -> (place: usize)
    ensures
        place == slot(event_type),
        place < 15,
{
    match event_type {
        EventType::NoEvent => 0,
        EventType::WindowClose => 1,
        EventType::WindowResize => 2,
        EventType::WindowFocus => 3,
        EventType::WindowLostFocus => 4,
        EventType::WindowMoved => 5,
        EventType::AppTick => 6,
        EventType::AppUpdate => 7,
        EventType::AppRender => 8,
        EventType::KeyPressed => 9,
        EventType::KeyReleased => 10,
        EventType::MouseButtonPressed => 11,
        EventType::MouseButtonReleased => 12,
        EventType::MouseMoved => 13,
        EventType::MouseScrolled => 14,
    }
}

/// The receipt for one registered handler: the kind of event it listens to,
/// and its number among the handlers ever registered for that kind.
#[derive(Clone, Copy, Debug, PartialEq, Eq, Structural)]
pub struct EventSubscription {
    event_type: EventType,
    index: i32,
}

impl EventSubscription {
    /// The kind of event that the handler listens to.
    pub closed spec fn spec_event_type(self) -> EventType {
        self.event_type
    }

    /// The number of the handler among those of its kind.
    pub closed spec fn spec_index(self) -> int {
        self.index as int
    }

    /// The kind of event that the handler listens to.
    pub fn event_type(&self) -> (event_type: EventType)
        ensures
            event_type == self.spec_event_type(),
    {
        self.event_type
    }

    /// The number of the handler among those of its kind.
    pub fn index(&self) -> (index: i32)
        ensures
            index == self.spec_index(),
    {
        self.index
    }
}

/// A registered handler.
pub struct Listener<H> {
    pub event_type: EventType,
    pub index: i32,
    pub handler: H,
}

impl<H> Listener<H> {
    /// Whether this is the handler that `subscription` stands for.
    pub open spec fn is_for(self, subscription: EventSubscription) -> bool {
        self.event_type == subscription.spec_event_type() && self.index
            == subscription.spec_index()
    }
}

/// The number of handlers of `listeners` that listen to `event_type`.
pub open spec fn count_listeners<H>(listeners: Seq<Listener<H>>, event_type: EventType) -> nat
    decreases listeners.len(),
{
    if listeners.len() == 0 {
        0
    } else {
        count_listeners(listeners.drop_last(), event_type) + if listeners.last().event_type
            == event_type {
            1nat
        } else {
            0nat
        }
    }
}

/// Handlers by the kind of event they listen to. Each gets a number that no
/// other handler of its kind has had before, and can be taken out again by
/// the receipt that holds this number.
pub struct EventEmitter<H> {
    handlers: Vec<Listener<H>>,
    issued: Vec<i32>,
}

impl<H: EventHandler> EventEmitter<H> {
    /// The registered handlers, in the order in which they came.
    pub closed spec fn live(&self) -> Seq<Listener<H>> {
        self.handlers@
    }

    /// How many handlers have ever been registered for `event_type`.
    pub closed spec fn issued(&self, event_type: EventType) -> int {
        self.issued@[slot(event_type)] as int
    }

    /// Whether the handler that `subscription` stands for is registered.
    pub open spec fn holds(&self, subscription: EventSubscription) -> bool {
        exists|i: int| 0 <= i < self.live().len() && (#[trigger] self.live()[i]).is_for(subscription)
    }

    /// Every registered handler has a number that was issued for its kind,
    /// and no two handlers of one kind have the same number.
    pub closed spec fn wf(&self) -> bool {
        &&& self.issued@.len() == 15
        &&& forall|k: int| 0 <= k < 15 ==> 0 <= #[trigger] self.issued@[k]
        &&& forall|i: int|
            0 <= i < self.handlers@.len() ==> 0 <= (#[trigger] self.handlers@[i]).index
                < self.issued@[slot(self.handlers@[i].event_type)]
        &&& forall|i: int, j: int|
            0 <= i < j < self.handlers@.len() ==> !((#[trigger] self.handlers@[i]).event_type
                == (#[trigger] self.handlers@[j]).event_type && self.handlers@[i].index
                == self.handlers@[j].index)
    }

    /// An emitter without handlers.
    pub fn new() -> (emitter: Self)
        ensures
            emitter.wf(),
            emitter.live() == Seq::<Listener<H>>::empty(),
            forall|event_type: EventType| emitter.issued(event_type) == 0,
    {
        let mut issued: Vec<i32> = Vec::new();
        let mut k: usize = 0;
        while k < 15
            invariant
                k <= 15,
                issued@.len() == k,
                forall|i: int| 0 <= i < k ==> issued@[i] == 0,
            decreases 15 - k,
        {
            issued.push(0);
            k += 1;
        }
        Self { handlers: Vec::new(), issued }
    }

    /// Registers `handler` for the events of kind `event_type`, and hands
    /// out the receipt by which it can be removed.
    pub fn listen_on(&mut self, event_type: EventType, handler: H) -> (subscription:
        EventSubscription)
        requires
            old(self).wf(),
            old(self).issued(event_type) < i32::MAX,
        ensures
            final(self).wf(),
            subscription.spec_event_type() == event_type,
            subscription.spec_index() == old(self).issued(event_type),
            !old(self).holds(subscription),
            final(self).holds(subscription),
            final(self).live() == old(self).live().push(
                Listener { event_type, index: old(self).issued(event_type) as i32, handler },
            ),
            final(self).issued(event_type) == old(self).issued(event_type) + 1,
            forall|other: EventType|
                other != event_type ==> final(self).issued(other) == old(self).issued(other),
    {
        let place = slot_of(event_type);
        let index = self.issued[place];
        self.issued[place] = index + 1;
        self.handlers.push(Listener { event_type, index, handler });
        proof {
            assert forall|other: EventType| other != event_type implies self.issued(other)
                == old(self).issued(other) by {
                assert(slot(other) != slot(event_type));
            }
            assert forall|i: int| 0 <= i < self.handlers@.len() implies 0 <= (
            #[trigger] self.handlers@[i]).index < self.issued@[slot(
                self.handlers@[i].event_type,
            )] by {
                if i < old(self).handlers@.len() {
                    assert(self.handlers@[i] == old(self).handlers@[i]);
                }
            }
        }
        let subscription = EventSubscription { event_type, index };
        assert(self.live()[self.live().len() - 1].is_for(subscription));
        subscription
    }

    /// How many handlers have ever been registered for `event_type`: the
    /// number that the next one will get. A handler can be registered as
    /// long as this is below `i32::MAX`.
    pub fn issued_count(&self, event_type: EventType) -> (count: i32)
        requires
            self.wf(),
        ensures
            count == self.issued(event_type),
            0 <= count,
    {
        self.issued[slot_of(event_type)]
    }

    /// Takes out the handler that `subscription` stands for. Nothing
    /// happens where no such handler is registered, be it that it was
    /// removed before or that the receipt is of another emitter.
    pub fn remove(&mut self, subscription: EventSubscription)
        requires
            old(self).wf(),
        ensures
            final(self).wf(),
            !final(self).holds(subscription),
            !old(self).holds(subscription) ==> final(self).live() == old(self).live(),
            old(self).holds(subscription) ==> exists|i: int|
                0 <= i < old(self).live().len() && (#[trigger] old(self).live()[i]).is_for(
                    subscription,
                ) && final(self).live() == old(self).live().remove(i),
            forall|event_type: EventType|
                final(self).issued(event_type) == old(self).issued(event_type),
    {
        let mut i: usize = 0;
        while i < self.handlers.len()
            invariant
                i <= self.handlers@.len(),
                self.handlers@ == old(self).handlers@,
                self.issued@ == old(self).issued@,
                self.wf(),
                forall|j: int| 0 <= j < i ==> !(#[trigger] self.handlers@[j]).is_for(subscription),
            decreases self.handlers@.len() - i,
        {
            if self.handlers[i].event_type == subscription.event_type && self.handlers[i].index
                == subscription.index {
                let ghost before = self.handlers@;
                self.handlers.remove(i);
                proof {
                    let after = self.handlers@;
                    assert(before[i as int].is_for(subscription));
                    assert forall|j: int| 0 <= j < after.len() implies !(#[trigger] after[j]).is_for(
                        subscription,
                    ) by {
                        if j < i {
                            assert(after[j] == before[j]);
                        } else {
                            assert(after[j] == before[j + 1]);
                        }
                    }
                    assert forall|a: int, b: int| 0 <= a < b < after.len() implies !((
                    #[trigger] after[a]).event_type == (#[trigger] after[b]).event_type
                        && after[a].index == after[b].index) by {
                        let a0 = if a < i { a } else { a + 1 };
                        let b0 = if b < i { b } else { b + 1 };
                        assert(after[a] == before[a0]);
                        assert(after[b] == before[b0]);
                    }
                    assert forall|j: int| 0 <= j < after.len() implies 0 <= (#[trigger] after[j]).index
                        < self.issued@[slot(after[j].event_type)] by {
                        let j0 = if j < i { j } else { j + 1 };
                        assert(after[j] == before[j0]);
                    }
                }
                return ;
            }
            i += 1;
        }
    }

    /// Lets every handler that listens to events of the kind of `event`
    /// hear of it, by one call of its `handle_event` each, in the order in
    /// which the handlers came, and says how many there were.
    pub fn emit(&self, event: &HexgemEvent) -> (heard: usize)
        ensures
            heard == count_listeners(self.live(), event.kind()),
            forall|i: int|
                0 <= i < self.live().len() && (#[trigger] self.live()[i]).event_type
                    == event.kind() ==> call_ensures(
                    H::handle_event,
                    (&self.live()[i].handler, event),
                    (),
                ),
    {
        let event_type = event.get_event_type();
        let mut heard: usize = 0;
        let mut i: usize = 0;
        while i < self.handlers.len()
            invariant
                i <= self.handlers@.len(),
                heard <= i,
                heard == count_listeners(self.handlers@.take(i as int), event_type),
                event_type == event.kind(),
                forall|j: int|
                    0 <= j < i && (#[trigger] self.handlers@[j]).event_type == event.kind()
                        ==> call_ensures(
                        H::handle_event,
                        (&self.handlers@[j].handler, event),
                        (),
                    ),
            decreases self.handlers@.len() - i,
        {
            assert(self.handlers@.take(i + 1).drop_last() =~= self.handlers@.take(i as int));
            if self.handlers[i].event_type == event_type {
                let handler: &H = &self.handlers[i].handler;
                handler.handle_event(event);
                heard += 1;
            }
            i += 1;
        }
        assert(self.handlers@.take(self.handlers@.len() as int) =~= self.handlers@);
        heard
    }

    /// Lets the registered handlers of the kind of `event` hear of it, as
    /// `emit` does, and then `observer`, which is also told the categories
    /// of the event; says how many registered handlers there were.
    pub fn announce<G: EventHandler>(&self, observer: &G, event: &HexgemEvent) -> (heard: usize)
        ensures
            heard == count_listeners(self.live(), event.kind()),
            forall|i: int|
                0 <= i < self.live().len() && (#[trigger] self.live()[i]).event_type
                    == event.kind() ==> call_ensures(
                    H::handle_event,
                    (&self.live()[i].handler, event),
                    (),
                ),
            call_ensures(G::handle_event, (observer, event), ()),
            call_ensures(G::handle_category, (observer, &category_of(event.kind())), ()),
    {
        let heard = self.emit(event);
        observer.handle_event(event);
        let category = event.get_category();
        observer.handle_category(&category);
        heard
    }
}

} // verus!
