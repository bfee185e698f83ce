use hexgem_engine::{
    Delivery, Event, EventType, HexgemEvent, Key, KeyboardEvent, Layer, LayerStack, Modifiers,
    NoneEvent, WindowCloseEvent,
};

/// A window that only counts what is done to it.
#[derive(Debug, Default, PartialEq)]
struct Board {
    touched: usize,
}

/// A layer that counts its calls and handles the kinds of event it is told
/// to handle.
#[derive(Debug, PartialEq)]
struct Probe {
    name: &'static str,
    handles: Vec<EventType>,
    attached: usize,
    detached: usize,
    updates: usize,
    events: Vec<EventType>,
}

impl Probe {
    fn passive(name: &'static str) -> Self {
        Self::handling(name, vec![])
    }

    fn handling(name: &'static str, handles: Vec<EventType>) -> Self {
        Probe { name, handles, attached: 0, detached: 0, updates: 0, events: vec![] }
    }
}

impl Layer<Board> for Probe {
    fn get_name(&self) -> &'static str {
        self.name
    }

    fn on_attach(&mut self) {
        self.attached += 1;
    }

    fn on_detach(&mut self) {
        self.detached += 1;
    }

    fn on_update(&mut self, window: &mut Board) {
        self.updates += 1;
        window.touched += 1;
    }

    fn on_event(&mut self, event: &mut HexgemEvent, window: &mut Board) {
        window.touched += 1;
        self.events.push(event.get_event_type());
        if self.handles.contains(&event.get_event_type()) {
            event.set_handled();
        }
    }
}

/// A layer that keeps every default.
struct Quiet;

impl Layer<Board> for Quiet {
    fn get_name(&self) -> &'static str {
        "quiet"
    }

    fn on_event(&mut self, _event: &mut HexgemEvent, _window: &mut Board) {}
}

/// A layer that tries to turn every event into another one.
struct Rogue {
    leaves_handled: bool,
}

impl Layer<Board> for Rogue {
    fn get_name(&self) -> &'static str {
        "rogue"
    }

    fn on_event(&mut self, event: &mut HexgemEvent, _window: &mut Board) {
        let mut other = WindowCloseEvent::create().into_event();
        if self.leaves_handled {
            other.set_handled();
        }
        *event = other;
    }
}

fn names(layers: Vec<&Probe>) -> Vec<&'static str> {
    layers.iter().map(|layer| layer.get_name()).collect()
}

fn calls(stack: &LayerStack<Probe>) -> Vec<(&'static str, usize)> {
    stack.layers().iter().map(|layer| (layer.name, layer.events.len())).collect()
}

fn key_pressed() -> HexgemEvent {
    KeyboardEvent::create(true, Key::A, false, Modifiers::create(vec![])).into_event()
}

#[test]
fn an_empty_stack_has_no_layers() {
    let mut stack: LayerStack<Probe> = LayerStack::create();
    assert_eq!(stack.layers().len(), 0);
    assert!(stack.layers().is_empty());
    assert!(stack.layers_rev().is_empty());
    assert!(stack.pop_layer().is_none());
    assert!(stack.pop_overlay().is_none());
    assert_eq!(stack.layers().len(), 0);
}

#[test]
fn push_and_pop_are_lifo_in_each_group() {
    let mut stack = LayerStack::create();
    stack.push_layer(Probe::passive("A"));
    stack.push_layer(Probe::passive("B"));
    stack.push_overlay(Probe::passive("X"));
    stack.push_overlay(Probe::passive("Y"));
    assert_eq!(stack.layers().len(), 4);
    assert_eq!(stack.pop_layer().map(|layer| layer.name), Some("B"));
    assert_eq!(stack.pop_overlay().map(|layer| layer.name), Some("Y"));
    assert_eq!(names(stack.layers()), vec!["X", "A"]);
    assert_eq!(stack.pop_layer().map(|layer| layer.name), Some("A"));
    assert_eq!(stack.pop_layer().map(|layer| layer.name), None);
    assert_eq!(stack.pop_overlay().map(|layer| layer.name), Some("X"));
    assert_eq!(stack.pop_overlay().map(|layer| layer.name), None);
    assert_eq!(stack.layers().len(), 0);
}

#[test]
fn a_pushed_layer_comes_back_as_it_was() {
    let mut stack = LayerStack::create();
    stack.push_layer(Probe::passive("A"));
    let before = names(stack.layers());
    stack.push_layer(Probe::handling("B", vec![EventType::AppTick]));
    assert_eq!(stack.pop_layer(), Some(Probe::handling("B", vec![EventType::AppTick])));
    assert_eq!(names(stack.layers()), before);
}

#[test]
fn update_order_is_overlays_first_oldest_first() {
    let mut stack = LayerStack::create();
    stack.push_layer(Probe::passive("base 1"));
    stack.push_overlay(Probe::passive("overlay 1"));
    stack.push_layer(Probe::passive("base 2"));
    stack.push_overlay(Probe::passive("overlay 2"));
    assert_eq!(names(stack.layers()), vec!["overlay 1", "overlay 2", "base 1", "base 2"]);
}

#[test]
fn event_order_is_overlays_first_newest_first() {
    let mut stack = LayerStack::create();
    stack.push_layer(Probe::passive("base 1"));
    stack.push_overlay(Probe::passive("overlay 1"));
    stack.push_layer(Probe::passive("base 2"));
    stack.push_overlay(Probe::passive("overlay 2"));
    assert_eq!(names(stack.layers_rev()), vec!["overlay 2", "overlay 1", "base 2", "base 1"]);
}

#[test]
fn update_reaches_every_layer_once() {
    let mut stack = LayerStack::create();
    stack.push_layer(Probe::passive("A"));
    stack.push_overlay(Probe::handling("X", vec![EventType::KeyPressed]));
    stack.push_layer(Probe::passive("B"));
    let mut board = Board::default();
    stack.update(&mut board);
    stack.update(&mut board);
    assert_eq!(board.touched, 6);
    for layer in stack.layers() {
        assert_eq!(layer.updates, 2);
        assert!(layer.events.is_empty());
    }
}

#[test]
fn an_unhandled_event_reaches_every_layer() {
    let mut stack = LayerStack::create();
    stack.push_layer(Probe::passive("A"));
    stack.push_layer(Probe::passive("B"));
    stack.push_overlay(Probe::passive("X"));
    let mut board = Board::default();
    let mut event = key_pressed();
    let delivery = stack.propagate(&mut event, &mut board);
    assert_eq!(delivery, Delivery { overlays: 1, base: 2 });
    assert!(!event.handled());
    assert_eq!(calls(&stack), vec![("X", 1), ("A", 1), ("B", 1)]);
    assert_eq!(board.touched, 3);
}

#[test]
fn the_layer_behind_the_one_that_handles_is_never_called() {
    let mut stack = LayerStack::create();
    stack.push_layer(Probe::passive("oldest"));
    stack.push_layer(Probe::handling("middle", vec![EventType::KeyPressed]));
    stack.push_layer(Probe::passive("newest"));
    let mut board = Board::default();
    let mut event = key_pressed();
    let delivery = stack.propagate(&mut event, &mut board);
    assert_eq!(delivery, Delivery { overlays: 0, base: 2 });
    assert!(event.handled());
    assert_eq!(calls(&stack), vec![("oldest", 0), ("middle", 1), ("newest", 1)]);
    assert_eq!(event.get_event_type(), EventType::KeyPressed);

    // An event of a kind that the middle layer lets pass reaches all three.
    let mut other = NoneEvent::create().into_event();
    let delivery = stack.propagate(&mut other, &mut board);
    assert_eq!(delivery, Delivery { overlays: 0, base: 3 });
    assert!(!other.handled());
    assert_eq!(calls(&stack), vec![("oldest", 1), ("middle", 2), ("newest", 2)]);
}

#[test]
fn an_overlay_that_handles_keeps_the_event_from_the_base_layers() {
    let mut stack = LayerStack::create();
    stack.push_layer(Probe::passive("base"));
    stack.push_overlay(Probe::handling("overlay", vec![EventType::KeyPressed]));
    let mut board = Board::default();
    let mut event = key_pressed();
    let delivery = stack.propagate(&mut event, &mut board);
    assert_eq!(delivery, Delivery { overlays: 1, base: 0 });
    assert!(event.handled());
    assert_eq!(calls(&stack), vec![("overlay", 1), ("base", 0)]);
}

#[test]
fn the_overlay_is_asked_first_even_if_it_was_pushed_first() {
    let mut stack = LayerStack::create();
    stack.push_overlay(Probe::handling("overlay", vec![EventType::WindowClose]));
    stack.push_layer(Probe::handling("base", vec![EventType::WindowClose]));
    let mut board = Board::default();
    let mut event = WindowCloseEvent::create().into_event();
    stack.propagate(&mut event, &mut board);
    assert_eq!(calls(&stack), vec![("overlay", 1), ("base", 0)]);
}

#[test]
fn a_handled_event_reaches_nobody() {
    let mut stack = LayerStack::create();
    stack.push_layer(Probe::passive("A"));
    stack.push_overlay(Probe::passive("X"));
    let mut board = Board::default();
    let mut event = key_pressed();
    event.set_handled();
    let before = event;
    let delivery = stack.propagate(&mut event, &mut board);
    assert_eq!(delivery, Delivery { overlays: 0, base: 0 });
    assert_eq!(event, before);
    assert_eq!(board, Board::default());
    assert_eq!(calls(&stack), vec![("X", 0), ("A", 0)]);
}

#[test]
fn an_empty_stack_leaves_the_event_alone() {
    let mut stack: LayerStack<Probe> = LayerStack::create();
    let mut board = Board::default();
    let mut event = key_pressed();
    let delivery = stack.propagate(&mut event, &mut board);
    assert_eq!(delivery, Delivery { overlays: 0, base: 0 });
    assert_eq!(event, key_pressed());
    assert_eq!(board.touched, 0);
}

#[test]
fn only_the_handled_flag_is_taken_from_a_layer() {
    let mut stack: LayerStack<Box<dyn Layer<Board>>> = LayerStack::create();
    stack.push_layer(Box::new(Probe::handling("last", vec![EventType::KeyPressed])));
    stack.push_layer(Box::new(Rogue { leaves_handled: false }));
    let mut board = Board::default();
    let mut event = key_pressed();
    let delivery = stack.propagate(&mut event, &mut board);
    // The layer behind the rogue still got the key, and handled it.
    assert_eq!(delivery, Delivery { overlays: 0, base: 2 });
    let mut expected = key_pressed();
    expected.set_handled();
    assert_eq!(event, expected);

    let mut stack: LayerStack<Box<dyn Layer<Board>>> = LayerStack::create();
    stack.push_layer(Box::new(Probe::passive("last")));
    stack.push_layer(Box::new(Rogue { leaves_handled: true }));
    let mut event = key_pressed();
    let delivery = stack.propagate(&mut event, &mut board);
    assert_eq!(delivery, Delivery { overlays: 0, base: 1 });
    assert_eq!(event, expected);
}

#[test]
fn boxed_layers_of_different_types_share_a_stack() {
    let mut stack: LayerStack<Box<dyn Layer<Board>>> = LayerStack::create();
    stack.push_layer(Box::new(Quiet));
    stack.push_layer(Box::new(Probe::handling("probe", vec![EventType::KeyPressed])));
    stack.push_overlay(Box::new(Quiet));
    let listed: Vec<&'static str> =
        stack.layers_rev().iter().map(|layer| layer.get_name()).collect();
    assert_eq!(listed, vec!["quiet", "probe", "quiet"]);
    let mut board = Board::default();
    let mut event = key_pressed();
    stack.update(&mut board);
    let delivery = stack.propagate(&mut event, &mut board);
    assert_eq!(delivery, Delivery { overlays: 1, base: 1 });
    assert!(event.handled());
    assert_eq!(board.touched, 2);
}
