use hexgem_engine::{
    run_app, Application, Delivery, Event, EventType, GlfwEvent, HexgemApp, HexgemEvent, Key,
    KeyboardEvent, Layer, Mod, Modifiers, NoneEvent, SdlEvent, SdlWindowEvent, Window,
    WindowCloseEvent, WindowFocusEvent, WindowProps,
};

/// A window that reports what it was scripted to report, one list a poll,
/// and nothing once the script is over.
#[derive(Debug)]
struct StubWindow {
    title: &'static str,
    width: u32,
    height: u32,
    vsync: bool,
    script: Vec<Vec<HexgemEvent>>,
    polls: usize,
}

impl StubWindow {
    fn scripted(mut self, script: Vec<Vec<HexgemEvent>>) -> Self {
        self.script = script;
        self
    }
}

impl Window for StubWindow {
    fn create(props: WindowProps) -> Self {
        StubWindow {
            title: props.title,
            width: props.width,
            height: props.height,
            vsync: true,
            script: vec![],
            polls: 0,
        }
    }

    fn is_vsync(&self) -> bool {
        self.vsync
    }

    fn get_width(&self) -> i32 {
        self.width as i32
    }

    fn get_height(&self) -> i32 {
        self.height as i32
    }

    fn set_vsync(&mut self, enabled: bool) {
        self.vsync = enabled;
    }

    fn on_update(&mut self) -> Vec<HexgemEvent> {
        self.polls += 1;
        if self.script.is_empty() {
            vec![]
        } else {
            self.script.remove(0)
        }
    }
}

/// A layer that records what it hears and handles what it is told to.
#[derive(Debug)]
struct Recorder {
    name: &'static str,
    handles: Vec<EventType>,
    attached: usize,
    detached: usize,
    updates: usize,
    heard: Vec<EventType>,
    widths: Vec<i32>,
}

impl Recorder {
    fn new(name: &'static str, handles: Vec<EventType>) -> Self {
        Recorder {
            name,
            handles,
            attached: 0,
            detached: 0,
            updates: 0,
            heard: vec![],
            widths: vec![],
        }
    }
}

impl Layer<StubWindow> for Recorder {
    fn get_name(&self) -> &'static str {
        self.name
    }

    fn on_attach(&mut self) {
        self.attached += 1;
    }

    fn on_detach(&mut self) {
        self.detached += 1;
    }

    fn on_update(&mut self, window: &mut StubWindow) {
        self.updates += 1;
        self.widths.push(window.get_width());
    }

    fn on_event(&mut self, event: &mut HexgemEvent, _window: &mut StubWindow) {
        self.heard.push(event.get_event_type());
        if self.handles.contains(&event.get_event_type()) {
            event.set_handled();
        }
    }
}

type App = Application<StubWindow, Recorder>;

fn app_with(script: Vec<Vec<HexgemEvent>>) -> App {
    let mut app = App::create();
    let window = app.window.take().unwrap().scripted(script);
    app.window = Some(window);
    app
}

fn heard(app: &App) -> Vec<(&'static str, Vec<EventType>)> {
    app.layer_stack().layers().iter().map(|layer| (layer.name, layer.heard.clone())).collect()
}

fn polls(app: &App) -> usize {
    app.get_window().as_ref().unwrap().polls
}

fn close() -> HexgemEvent {
    WindowCloseEvent::create().into_event()
}

fn key(pressed: bool, key: Key, held: Vec<Mod>) -> HexgemEvent {
    KeyboardEvent::create(pressed, key, false, Modifiers::create(held)).into_event()
}

#[test]
fn a_new_application_runs_in_a_default_window() {
    let app = App::create();
    assert!(app.is_running());
    let window = app.get_window().as_ref().unwrap();
    assert_eq!(window.title, "HexgemApp");
    assert_eq!(window.get_width(), 1280);
    assert_eq!(window.get_height(), 720);
    assert!(window.is_vsync());
    assert_eq!(window.polls, 0);
    assert_eq!(app.layer_stack().layers().len(), 0);
}

#[test]
fn an_application_can_be_given_its_window_props() {
    let app = App::create_with(WindowProps { title: "Sandbox", width: 640, height: 480 });
    let window = app.get_window().as_ref().unwrap();
    assert_eq!((window.title, window.get_width(), window.get_height()), ("Sandbox", 640, 480));
    assert!(app.is_running());
    assert!(app.layer_stack().layers().is_empty());
}

#[test]
fn default_window_props() {
    let props = WindowProps::default();
    assert_eq!(props.title, "HexgemApp");
    assert_eq!(props.width, 1280);
    assert_eq!(props.height, 720);
}

#[test]
fn pushed_layers_are_attached_once() {
    let mut app = App::create();
    app.push_layer(Recorder::new("base", vec![]));
    app.push_overlay(Recorder::new("overlay", vec![]));
    app.push_layer(Recorder::new("base 2", vec![]));
    let layers = app.layer_stack().layers();
    let seen: Vec<(&str, usize, usize)> =
        layers.iter().map(|layer| (layer.name, layer.attached, layer.detached)).collect();
    assert_eq!(seen, vec![("overlay", 1, 0), ("base", 1, 0), ("base 2", 1, 0)]);
    assert!(app.is_running());
}

#[test]
fn popped_layers_are_detached_once() {
    let mut app = App::create();
    app.push_layer(Recorder::new("A", vec![]));
    app.push_layer(Recorder::new("B", vec![]));
    app.push_overlay(Recorder::new("X", vec![]));
    let popped = app.pop_layer().unwrap();
    assert_eq!((popped.name, popped.attached, popped.detached), ("B", 1, 1));
    let popped = app.pop_overlay().unwrap();
    assert_eq!((popped.name, popped.attached, popped.detached), ("X", 1, 1));
    assert!(app.pop_overlay().is_none());
    assert_eq!(app.layer_stack().layers().len(), 1);
    assert_eq!(app.layer_stack().layers()[0].detached, 0);
}

#[test]
fn a_close_request_stops_the_application_after_one_frame() {
    let mut app = app_with(vec![vec![close()]]);
    app.push_layer(Recorder::new("base", vec![]));
    let frames = app.run(1000);
    assert_eq!(frames, 1);
    assert!(!app.is_running());
    assert_eq!(polls(&app), 1);
    assert!(app.get_window().is_some());
    // The close request is the application's own business.
    assert_eq!(heard(&app), vec![("base", vec![])]);
    // An application that has stopped takes no further turn.
    assert_eq!(app.run(1000), 0);
    assert_eq!(polls(&app), 1);
}

#[test]
fn the_quit_chord_stops_the_application_like_a_close_request() {
    for held in [Mod::Gui, Mod::LeftGui, Mod::RightGui] {
        let mut app = app_with(vec![vec![key(true, Key::Q, vec![held])]]);
        app.push_layer(Recorder::new("base", vec![]));
        let frames = app.run(1000);
        assert_eq!(frames, 1);
        assert!(!app.is_running());
        assert_eq!(polls(&app), 1);
        // Unlike a close request, the key still reaches the layers.
        assert_eq!(heard(&app), vec![("base", vec![EventType::KeyPressed])]);
    }
}

#[test]
fn the_quit_chord_as_sdl_reports_it() {
    let chord = SdlEvent::get_event(Some(SdlEvent::KeyDown {
        keycode: Some(113),
        keymod: 0x0400,
        repeat: false,
    }));
    let mut app = app_with(vec![vec![chord]]);
    assert_eq!(app.run(5), 1);
    assert!(!app.is_running());

    let closing = SdlEvent::get_event(Some(SdlEvent::Window(SdlWindowEvent::Close)));
    let mut app = app_with(vec![vec![], vec![closing]]);
    assert_eq!(app.run(5), 2);
    assert!(!app.is_running());

    let closing = GlfwEvent::get_event(Some(GlfwEvent::Close));
    let mut app = app_with(vec![vec![closing]]);
    assert_eq!(app.run(5), 1);
    assert!(!app.is_running());
}

#[test]
fn only_the_chord_quits() {
    let harmless = vec![
        key(true, Key::Q, vec![]),
        key(true, Key::Q, vec![Mod::Control, Mod::Shift, Mod::Alt]),
        key(true, Key::W, vec![Mod::Gui]),
        key(false, Key::Q, vec![Mod::Gui]),
        NoneEvent::create().into_event(),
        WindowFocusEvent::create(false).into_event(),
    ];
    for event in harmless {
        let mut app = app_with(vec![]);
        let mut window = app.window.take().unwrap();
        let mut event = event;
        app.on_event(&mut event, &mut window);
        assert!(app.is_running(), "{:?} stopped the application", event);
    }
    assert!(App::quit_chord(&KeyboardEvent::create(
        true,
        Key::Q,
        true,
        Modifiers::create(vec![Mod::RightGui, Mod::CapsLock])
    )));
    assert!(!App::quit_chord(&KeyboardEvent::create(
        false,
        Key::Q,
        false,
        Modifiers::create(vec![Mod::Gui])
    )));
}

#[test]
fn on_event_marks_a_close_request_handled() {
    let mut app = app_with(vec![]);
    app.push_layer(Recorder::new("base", vec![]));
    app.push_overlay(Recorder::new("overlay", vec![]));
    let mut window = app.window.take().unwrap();
    let mut event = close();
    let delivery = app.on_event(&mut event, &mut window);
    assert_eq!(delivery, Delivery { overlays: 0, base: 0 });
    assert!(event.handled());
    assert!(!app.is_running());

    let mut event = key(true, Key::A, vec![]);
    let delivery = app.on_event(&mut event, &mut window);
    assert_eq!(delivery, Delivery { overlays: 1, base: 1 });
    assert!(!event.handled());
    // Nothing starts a stopped application again.
    assert!(!app.is_running());
}

#[test]
fn a_frame_without_input_is_one_empty_event() {
    let mut app = app_with(vec![vec![], vec![]]);
    app.push_layer(Recorder::new("base", vec![]));
    app.push_overlay(Recorder::new("overlay", vec![]));
    app.frame();
    assert_eq!(
        heard(&app),
        vec![("overlay", vec![EventType::NoEvent]), ("base", vec![EventType::NoEvent])]
    );
    assert!(app.is_running());
    assert_eq!(polls(&app), 1);
}

#[test]
fn a_frame_updates_every_layer_before_its_events() {
    let mut app = app_with(vec![vec![key(true, Key::A, vec![]), key(false, Key::A, vec![])]]);
    app.push_layer(Recorder::new("base", vec![EventType::KeyReleased]));
    app.push_overlay(Recorder::new("overlay", vec![EventType::KeyPressed]));
    app.frame();
    for layer in app.layer_stack().layers() {
        assert_eq!(layer.updates, 1);
        assert_eq!(layer.widths, vec![1280]);
    }
    assert_eq!(
        heard(&app),
        vec![
            ("overlay", vec![EventType::KeyPressed, EventType::KeyReleased]),
            ("base", vec![EventType::KeyReleased])
        ]
    );
}

#[test]
fn a_stop_request_does_not_cut_the_frame_short() {
    let mut app = app_with(vec![vec![
        key(true, Key::A, vec![]),
        close(),
        key(false, Key::A, vec![]),
    ]]);
    app.push_layer(Recorder::new("base", vec![]));
    let frames = app.run(10);
    assert_eq!(frames, 1);
    assert!(!app.is_running());
    assert_eq!(
        heard(&app),
        vec![("base", vec![EventType::KeyPressed, EventType::KeyReleased])]
    );
}

#[test]
fn process_events_stops_exactly_when_an_event_asks_for_it() {
    let batches: Vec<(Vec<HexgemEvent>, bool)> = vec![
        (vec![], true),
        (vec![key(true, Key::Q, vec![])], true),
        (vec![key(true, Key::A, vec![]), key(true, Key::Q, vec![Mod::Gui])], false),
        (vec![close(), key(true, Key::A, vec![])], false),
        (vec![NoneEvent::create().into_event(); 4], true),
    ];
    for (events, goes_on) in batches {
        let mut app = app_with(vec![]);
        let mut window = app.window.take().unwrap();
        app.process_events(events, &mut window);
        assert_eq!(app.is_running(), goes_on);
    }
}

#[test]
fn run_stops_at_the_frame_budget() {
    let mut app = app_with(vec![]);
    app.push_layer(Recorder::new("base", vec![]));
    assert_eq!(app.run(0), 0);
    assert_eq!(polls(&app), 0);
    assert_eq!(app.run(3), 3);
    assert!(app.is_running());
    assert_eq!(polls(&app), 3);
    assert_eq!(app.layer_stack().layers()[0].updates, 3);
    assert_eq!(heard(&app), vec![("base", vec![EventType::NoEvent; 3])]);
}

#[test]
fn an_application_without_its_window_does_nothing() {
    let mut app = app_with(vec![vec![close()]]);
    app.push_layer(Recorder::new("base", vec![]));
    let window = app.window.take().unwrap();
    app.frame();
    assert_eq!(app.run(10), 0);
    assert!(app.is_running());
    assert!(app.get_window().is_none());
    assert!(app.get_mut_window().is_none());
    assert_eq!(app.layer_stack().layers()[0].updates, 0);
    app.window = Some(window);
    assert_eq!(app.run(10), 1);
    assert!(!app.is_running());
}

#[test]
fn get_mut_window_works_on_the_applications_window() {
    let mut app = App::create();
    app.get_mut_window().unwrap().set_vsync(false);
    assert!(!app.get_window().as_ref().unwrap().is_vsync());
    assert!(app.is_running());
}

struct Sandbox;

impl HexgemApp for Sandbox {
    type Screen = StubWindow;
    type Scene = Recorder;

    fn application() -> App {
        app_with(vec![vec![], vec![close()]])
    }
}

#[test]
fn a_program_sets_its_application_up_and_runs_it() {
    let (frames, app) = run_app::<Sandbox, _>(
        |mut app| {
            app.push_layer(Recorder::new("scene", vec![]));
            app
        },
        100,
    );
    assert_eq!(frames, 2);
    assert!(!app.is_running());
    assert_eq!(polls(&app), 2);
    assert_eq!(heard(&app), vec![("scene", vec![EventType::NoEvent])]);

    let (frames, app) = run_app::<Sandbox, _>(|app| app, 1);
    assert_eq!(frames, 1);
    assert!(app.is_running());
}
