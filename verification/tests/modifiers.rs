use hexgem_engine::{Key, Mod, Modifiers, MouseButton};

const ALL_MODS: [(Mod, isize); 17] = [
    (Mod::NoMod, 0x1),
    (Mod::LeftShift, 0x2),
    (Mod::RightShift, 0x4),
    (Mod::Shift, 0x6),
    (Mod::LeftControl, 0x8),
    (Mod::RightControl, 0x10),
    (Mod::Control, 0x18),
    (Mod::LeftAlt, 0x20),
    (Mod::RightAlt, 0x40),
    (Mod::Alt, 0x60),
    (Mod::LeftGui, 0x80),
    (Mod::RightGui, 0x100),
    (Mod::Gui, 0x180),
    (Mod::NumLock, 0x200),
    (Mod::CapsLock, 0x400),
    (Mod::ModeLock, 0x800),
    (Mod::ReserveLock, 0x1000),
];

#[test]
fn every_modifier_has_its_mask() {
    for (modifier, mask) in ALL_MODS {
        assert_eq!(modifier.get(), mask);
    }
}

#[test]
fn either_side_masks_are_the_union_of_both_sides() {
    assert_eq!(Mod::Shift.get(), Mod::LeftShift.get() | Mod::RightShift.get());
    assert_eq!(Mod::Control.get(), Mod::LeftControl.get() | Mod::RightControl.get());
    assert_eq!(Mod::Alt.get(), Mod::LeftAlt.get() | Mod::RightAlt.get());
    assert_eq!(Mod::Gui.get(), Mod::LeftGui.get() | Mod::RightGui.get());
}

#[test]
fn append_mod_adds_the_bits_of_every_modifier() {
    assert_eq!(Modifiers::append_mod(vec![], 0), 0);
    assert_eq!(Modifiers::append_mod(vec![], 0x40), 0x40);
    assert_eq!(Modifiers::append_mod(vec![Mod::LeftShift, Mod::CapsLock], 0), 0x402);
    assert_eq!(Modifiers::append_mod(vec![Mod::LeftShift, Mod::Shift], 0x8), 0xe);
    assert_eq!(Modifiers::append_mod(vec![Mod::Gui, Mod::Gui], 0), 0x180);
}

#[test]
fn no_modifiers_means_no_mod() {
    let none = Modifiers::create(vec![]);
    assert!(none.has(Mod::NoMod));
    assert!(none.includes(Mod::NoMod));
    for (modifier, _) in ALL_MODS {
        if modifier != Mod::NoMod {
            assert!(!none.has(modifier));
            assert!(!none.includes(modifier));
        }
    }
    assert_eq!(none, Modifiers::create(vec![Mod::NoMod]));
}

#[test]
fn has_asks_for_either_side_and_includes_for_both() {
    let left = Modifiers::create(vec![Mod::LeftShift]);
    assert!(left.has(Mod::Shift));
    assert!(left.has(Mod::LeftShift));
    assert!(!left.has(Mod::RightShift));
    assert!(!left.includes(Mod::Shift));
    assert!(left.includes(Mod::LeftShift));

    let both = Modifiers::create(vec![Mod::LeftShift, Mod::RightShift]);
    assert!(both.includes(Mod::Shift));
    assert_eq!(both, Modifiers::create(vec![Mod::Shift]));
    assert!(!both.has(Mod::NoMod));
}

#[test]
fn created_modifiers_hold_what_overlaps_a_member() {
    let lists: Vec<Vec<Mod>> = vec![
        vec![Mod::LeftGui],
        vec![Mod::Gui, Mod::NumLock],
        vec![Mod::RightAlt, Mod::CapsLock, Mod::LeftControl],
        vec![Mod::ReserveLock, Mod::ModeLock],
        vec![Mod::NoMod, Mod::Shift],
    ];
    for list in lists {
        let held = Modifiers::create(list.clone());
        for (asked, mask) in ALL_MODS {
            let overlaps = list.iter().any(|member| member.get() & mask != 0);
            assert_eq!(held.has(asked), overlaps, "{:?} in {:?}", asked, list);
            let union = list.iter().fold(0, |bits, member| bits | member.get());
            assert_eq!(held.includes(asked), union & mask == mask, "{:?} in {:?}", asked, list);
        }
    }
}

#[test]
fn the_order_of_the_list_does_not_matter() {
    let one = Modifiers::create(vec![Mod::LeftAlt, Mod::RightGui, Mod::CapsLock]);
    let other = Modifiers::create(vec![Mod::CapsLock, Mod::LeftAlt, Mod::RightGui, Mod::LeftAlt]);
    assert_eq!(one, other);
}

#[test]
fn glfw_masks_become_either_side_modifiers() {
    assert_eq!(Modifiers::from_glfw(0), Modifiers::create(vec![]));
    assert_eq!(Modifiers::from_glfw(0x0001), Modifiers::create(vec![Mod::Shift]));
    assert_eq!(Modifiers::from_glfw(0x0002), Modifiers::create(vec![Mod::Control]));
    assert_eq!(Modifiers::from_glfw(0x0004), Modifiers::create(vec![Mod::Alt]));
    assert_eq!(Modifiers::from_glfw(0x0008), Modifiers::create(vec![Mod::ModeLock]));
    assert_eq!(Modifiers::from_glfw(0x0010), Modifiers::create(vec![Mod::CapsLock]));
    assert_eq!(Modifiers::from_glfw(0x0020), Modifiers::create(vec![Mod::NumLock]));
    assert_eq!(
        Modifiers::from_glfw(0x0003),
        Modifiers::create(vec![Mod::Shift, Mod::Control])
    );
    assert_eq!(
        Modifiers::from_glfw(0x003f),
        Modifiers::create(vec![
            Mod::Alt,
            Mod::CapsLock,
            Mod::Control,
            Mod::NumLock,
            Mod::Shift,
            Mod::ModeLock
        ])
    );
    // Bits that GLFW does not define stand for nothing.
    assert_eq!(Modifiers::from_glfw(0x0040), Modifiers::create(vec![]));
    // The Super key of GLFW is not taken as a Gui key.
    assert!(!Modifiers::from_glfw(0x0008).has(Mod::Gui));
}

#[test]
fn sdl_masks_keep_the_side() {
    let table: [(u16, Mod); 11] = [
        (0x0001, Mod::LeftShift),
        (0x0002, Mod::RightShift),
        (0x0040, Mod::LeftControl),
        (0x0080, Mod::RightControl),
        (0x0100, Mod::LeftAlt),
        (0x0200, Mod::RightAlt),
        (0x0400, Mod::LeftGui),
        (0x0800, Mod::RightGui),
        (0x2000, Mod::CapsLock),
        (0x4000, Mod::ModeLock),
        (0x8000, Mod::ReserveLock),
    ];
    assert_eq!(Modifiers::from_sdl(0), Modifiers::create(vec![]));
    for (flag, modifier) in table {
        assert_eq!(Modifiers::from_sdl(flag), Modifiers::create(vec![modifier]));
    }
    // The Num Lock bit of SDL is not taken.
    assert_eq!(Modifiers::from_sdl(0x1000), Modifiers::create(vec![]));
    let chord = Modifiers::from_sdl(0x0400 | 0x0001);
    assert!(chord.has(Mod::Gui));
    assert!(chord.has(Mod::Shift));
    assert!(!chord.includes(Mod::Gui));
    assert!(!chord.has(Mod::Control));
    assert_eq!(
        Modifiers::from_sdl(0xffff),
        Modifiers::create(vec![
            Mod::Shift,
            Mod::Control,
            Mod::Alt,
            Mod::Gui,
            Mod::CapsLock,
            Mod::ModeLock,
            Mod::ReserveLock
        ])
    );
}

#[test]
fn glfw_key_codes() {
    assert_eq!(Key::from_glfw(32), Key::Space);
    assert_eq!(Key::from_glfw(39), Key::Apostrophe);
    assert_eq!(Key::from_glfw(48), Key::Num0);
    assert_eq!(Key::from_glfw(57), Key::Num9);
    assert_eq!(Key::from_glfw(65), Key::A);
    assert_eq!(Key::from_glfw(81), Key::Q);
    assert_eq!(Key::from_glfw(90), Key::Z);
    assert_eq!(Key::from_glfw(96), Key::GraveAccent);
    assert_eq!(Key::from_glfw(161), Key::World1);
    assert_eq!(Key::from_glfw(256), Key::Escape);
    assert_eq!(Key::from_glfw(257), Key::Enter);
    assert_eq!(Key::from_glfw(265), Key::Up);
    assert_eq!(Key::from_glfw(282), Key::NumLock);
    assert_eq!(Key::from_glfw(290), Key::F1);
    assert_eq!(Key::from_glfw(314), Key::F25);
    assert_eq!(Key::from_glfw(320), Key::Kp0);
    assert_eq!(Key::from_glfw(336), Key::KpEqual);
    assert_eq!(Key::from_glfw(340), Key::LeftShift);
    assert_eq!(Key::from_glfw(347), Key::RightSuper);
    assert_eq!(Key::from_glfw(348), Key::Menu);
    assert_eq!(Key::from_glfw(-1), Key::Unknown);
    // Codes that GLFW gives to no key.
    assert_eq!(Key::from_glfw(0), Key::Unknown);
    assert_eq!(Key::from_glfw(97), Key::Unknown);
    assert_eq!(Key::from_glfw(270), Key::Unknown);
    assert_eq!(Key::from_glfw(349), Key::Unknown);
    assert_eq!(Key::from_glfw(i32::MAX), Key::Unknown);
    assert_eq!(Key::from_glfw(i32::MIN), Key::Unknown);
}

#[test]
fn glfw_codes_name_120_keys() {
    let mut known = Vec::new();
    for code in -1..400 {
        let key = Key::from_glfw(code);
        if key != Key::Unknown {
            assert!(!known.contains(&key), "{:?} has two codes", key);
            known.push(key);
        }
    }
    assert_eq!(known.len(), 120);
}

#[test]
fn sdl_key_codes() {
    assert_eq!(Key::from_sdl(32), Key::Space);
    assert_eq!(Key::from_sdl(39), Key::Apostrophe);
    assert_eq!(Key::from_sdl(61), Key::Equal);
    assert_eq!(Key::from_sdl(96), Key::GraveAccent);
    assert_eq!(Key::from_sdl(97), Key::A);
    assert_eq!(Key::from_sdl(113), Key::Q);
    assert_eq!(Key::from_sdl(122), Key::Z);
    assert_eq!(Key::from_sdl(8), Key::Backspace);
    assert_eq!(Key::from_sdl(9), Key::Tab);
    assert_eq!(Key::from_sdl(13), Key::Enter);
    assert_eq!(Key::from_sdl(27), Key::Escape);
    assert_eq!(Key::from_sdl(127), Key::Delete);
    assert_eq!(Key::from_sdl(0x4000_0039), Key::CapsLock);
    assert_eq!(Key::from_sdl(0x4000_003a), Key::F1);
    assert_eq!(Key::from_sdl(0x4000_0045), Key::F12);
    assert_eq!(Key::from_sdl(0x4000_0046), Key::PrintScreen);
    assert_eq!(Key::from_sdl(0x4000_0047), Key::ScrollLock);
    assert_eq!(Key::from_sdl(0x4000_0048), Key::Pause);
    assert_eq!(Key::from_sdl(0x4000_0049), Key::Insert);
    assert_eq!(Key::from_sdl(0x4000_004a), Key::Home);
    assert_eq!(Key::from_sdl(0x4000_004b), Key::PageUp);
    assert_eq!(Key::from_sdl(0x4000_004d), Key::End);
    assert_eq!(Key::from_sdl(0x4000_004e), Key::PageDown);
    assert_eq!(Key::from_sdl(0x4000_004f), Key::Right);
    assert_eq!(Key::from_sdl(0x4000_0050), Key::Left);
    assert_eq!(Key::from_sdl(0x4000_0051), Key::Down);
    assert_eq!(Key::from_sdl(0x4000_0052), Key::Up);
    // Keys that the engine does not take from SDL.
    assert_eq!(Key::from_sdl(65), Key::Unknown);
    assert_eq!(Key::from_sdl(0x4000_0053), Key::Unknown);
    assert_eq!(Key::from_sdl(0x4000_0068), Key::Unknown);
    assert_eq!(Key::from_sdl(0x4000_00e1), Key::Unknown);
    assert_eq!(Key::from_sdl(0), Key::Unknown);
    assert_eq!(Key::from_sdl(-1), Key::Unknown);
}

#[test]
fn sdl_codes_name_78_keys() {
    let mut known = Vec::new();
    for code in (0..200).chain(0x4000_0000..0x4000_0120) {
        let key = Key::from_sdl(code);
        if key != Key::Unknown {
            assert!(!known.contains(&key), "{:?} has two codes", key);
            known.push(key);
        }
    }
    assert_eq!(known.len(), 78);
}

#[test]
fn mouse_button_codes() {
    let glfw = [
        MouseButton::LeftButton,
        MouseButton::RightButton,
        MouseButton::MiddleButton,
        MouseButton::Button4,
        MouseButton::Button5,
        MouseButton::Button6,
        MouseButton::Button7,
        MouseButton::Button8,
    ];
    for (code, button) in glfw.iter().enumerate() {
        assert_eq!(MouseButton::from_glfw(code as i32), *button);
    }
    assert_eq!(MouseButton::from_glfw(8), MouseButton::Unknown);
    assert_eq!(MouseButton::from_glfw(-1), MouseButton::Unknown);

    assert_eq!(MouseButton::from_sdl(0), MouseButton::Unknown);
    assert_eq!(MouseButton::from_sdl(1), MouseButton::LeftButton);
    assert_eq!(MouseButton::from_sdl(2), MouseButton::MiddleButton);
    assert_eq!(MouseButton::from_sdl(3), MouseButton::RightButton);
    assert_eq!(MouseButton::from_sdl(4), MouseButton::Button4);
    assert_eq!(MouseButton::from_sdl(5), MouseButton::Button5);
    assert_eq!(MouseButton::from_sdl(6), MouseButton::Unknown);
    assert_eq!(MouseButton::from_sdl(255), MouseButton::Unknown);
}
