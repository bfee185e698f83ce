use crate::application_event::{
    WindowCloseEvent, WindowFocusEvent, WindowMoveEvent, WindowResizeEvent,
};
use crate::event::{Event, HexgemEvent, NoneEvent};
use crate::hexgem_types::{
    combined_bits, lemma_union_bits_concat, union_bits, Key, Mod, Modifiers, MouseButton,
};
use crate::key_event::KeyboardEvent;
use crate::mouse_event::{MouseButtonEvent, MouseMoveEvent, MouseScrollEvent};
use crate::primitives::{FloatBits, Position, Size};
use vstd::prelude::*;

verus! {

impl MouseButton {
    /// The number that GLFW gives this button, if it knows the button.
    pub open spec fn glfw_code(self) -> Option<int> {
        match self {
            MouseButton::LeftButton => Some(0),
            MouseButton::RightButton => Some(1),
            MouseButton::MiddleButton => Some(2),
            MouseButton::Button4 => Some(3),
            MouseButton::Button5 => Some(4),
            MouseButton::Button6 => Some(5),
            MouseButton::Button7 => Some(6),
            MouseButton::Button8 => Some(7),
            MouseButton::Unknown => None,
        }
    }

    /// The number that SDL gives this button, if it knows the button.
    pub open spec fn sdl_code(self) -> Option<int> {
        match self {
            MouseButton::LeftButton => Some(1),
            MouseButton::MiddleButton => Some(2),
            MouseButton::RightButton => Some(3),
            MouseButton::Button4 => Some(4),
            MouseButton::Button5 => Some(5),
            _ => None,
        }
    }

    /// The button that GLFW numbers `code`; `Unknown` where it numbers none
    /// so.
    pub open spec fn of_glfw_code(code: int) -> MouseButton {
        if exists|known: MouseButton| known.glfw_code() == Some(code) {
            choose|known: MouseButton| known.glfw_code() == Some(code)
        } else {
            MouseButton::Unknown
        }
    }

    /// The button that SDL numbers `code`; `Unknown` where it numbers none
    /// so.
    pub open spec fn of_sdl_code(code: int) -> MouseButton {
        if exists|known: MouseButton| known.sdl_code() == Some(code) {
            choose|known: MouseButton| known.sdl_code() == Some(code)
        } else {
            MouseButton::Unknown
        }
    }

    /// The button that GLFW numbers `code`; `Unknown` where it numbers none
    /// so.
    pub fn from_glfw(code: i32) -> (button: MouseButton)
        ensures
            button == MouseButton::of_glfw_code(code as int),
            forall|known: MouseButton| known.glfw_code() == Some(code as int) ==> button == known,
            button != MouseButton::Unknown ==> button.glfw_code() == Some(code as int),
    {
        match code {
            0 => MouseButton::LeftButton,
            1 => MouseButton::RightButton,
            2 => MouseButton::MiddleButton,
            3 => MouseButton::Button4,
            4 => MouseButton::Button5,
            5 => MouseButton::Button6,
            6 => MouseButton::Button7,
            7 => MouseButton::Button8,
            _ => MouseButton::Unknown,
        }
    }

    /// The button that SDL numbers `code`; `Unknown` where it numbers none
    /// so.
    pub fn from_sdl(code: u8) -> (button: MouseButton)
        ensures
            button == MouseButton::of_sdl_code(code as int),
            forall|known: MouseButton| known.sdl_code() == Some(code as int) ==> button == known,
            button != MouseButton::Unknown ==> button.sdl_code() == Some(code as int),
    {
        match code {
            1 => MouseButton::LeftButton,
            2 => MouseButton::MiddleButton,
            3 => MouseButton::RightButton,
            4 => MouseButton::Button4,
            5 => MouseButton::Button5,
            _ => MouseButton::Unknown,
        }
    }
}

impl Key {
    /// The code that GLFW gives this key.
    pub open spec fn glfw_code(self) -> int {
        match self {
            Key::Space => 32,
            Key::Apostrophe => 39,
            Key::Comma => 44,
            Key::Minus => 45,
            Key::Period => 46,
            Key::Slash => 47,
            Key::Num0 => 48,
            Key::Num1 => 49,
            Key::Num2 => 50,
            Key::Num3 => 51,
            Key::Num4 => 52,
            Key::Num5 => 53,
            Key::Num6 => 54,
            Key::Num7 => 55,
            Key::Num8 => 56,
            Key::Num9 => 57,
            Key::Semicolon => 59,
            Key::Equal => 61,
            Key::A => 65,
            Key::B => 66,
            Key::C => 67,
            Key::D => 68,
            Key::E => 69,
            Key::F => 70,
            Key::G => 71,
            Key::H => 72,
            Key::I => 73,
            Key::J => 74,
            Key::K => 75,
            Key::L => 76,
            Key::M => 77,
            Key::N => 78,
            Key::O => 79,
            Key::P => 80,
            Key::Q => 81,
            Key::R => 82,
            Key::S => 83,
            Key::T => 84,
            Key::U => 85,
            Key::V => 86,
            Key::W => 87,
            Key::X => 88,
            Key::Y => 89,
            Key::Z => 90,
            Key::LeftBracket => 91,
            Key::Backslash => 92,
            Key::RightBracket => 93,
            Key::GraveAccent => 96,
            Key::World1 => 161,
            Key::World2 => 162,
            Key::Escape => 256,
            Key::Enter => 257,
            Key::Tab => 258,
            Key::Backspace => 259,
            Key::Insert => 260,
            Key::Delete => 261,
            Key::Right => 262,
            Key::Left => 263,
            Key::Down => 264,
            Key::Up => 265,
            Key::PageUp => 266,
            Key::PageDown => 267,
            Key::Home => 268,
            Key::End => 269,
            Key::CapsLock => 280,
            Key::ScrollLock => 281,
            Key::NumLock => 282,
            Key::PrintScreen => 283,
            Key::Pause => 284,
            Key::F1 => 290,
            Key::F2 => 291,
            Key::F3 => 292,
            Key::F4 => 293,
            Key::F5 => 294,
            Key::F6 => 295,
            Key::F7 => 296,
            Key::F8 => 297,
            Key::F9 => 298,
            Key::F10 => 299,
            Key::F11 => 300,
            Key::F12 => 301,
            Key::F13 => 302,
            Key::F14 => 303,
            Key::F15 => 304,
            Key::F16 => 305,
            Key::F17 => 306,
            Key::F18 => 307,
            Key::F19 => 308,
            Key::F20 => 309,
            Key::F21 => 310,
            Key::F22 => 311,
            Key::F23 => 312,
            Key::F24 => 313,
            Key::F25 => 314,
            Key::Kp0 => 320,
            Key::Kp1 => 321,
            Key::Kp2 => 322,
            Key::Kp3 => 323,
            Key::Kp4 => 324,
            Key::Kp5 => 325,
            Key::Kp6 => 326,
            Key::Kp7 => 327,
            Key::Kp8 => 328,
            Key::Kp9 => 329,
            Key::KpDecimal => 330,
            Key::KpDivide => 331,
            Key::KpMultiply => 332,
            Key::KpSubtract => 333,
            Key::KpAdd => 334,
            Key::KpEnter => 335,
            Key::KpEqual => 336,
            Key::LeftShift => 340,
            Key::LeftControl => 341,
            Key::LeftAlt => 342,
            Key::LeftSuper => 343,
            Key::RightShift => 344,
            Key::RightControl => 345,
            Key::RightAlt => 346,
            Key::RightSuper => 347,
            Key::Menu => 348,
            Key::Unknown => -1,
        }
    }

    /// The code that SDL gives this key, if the engine takes the key from
    /// SDL at all.
    pub open spec fn sdl_code(self) -> Option<int> {
        match self {
            Key::Space => Some(32),
            Key::Apostrophe => Some(39),
            Key::Comma => Some(44),
            Key::Minus => Some(45),
            Key::Period => Some(46),
            Key::Slash => Some(47),
            Key::Num0 => Some(48),
            Key::Num1 => Some(49),
            Key::Num2 => Some(50),
            Key::Num3 => Some(51),
            Key::Num4 => Some(52),
            Key::Num5 => Some(53),
            Key::Num6 => Some(54),
            Key::Num7 => Some(55),
            Key::Num8 => Some(56),
            Key::Num9 => Some(57),
            Key::Semicolon => Some(59),
            Key::Equal => Some(61),
            Key::A => Some(97),
            Key::B => Some(98),
            Key::C => Some(99),
            Key::D => Some(100),
            Key::E => Some(101),
            Key::F => Some(102),
            Key::G => Some(103),
            Key::H => Some(104),
            Key::I => Some(105),
            Key::J => Some(106),
            Key::K => Some(107),
            Key::L => Some(108),
            Key::M => Some(109),
            Key::N => Some(110),
            Key::O => Some(111),
            Key::P => Some(112),
            Key::Q => Some(113),
            Key::R => Some(114),
            Key::S => Some(115),
            Key::T => Some(116),
            Key::U => Some(117),
            Key::V => Some(118),
            Key::W => Some(119),
            Key::X => Some(120),
            Key::Y => Some(121),
            Key::Z => Some(122),
            Key::LeftBracket => Some(91),
            Key::Backslash => Some(92),
            Key::RightBracket => Some(93),
            Key::GraveAccent => Some(96),
            Key::Escape => Some(27),
            Key::Enter => Some(13),
            Key::Tab => Some(9),
            Key::Backspace => Some(8),
            Key::Insert => Some(1073741897),
            Key::Delete => Some(127),
            Key::Right => Some(1073741903),
            Key::Left => Some(1073741904),
            Key::Down => Some(1073741905),
            Key::Up => Some(1073741906),
            Key::PageUp => Some(1073741899),
            Key::PageDown => Some(1073741902),
            Key::Home => Some(1073741898),
            Key::End => Some(1073741901),
            Key::CapsLock => Some(1073741881),
            Key::ScrollLock => Some(1073741895),
            Key::PrintScreen => Some(1073741894),
            Key::Pause => Some(1073741896),
            Key::F1 => Some(1073741882),
            Key::F2 => Some(1073741883),
            Key::F3 => Some(1073741884),
            Key::F4 => Some(1073741885),
            Key::F5 => Some(1073741886),
            Key::F6 => Some(1073741887),
            Key::F7 => Some(1073741888),
            Key::F8 => Some(1073741889),
            Key::F9 => Some(1073741890),
            Key::F10 => Some(1073741891),
            Key::F11 => Some(1073741892),
            Key::F12 => Some(1073741893),
            _ => None,
        }
    }

    /// The key that GLFW gives the code `code`; `Unknown` where it gives the
    /// code to none.
    pub open spec fn of_glfw_code(code: int) -> Key {
        if exists|known: Key| known.glfw_code() == code {
            choose|known: Key| known.glfw_code() == code
        } else {
            Key::Unknown
        }
    }

    /// The key that SDL gives the code `code`, among those that the engine
    /// takes from SDL; `Unknown` for every other code.
    pub open spec fn of_sdl_code(code: int) -> Key {
        if exists|known: Key| known.sdl_code() == Some(code) {
            choose|known: Key| known.sdl_code() == Some(code)
        } else {
            Key::Unknown
        }
    }

    /// The key that GLFW gives the code `code`; `Unknown` where it gives the
    /// code to none.
    pub fn from_glfw(code: i32) -> (key: Key)
        ensures
            key == Key::of_glfw_code(code as int),
            forall|known: Key| known.glfw_code() == code ==> key == known,
            key.glfw_code() == code || key == Key::Unknown,
    {
        let key = match code {
            32 => Key::Space,
            39 => Key::Apostrophe,
            44 => Key::Comma,
            45 => Key::Minus,
            46 => Key::Period,
            47 => Key::Slash,
            48 => Key::Num0,
            49 => Key::Num1,
            50 => Key::Num2,
            51 => Key::Num3,
            52 => Key::Num4,
            53 => Key::Num5,
            54 => Key::Num6,
            55 => Key::Num7,
            56 => Key::Num8,
            57 => Key::Num9,
            59 => Key::Semicolon,
            61 => Key::Equal,
            65 => Key::A,
            66 => Key::B,
            67 => Key::C,
            68 => Key::D,
            69 => Key::E,
            70 => Key::F,
            71 => Key::G,
            72 => Key::H,
            73 => Key::I,
            74 => Key::J,
            75 => Key::K,
            76 => Key::L,
            77 => Key::M,
            78 => Key::N,
            79 => Key::O,
            80 => Key::P,
            81 => Key::Q,
            82 => Key::R,
            83 => Key::S,
            84 => Key::T,
            85 => Key::U,
            86 => Key::V,
            87 => Key::W,
            88 => Key::X,
            89 => Key::Y,
            90 => Key::Z,
            91 => Key::LeftBracket,
            92 => Key::Backslash,
            93 => Key::RightBracket,
            96 => Key::GraveAccent,
            161 => Key::World1,
            162 => Key::World2,
            256 => Key::Escape,
            257 => Key::Enter,
            258 => Key::Tab,
            259 => Key::Backspace,
            260 => Key::Insert,
            261 => Key::Delete,
            262 => Key::Right,
            263 => Key::Left,
            264 => Key::Down,
            265 => Key::Up,
            266 => Key::PageUp,
            267 => Key::PageDown,
            268 => Key::Home,
            269 => Key::End,
            280 => Key::CapsLock,
            281 => Key::ScrollLock,
            282 => Key::NumLock,
            283 => Key::PrintScreen,
            284 => Key::Pause,
            290 => Key::F1,
            291 => Key::F2,
            292 => Key::F3,
            293 => Key::F4,
            294 => Key::F5,
            295 => Key::F6,
            296 => Key::F7,
            297 => Key::F8,
            298 => Key::F9,
            299 => Key::F10,
            300 => Key::F11,
            301 => Key::F12,
            302 => Key::F13,
            303 => Key::F14,
            304 => Key::F15,
            305 => Key::F16,
            306 => Key::F17,
            307 => Key::F18,
            308 => Key::F19,
            309 => Key::F20,
            310 => Key::F21,
            311 => Key::F22,
            312 => Key::F23,
            313 => Key::F24,
            314 => Key::F25,
            320 => Key::Kp0,
            321 => Key::Kp1,
            322 => Key::Kp2,
            323 => Key::Kp3,
            324 => Key::Kp4,
            325 => Key::Kp5,
            326 => Key::Kp6,
            327 => Key::Kp7,
            328 => Key::Kp8,
            329 => Key::Kp9,
            330 => Key::KpDecimal,
            331 => Key::KpDivide,
            332 => Key::KpMultiply,
            333 => Key::KpSubtract,
            334 => Key::KpAdd,
            335 => Key::KpEnter,
            336 => Key::KpEqual,
            340 => Key::LeftShift,
            341 => Key::LeftControl,
            342 => Key::LeftAlt,
            343 => Key::LeftSuper,
            344 => Key::RightShift,
            345 => Key::RightControl,
            346 => Key::RightAlt,
            347 => Key::RightSuper,
            348 => Key::Menu,
            _ => Key::Unknown,
        };
        proof {
            assert forall|known: Key| known.glfw_code() == code implies key == known by {}
            if !exists|known: Key| known.glfw_code() == code as int {
                assert(key.glfw_code() != code);
            }
        }
        key
    }

    /// The key that SDL gives the code `code`, among those that the engine
    /// takes from SDL; `Unknown` for every other code.
    pub fn from_sdl(code: i32) -> (key: Key)
        ensures
            key == Key::of_sdl_code(code as int),
            forall|known: Key| known.sdl_code() == Some(code as int) ==> key == known,
            key.sdl_code() == Some(code as int) || key == Key::Unknown,
    {
        match code {
            32 => Key::Space,
            39 => Key::Apostrophe,
            44 => Key::Comma,
            45 => Key::Minus,
            46 => Key::Period,
            47 => Key::Slash,
            48 => Key::Num0,
            49 => Key::Num1,
            50 => Key::Num2,
            51 => Key::Num3,
            52 => Key::Num4,
            53 => Key::Num5,
            54 => Key::Num6,
            55 => Key::Num7,
            56 => Key::Num8,
            57 => Key::Num9,
            59 => Key::Semicolon,
            61 => Key::Equal,
            97 => Key::A,
            98 => Key::B,
            99 => Key::C,
            100 => Key::D,
            101 => Key::E,
            102 => Key::F,
            103 => Key::G,
            104 => Key::H,
            105 => Key::I,
            106 => Key::J,
            107 => Key::K,
            108 => Key::L,
            109 => Key::M,
            110 => Key::N,
            111 => Key::O,
            112 => Key::P,
            113 => Key::Q,
            114 => Key::R,
            115 => Key::S,
            116 => Key::T,
            117 => Key::U,
            118 => Key::V,
            119 => Key::W,
            120 => Key::X,
            121 => Key::Y,
            122 => Key::Z,
            91 => Key::LeftBracket,
            92 => Key::Backslash,
            93 => Key::RightBracket,
            96 => Key::GraveAccent,
            27 => Key::Escape,
            13 => Key::Enter,
            9 => Key::Tab,
            8 => Key::Backspace,
            1073741897 => Key::Insert,
            127 => Key::Delete,
            1073741903 => Key::Right,
            1073741904 => Key::Left,
            1073741905 => Key::Down,
            1073741906 => Key::Up,
            1073741899 => Key::PageUp,
            1073741902 => Key::PageDown,
            1073741898 => Key::Home,
            1073741901 => Key::End,
            1073741881 => Key::CapsLock,
            1073741895 => Key::ScrollLock,
            1073741894 => Key::PrintScreen,
            1073741896 => Key::Pause,
            1073741882 => Key::F1,
            1073741883 => Key::F2,
            1073741884 => Key::F3,
            1073741885 => Key::F4,
            1073741886 => Key::F5,
            1073741887 => Key::F6,
            1073741888 => Key::F7,
            1073741889 => Key::F8,
            1073741890 => Key::F9,
            1073741891 => Key::F10,
            1073741892 => Key::F11,
            1073741893 => Key::F12,
            _ => Key::Unknown,
        }
    }
}

/// The modifier `modifier` if it is held, and nothing otherwise.
pub open spec fn held_if(held: bool, modifier: Mod) -> Seq<Mod> {
    if held {
        seq![modifier]
    } else {
        seq![]
    }
}

/// Whether the mask `native` of GLFW holds every bit of `flag`.
pub open spec fn glfw_holds(native: i32, flag: i32) -> bool {
    native & flag == flag
}

/// Whether the mask `native` of SDL holds every bit of `flag`.
pub open spec fn sdl_holds(native: u16, flag: u16) -> bool {
    native & flag == flag
}

/// The modifiers that a mask of GLFW stands for. GLFW does not tell left
/// from right, and its Super key is taken as `ModeLock`.
pub open spec fn glfw_modifiers(native: i32) -> Seq<Mod> {
    held_if(glfw_holds(native, 0x0004), Mod::Alt)
        + held_if(glfw_holds(native, 0x0010), Mod::CapsLock)
        + held_if(glfw_holds(native, 0x0002), Mod::Control)
        + held_if(glfw_holds(native, 0x0020), Mod::NumLock)
        + held_if(glfw_holds(native, 0x0001), Mod::Shift)
        + held_if(glfw_holds(native, 0x0008), Mod::ModeLock)
}

/// The modifiers that a mask of SDL stands for.
pub open spec fn sdl_modifiers(native: u16) -> Seq<Mod> {
    held_if(sdl_holds(native, 0x2000), Mod::CapsLock)
        + held_if(sdl_holds(native, 0x0100), Mod::LeftAlt)
        + held_if(sdl_holds(native, 0x0040), Mod::LeftControl)
        + held_if(sdl_holds(native, 0x0400), Mod::LeftGui)
        + held_if(sdl_holds(native, 0x0001), Mod::LeftShift)
        + held_if(sdl_holds(native, 0x4000), Mod::ModeLock)
        + held_if(sdl_holds(native, 0x0200), Mod::RightAlt)
        + held_if(sdl_holds(native, 0x0080), Mod::RightControl)
        + held_if(sdl_holds(native, 0x8000), Mod::ReserveLock)
        + held_if(sdl_holds(native, 0x0800), Mod::RightGui)
        + held_if(sdl_holds(native, 0x0002), Mod::RightShift)
}

/// A modifier that is held or not adds its bits or nothing.
proof fn lemma_held_if_bits(held: bool, modifier: Mod)
    ensures
        union_bits(held_if(held, modifier)) == if held {
            modifier.spec_bits()
        } else {
            0
        },
{
    if held {
        let bits = modifier.spec_bits();
        let single = held_if(held, modifier);
        assert(single.drop_last() =~= Seq::<Mod>::empty());
        assert(union_bits(single.drop_last()) == 0);
        assert(single.last() == modifier);
        assert(0isize | bits == bits) by (bit_vector);
    }
}

/// A mask of SDL stands for a Gui key exactly where it holds the bit of the
/// left or of the right Gui key.
pub proof fn lemma_sdl_gui_held(native: u16)
    ensures
        Modifiers::spec_create(sdl_modifiers(native)).spec_has(Mod::Gui) <==> sdl_holds(
            native,
            0x0400,
        ) || sdl_holds(native, 0x0800),
{
    let caps = held_if(sdl_holds(native, 0x2000), Mod::CapsLock);
    let left_alt = held_if(sdl_holds(native, 0x0100), Mod::LeftAlt);
    let left_control = held_if(sdl_holds(native, 0x0040), Mod::LeftControl);
    let left_gui = held_if(sdl_holds(native, 0x0400), Mod::LeftGui);
    let left_shift = held_if(sdl_holds(native, 0x0001), Mod::LeftShift);
    let mode = held_if(sdl_holds(native, 0x4000), Mod::ModeLock);
    let right_alt = held_if(sdl_holds(native, 0x0200), Mod::RightAlt);
    let right_control = held_if(sdl_holds(native, 0x0080), Mod::RightControl);
    let reserve = held_if(sdl_holds(native, 0x8000), Mod::ReserveLock);
    let right_gui = held_if(sdl_holds(native, 0x0800), Mod::RightGui);
    let right_shift = held_if(sdl_holds(native, 0x0002), Mod::RightShift);
    let l1 = caps + left_alt;
    let l2 = l1 + left_control;
    let l3 = l2 + left_gui;
    let l4 = l3 + left_shift;
    let l5 = l4 + mode;
    let l6 = l5 + right_alt;
    let l7 = l6 + right_control;
    let l8 = l7 + reserve;
    let l9 = l8 + right_gui;
    let all = l9 + right_shift;
    assert(all == sdl_modifiers(native));
    lemma_held_if_bits(sdl_holds(native, 0x2000), Mod::CapsLock);
    lemma_held_if_bits(sdl_holds(native, 0x0100), Mod::LeftAlt);
    lemma_held_if_bits(sdl_holds(native, 0x0040), Mod::LeftControl);
    lemma_held_if_bits(sdl_holds(native, 0x0400), Mod::LeftGui);
    lemma_held_if_bits(sdl_holds(native, 0x0001), Mod::LeftShift);
    lemma_held_if_bits(sdl_holds(native, 0x4000), Mod::ModeLock);
    lemma_held_if_bits(sdl_holds(native, 0x0200), Mod::RightAlt);
    lemma_held_if_bits(sdl_holds(native, 0x0080), Mod::RightControl);
    lemma_held_if_bits(sdl_holds(native, 0x8000), Mod::ReserveLock);
    lemma_held_if_bits(sdl_holds(native, 0x0800), Mod::RightGui);
    lemma_held_if_bits(sdl_holds(native, 0x0002), Mod::RightShift);
    lemma_union_bits_concat(caps, left_alt);
    lemma_union_bits_concat(l1, left_control);
    lemma_union_bits_concat(l2, left_gui);
    lemma_union_bits_concat(l3, left_shift);
    lemma_union_bits_concat(l4, mode);
    lemma_union_bits_concat(l5, right_alt);
    lemma_union_bits_concat(l6, right_control);
    lemma_union_bits_concat(l7, reserve);
    lemma_union_bits_concat(l8, right_gui);
    lemma_union_bits_concat(l9, right_shift);
    let t1 = union_bits(caps);
    let t2 = union_bits(left_alt);
    let t3 = union_bits(left_control);
    let t4 = union_bits(left_gui);
    let t5 = union_bits(left_shift);
    let t6 = union_bits(mode);
    let t7 = union_bits(right_alt);
    let t8 = union_bits(right_control);
    let t9 = union_bits(reserve);
    let t10 = union_bits(right_gui);
    let t11 = union_bits(right_shift);
    let union = union_bits(all);
    assert(union == t1 | t2 | t3 | t4 | t5 | t6 | t7 | t8 | t9 | t10 | t11);
    assert(((t1 | t2 | t3 | t4 | t5 | t6 | t7 | t8 | t9 | t10 | t11) & 0x180 > 0) <==> (t4 != 0
        || t10 != 0)) by (bit_vector)
        requires
            t1 == 0 || t1 == 0x400,
            t2 == 0 || t2 == 0x20,
            t3 == 0 || t3 == 0x8,
            t4 == 0 || t4 == 0x80,
            t5 == 0 || t5 == 0x2,
            t6 == 0 || t6 == 0x800,
            t7 == 0 || t7 == 0x40,
            t8 == 0 || t8 == 0x10,
            t9 == 0 || t9 == 0x1000,
            t10 == 0 || t10 == 0x100,
            t11 == 0 || t11 == 0x4,
    ;
    assert(!(1isize & 0x180 > 0)) by (bit_vector);
    assert(!(0isize & 0x180 > 0)) by (bit_vector);
    Modifiers::lemma_spec_create(all);
    if all.len() == 0 {
        assert(left_gui.len() == 0 && right_gui.len() == 0);
        assert(union == 0);
    }
}

/// Adds `modifier` to `list` if it is held.
fn push_if_held(list: &mut Vec<Mod>, held: bool, modifier: Mod)
    ensures
        final(list)@ == old(list)@ + held_if(held, modifier),
{
    if held {
        list.push(modifier);
        assert(list@ =~= old(list)@ + seq![modifier]);
    } else {
        assert(list@ =~= old(list)@ + Seq::<Mod>::empty());
    }
}

impl Modifiers {
    /// The modifiers that the mask `native` of GLFW stands for; `NoMod`
    /// where it stands for none.
    pub fn from_glfw(native: i32) -> (modifiers: Modifiers)
        ensures
            modifiers == Modifiers::spec_create(glfw_modifiers(native)),
            modifiers.bits() == combined_bits(glfw_modifiers(native)),
    {
        let mut list: Vec<Mod> = Vec::new();
        assert(list@ =~= Seq::<Mod>::empty());
        push_if_held(&mut list, native & 0x0004 == 0x0004, Mod::Alt);
        push_if_held(&mut list, native & 0x0010 == 0x0010, Mod::CapsLock);
        push_if_held(&mut list, native & 0x0002 == 0x0002, Mod::Control);
        push_if_held(&mut list, native & 0x0020 == 0x0020, Mod::NumLock);
        push_if_held(&mut list, native & 0x0001 == 0x0001, Mod::Shift);
        push_if_held(&mut list, native & 0x0008 == 0x0008, Mod::ModeLock);
        assert(list@ =~= glfw_modifiers(native));
        Modifiers::create(list)
    }

    /// The modifiers that the mask `native` of SDL stands for; `NoMod` where
    /// it stands for none.
    pub fn from_sdl(native: u16) -> (modifiers: Modifiers)
        ensures
            modifiers == Modifiers::spec_create(sdl_modifiers(native)),
            modifiers.bits() == combined_bits(sdl_modifiers(native)),
    {
        let mut list: Vec<Mod> = Vec::new();
        assert(list@ =~= Seq::<Mod>::empty());
        push_if_held(&mut list, native & 0x2000 == 0x2000, Mod::CapsLock);
        push_if_held(&mut list, native & 0x0100 == 0x0100, Mod::LeftAlt);
        push_if_held(&mut list, native & 0x0040 == 0x0040, Mod::LeftControl);
        push_if_held(&mut list, native & 0x0400 == 0x0400, Mod::LeftGui);
        push_if_held(&mut list, native & 0x0001 == 0x0001, Mod::LeftShift);
        push_if_held(&mut list, native & 0x4000 == 0x4000, Mod::ModeLock);
        push_if_held(&mut list, native & 0x0200 == 0x0200, Mod::RightAlt);
        push_if_held(&mut list, native & 0x0080 == 0x0080, Mod::RightControl);
        push_if_held(&mut list, native & 0x8000 == 0x8000, Mod::ReserveLock);
        push_if_held(&mut list, native & 0x0800 == 0x0800, Mod::RightGui);
        push_if_held(&mut list, native & 0x0002 == 0x0002, Mod::RightShift);
        assert(list@ =~= sdl_modifiers(native));
        Modifiers::create(list)
    }
}

/// What happened to a key or a button.
#[derive(Clone, Copy, Debug, PartialEq, Eq, Structural)]
pub enum Action {
    Release,
    Press,
    Repeat,
}

impl Action {
    /// Whether the key or button is down after this.
    pub open spec fn spec_is_down(self) -> bool {
        self != Action::Release
    }

    /// Whether the key or button was down already.
    pub open spec fn spec_is_repeat(self) -> bool {
        self == Action::Repeat
    }

    /// Whether the key or button is down after this.
    pub fn is_down(self) -> (down: bool)
        ensures
            down == self.spec_is_down(),
    {
        match self {
            Action::Release => false,
            Action::Press => true,
            Action::Repeat => true,
        }
    }

    /// Whether the key or button was down already.
    pub fn is_repeat(self) -> (repeat: bool)
        ensures
            repeat == self.spec_is_repeat(),
    {
        match self {
            Action::Repeat => true,
            _ => false,
        }
    }
}

/// An occurrence as GLFW reports it: keys, buttons and modifiers in GLFW's
/// own numbers, and `Other` for what the engine has no event for.
#[derive(Clone, Copy, Debug, PartialEq, Eq)]
pub enum GlfwEvent {
    /// The window moved to `(x, y)`.
    Pos(i32, i32),
    /// The window has the size `(width, height)`.
    Size(i32, i32),
    Close,
    Focus(bool),
    /// The button numbered `.0` did `.1` while the modifiers `.2` were held.
    MouseButton(i32, Action, i32),
    CursorPos(FloatBits, FloatBits),
    Scroll(FloatBits, FloatBits),
    /// The key with the code `.0` and the scancode `.1` did `.2` while the
    /// modifiers `.3` were held.
    Key(i32, i32, Action, i32),
    Other,
}

impl GlfwEvent {
    /// The engine's event for an occurrence of GLFW; the empty event for no
    /// occurrence, and for one that the engine has no event for.
    pub open spec fn engine_event(event: Option<GlfwEvent>) -> HexgemEvent {
        match event {
            Some(GlfwEvent::Pos(x, y)) => HexgemEvent::WindowMove(
                WindowMoveEvent { handled: false, position: Position { x, y } },
            ),
            Some(GlfwEvent::Size(width, height)) => HexgemEvent::WindowResize(
                WindowResizeEvent { handled: false, size: Size { width, height } },
            ),
            Some(GlfwEvent::Close) => HexgemEvent::WindowClose(
                WindowCloseEvent { handled: false },
            ),
            Some(GlfwEvent::Focus(is_focused)) => HexgemEvent::WindowFocus(
                WindowFocusEvent { is_focused, handled: false },
            ),
            Some(GlfwEvent::MouseButton(button, action, modifiers)) => HexgemEvent::MouseButton(
                MouseButtonEvent {
                    pressed: action.spec_is_down(),
                    repeated: action.spec_is_repeat(),
                    handled: false,
                    modifiers: Modifiers::spec_create(glfw_modifiers(modifiers)),
                    button: MouseButton::of_glfw_code(button as int),
                },
            ),
            Some(GlfwEvent::CursorPos(x, y)) => HexgemEvent::MouseMove(
                MouseMoveEvent { handled: false, position: Position { x, y } },
            ),
            Some(GlfwEvent::Scroll(dx, dy)) => HexgemEvent::MouseScroll(
                MouseScrollEvent { handled: false, dx, dy },
            ),
            Some(GlfwEvent::Key(key, _, action, modifiers)) => HexgemEvent::Keyboard(
                KeyboardEvent {
                    pressed: action.spec_is_down(),
                    handled: false,
                    key: Key::of_glfw_code(key as int),
                    repeat: action.spec_is_repeat(),
                    modifiers: Modifiers::spec_create(glfw_modifiers(modifiers)),
                },
            ),
            Some(GlfwEvent::Other) | None => HexgemEvent::Empty(NoneEvent { handled: false }),
        }
    }

    /// The engine's event for an occurrence of GLFW.
    pub fn get_event(event: Option<GlfwEvent>) -> (converted: HexgemEvent)
        ensures
            converted == Self::engine_event(event),
            !converted.consumed(),
    {
        match event {
            Some(GlfwEvent::Pos(x, y)) => WindowMoveEvent::create(Position { x, y }).into_event(),
            Some(GlfwEvent::Size(width, height)) => WindowResizeEvent::create(
                Size { width, height },
            ).into_event(),
            Some(GlfwEvent::Close) => WindowCloseEvent::create().into_event(),
            Some(GlfwEvent::Focus(is_focused)) => WindowFocusEvent::create(
                is_focused,
            ).into_event(),
            Some(GlfwEvent::MouseButton(button, action, modifiers)) => MouseButtonEvent::create(
                action.is_down(),
                action.is_repeat(),
                MouseButton::from_glfw(button),
                Modifiers::from_glfw(modifiers),
            ).into_event(),
            Some(GlfwEvent::CursorPos(x, y)) => MouseMoveEvent::create(
                Position { x, y },
            ).into_event(),
            Some(GlfwEvent::Scroll(dx, dy)) => MouseScrollEvent::create(dx, dy).into_event(),
            Some(GlfwEvent::Key(key, _, action, modifiers)) => KeyboardEvent::create(
                action.is_down(),
                Key::from_glfw(key),
                action.is_repeat(),
                Modifiers::from_glfw(modifiers),
            ).into_event(),
            _ => NoneEvent::create().into_event(),
        }
    }

    /// The engine's events for the occurrences that GLFW reported in one
    /// frame, in their order.
    pub fn get_events(events: Vec<GlfwEvent>) -> (converted: Vec<HexgemEvent>)
        ensures
            converted@.len() == events@.len(),
            forall|i: int|
                0 <= i < events@.len() ==> converted@[i] == Self::engine_event(Some(events@[i])),
    {
        let mut converted: Vec<HexgemEvent> = Vec::new();
        let mut i: usize = 0;
        while i < events.len()
            invariant
                i <= events.len(),
                converted@.len() == i,
                forall|j: int| 0 <= j < i ==> converted@[j] == Self::engine_event(Some(events@[j])),
            decreases events.len() - i,
        {
            converted.push(Self::get_event(Some(events[i])));
            i += 1;
        }
        converted
    }
}

/// What SDL reports of a window.
#[derive(Clone, Copy, Debug, PartialEq, Eq, Structural)]
pub enum SdlWindowEvent {
    Moved(i32, i32),
    SizeChanged(i32, i32),
    Resized(i32, i32),
    FocusGained,
    FocusLost,
    Close,
    Other,
}

/// An occurrence as SDL reports it: keys, buttons and modifiers in SDL's
/// own numbers, and `Other` for what the engine has no event for.
#[derive(Clone, Copy, Debug, PartialEq, Eq)]
pub enum SdlEvent {
    Window(SdlWindowEvent),
    KeyDown { keycode: Option<i32>, keymod: u16, repeat: bool },
    KeyUp { keycode: Option<i32>, keymod: u16, repeat: bool },
    MouseMotion { x: FloatBits, y: FloatBits },
    MouseButtonDown { mouse_btn: u8, clicks: u8 },
    MouseButtonUp { mouse_btn: u8, clicks: u8 },
    MouseWheel { x: FloatBits, y: FloatBits },
    Other,
}

impl SdlEvent {
    /// The key that SDL names by `keycode`; `Unknown` where it names none.
    pub open spec fn key_of(keycode: Option<i32>) -> Key {
        match keycode {
            Some(code) => Key::of_sdl_code(code as int),
            None => Key::Unknown,
        }
    }

    /// The engine's event for what SDL reports of a key. SDL knows the side
    /// of every modifier.
    pub open spec fn key_event(
        pressed: bool,
        keycode: Option<i32>,
        keymod: u16,
        repeat: bool,
    ) -> HexgemEvent {
        HexgemEvent::Keyboard(
            KeyboardEvent {
                pressed,
                handled: false,
                key: Self::key_of(keycode),
                repeat,
                modifiers: Modifiers::spec_create(sdl_modifiers(keymod)),
            },
        )
    }

    /// The engine's event for what SDL reports of a button: a second click
    /// in a row counts as a repeat, and SDL tells no modifiers.
    pub open spec fn button_event(pressed: bool, mouse_btn: u8, clicks: u8) -> HexgemEvent {
        HexgemEvent::MouseButton(
            MouseButtonEvent {
                pressed,
                repeated: clicks > 1,
                handled: false,
                modifiers: Modifiers::spec_create(Seq::empty()),
                button: MouseButton::of_sdl_code(mouse_btn as int),
            },
        )
    }

    /// The engine's event for an occurrence of SDL; the empty event for no
    /// occurrence, and for one that the engine has no event for.
    pub open spec fn engine_event(event: Option<SdlEvent>) -> HexgemEvent {
        match event {
            Some(SdlEvent::Window(SdlWindowEvent::Moved(x, y))) => HexgemEvent::WindowMove(
                WindowMoveEvent { handled: false, position: Position { x, y } },
            ),
            Some(SdlEvent::Window(SdlWindowEvent::SizeChanged(width, height)))
            | Some(SdlEvent::Window(SdlWindowEvent::Resized(width, height))) =>
                HexgemEvent::WindowResize(
                WindowResizeEvent { handled: false, size: Size { width, height } },
            ),
            Some(SdlEvent::Window(SdlWindowEvent::FocusGained)) => HexgemEvent::WindowFocus(
                WindowFocusEvent { is_focused: true, handled: false },
            ),
            Some(SdlEvent::Window(SdlWindowEvent::FocusLost)) => HexgemEvent::WindowFocus(
                WindowFocusEvent { is_focused: false, handled: false },
            ),
            Some(SdlEvent::Window(SdlWindowEvent::Close)) => HexgemEvent::WindowClose(
                WindowCloseEvent { handled: false },
            ),
            Some(SdlEvent::KeyDown { keycode, keymod, repeat }) => Self::key_event(
                true,
                keycode,
                keymod,
                repeat,
            ),
            Some(SdlEvent::KeyUp { keycode, keymod, repeat }) => Self::key_event(
                false,
                keycode,
                keymod,
                repeat,
            ),
            Some(SdlEvent::MouseMotion { x, y }) => HexgemEvent::MouseMove(
                MouseMoveEvent { handled: false, position: Position { x, y } },
            ),
            Some(SdlEvent::MouseButtonDown { mouse_btn, clicks }) => Self::button_event(
                true,
                mouse_btn,
                clicks,
            ),
            Some(SdlEvent::MouseButtonUp { mouse_btn, clicks }) => Self::button_event(
                false,
                mouse_btn,
                clicks,
            ),
            Some(SdlEvent::MouseWheel { x, y }) => HexgemEvent::MouseScroll(
                MouseScrollEvent { handled: false, dx: x, dy: y },
            ),
            _ => HexgemEvent::Empty(NoneEvent { handled: false }),
        }
    }

    /// The key that SDL names by `keycode`.
    fn key(keycode: Option<i32>) -> (key: Key)
        ensures
            key == Self::key_of(keycode),
    {
        if let Some(code) = keycode {
            Key::from_sdl(code)
        } else {
            Key::Unknown
        }
    }

    /// The engine's event for an occurrence of SDL.
    pub fn get_event(event: Option<SdlEvent>) -> (converted: HexgemEvent)
        ensures
            converted == Self::engine_event(event),
            !converted.consumed(),
    {
        match event {
            Some(event) => match event {
                SdlEvent::Window(win_event) => match win_event {
                    SdlWindowEvent::Moved(x, y) => WindowMoveEvent::create(
                        Position { x, y },
                    ).into_event(),
                    SdlWindowEvent::SizeChanged(width, height)
                    | SdlWindowEvent::Resized(width, height) => WindowResizeEvent::create(
                        Size { width, height },
                    ).into_event(),
                    SdlWindowEvent::FocusGained => WindowFocusEvent::create(true).into_event(),
                    SdlWindowEvent::FocusLost => WindowFocusEvent::create(false).into_event(),
                    SdlWindowEvent::Close => WindowCloseEvent::create().into_event(),
                    _ => NoneEvent::create().into_event(),
                },
                SdlEvent::KeyDown { keycode, keymod, repeat } => KeyboardEvent::create(
                    true,
                    Self::key(keycode),
                    repeat,
                    Modifiers::from_sdl(keymod),
                ).into_event(),
                SdlEvent::KeyUp { keycode, keymod, repeat } => KeyboardEvent::create(
                    false,
                    Self::key(keycode),
                    repeat,
                    Modifiers::from_sdl(keymod),
                ).into_event(),
                SdlEvent::MouseMotion { x, y } => MouseMoveEvent::create(
                    Position { x, y },
                ).into_event(),
                SdlEvent::MouseButtonDown { mouse_btn, clicks } => MouseButtonEvent::create(
                    true,
                    clicks > 1,
                    MouseButton::from_sdl(mouse_btn),
                    Modifiers::create(Vec::new()),
                ).into_event(),
                SdlEvent::MouseButtonUp { mouse_btn, clicks } => MouseButtonEvent::create(
                    false,
                    clicks > 1,
                    MouseButton::from_sdl(mouse_btn),
                    Modifiers::create(Vec::new()),
                ).into_event(),
                SdlEvent::MouseWheel { x, y } => MouseScrollEvent::create(x, y).into_event(),
                _ => NoneEvent::create().into_event(),
            },
            None => NoneEvent::create().into_event(),
        }
    }

    /// The engine's events for the occurrences that SDL reported in one
    /// frame, in their order.
    pub fn get_events(events: Vec<SdlEvent>) -> (converted: Vec<HexgemEvent>)
        ensures
            converted@.len() == events@.len(),
            forall|i: int|
                0 <= i < events@.len() ==> converted@[i] == Self::engine_event(Some(events@[i])),
    {
        let mut converted: Vec<HexgemEvent> = Vec::new();
        let mut i: usize = 0;
        while i < events.len()
            invariant
                i <= events.len(),
                converted@.len() == i,
                forall|j: int| 0 <= j < i ==> converted@[j] == Self::engine_event(Some(events@[j])),
            decreases events.len() - i,
        {
            converted.push(Self::get_event(Some(events[i])));
            i += 1;
        }
        converted
    }
}

} // verus!
