use vstd::prelude::*;

verus! {

/// A button of the pointing device.
#[derive(Clone, Copy, Debug, PartialEq, Eq, Structural)]
pub enum MouseButton {
    LeftButton,
    RightButton,
    MiddleButton,
    Button4,
    Button5,
    Button6,
    Button7,
    Button8,
    Unknown,
}

/// A key of the keyboard, named after a US layout.
#[derive(Clone, Copy, Debug, PartialEq, Eq, PartialOrd, Structural)]
pub enum Key {
    Space,
    Apostrophe,
    Comma,
    Minus,
    Period,
    Slash,
    Num0,
    Num1,
    Num2,
    Num3,
    Num4,
    Num5,
    Num6,
    Num7,
    Num8,
    Num9,
    Semicolon,
    Equal,
    A,
    B,
    C,
    D,
    E,
    F,
    G,
    H,
    I,
    J,
    K,
    L,
    M,
    N,
    O,
    P,
    Q,
    R,
    S,
    T,
    U,
    V,
    W,
    X,
    Y,
    Z,
    LeftBracket,
    Backslash,
    RightBracket,
    GraveAccent,
    World1,
    World2,
    Escape,
    Enter,
    Tab,
    Backspace,
    Insert,
    Delete,
    Right,
    Left,
    Down,
    Up,
    PageUp,
    PageDown,
    Home,
    End,
    CapsLock,
    ScrollLock,
    NumLock,
    PrintScreen,
    Pause,
    F1,
    F2,
    F3,
    F4,
    F5,
    F6,
    F7,
    F8,
    F9,
    F10,
    F11,
    F12,
    F13,
    F14,
    F15,
    F16,
    F17,
    F18,
    F19,
    F20,
    F21,
    F22,
    F23,
    F24,
    F25,
    Kp0,
    Kp1,
    Kp2,
    Kp3,
    Kp4,
    Kp5,
    Kp6,
    Kp7,
    Kp8,
    Kp9,
    KpDecimal,
    KpDivide,
    KpMultiply,
    KpSubtract,
    KpAdd,
    KpEnter,
    KpEqual,
    LeftShift,
    LeftControl,
    LeftAlt,
    LeftSuper,
    RightShift,
    RightControl,
    RightAlt,
    RightSuper,
    Menu,
    Unknown,
}

/// A modifier key, or a pair of them taken together.
///
/// `Shift`, `Control`, `Alt` and `Gui` stand for either side: each holds the
/// bits of its left and of its right variant.
#[derive(Clone, Copy, Debug, PartialEq, Eq, Structural)]
pub enum Mod {
    NoMod,
    LeftShift,
    RightShift,
    Shift,
    LeftControl,
    RightControl,
    Control,
    LeftAlt,
    RightAlt,
    Alt,
    LeftGui,
    RightGui,
    Gui,
    NumLock,
    CapsLock,
    ModeLock,
    ReserveLock,
}

impl Mod {
    /// The mask of this modifier inside a [`Modifiers`] value.
    pub open spec fn spec_bits(self) -> isize {
        match self {
            Mod::NoMod => 0x1,
            Mod::LeftShift => 0x2,
            Mod::RightShift => 0x4,
            Mod::Shift => 0x6,
            Mod::LeftControl => 0x8,
            Mod::RightControl => 0x10,
            Mod::Control => 0x18,
            Mod::LeftAlt => 0x20,
            Mod::RightAlt => 0x40,
            Mod::Alt => 0x60,
            Mod::LeftGui => 0x80,
            Mod::RightGui => 0x100,
            Mod::Gui => 0x180,
            Mod::NumLock => 0x200,
            Mod::CapsLock => 0x400,
            Mod::ModeLock => 0x800,
            Mod::ReserveLock => 0x1000,
        }
    }

    /// The mask of this modifier inside a [`Modifiers`] value.
    pub fn get(self) -> (bits: isize)
        ensures
            bits == self.spec_bits(),
            0 < bits <= 0x1000,
    {
        match self {
            Mod::NoMod => 0x1,
            Mod::LeftShift => 0x2,
            Mod::RightShift => 0x4,
            Mod::Shift => 0x6,
            Mod::LeftControl => 0x8,
            Mod::RightControl => 0x10,
            Mod::Control => 0x18,
            Mod::LeftAlt => 0x20,
            Mod::RightAlt => 0x40,
            Mod::Alt => 0x60,
            Mod::LeftGui => 0x80,
            Mod::RightGui => 0x100,
            Mod::Gui => 0x180,
            Mod::NumLock => 0x200,
            Mod::CapsLock => 0x400,
            Mod::ModeLock => 0x800,
            Mod::ReserveLock => 0x1000,
        }
    }
}

/// The bits of every modifier of `mods`, taken together.
pub open spec fn union_bits(mods: Seq<Mod>) -> isize
    decreases mods.len(),
{
    if mods.len() == 0 {
        0
    } else {
        union_bits(mods.drop_last()) | mods.last().spec_bits()
    }
}

/// The bits of a [`Modifiers`] value made from `mods`: those of all of them,
/// or those of [`Mod::NoMod`] where there is none.
pub open spec fn combined_bits(mods: Seq<Mod>) -> isize {
    if mods.len() == 0 {
        Mod::NoMod.spec_bits()
    } else {
        union_bits(mods)
    }
}

/// Whether the masks `a` and `b` share a bit.
pub open spec fn overlap(a: isize, b: isize) -> bool {
    a & b > 0
}

proof fn lemma_or_rearranged(acc: isize, rest: isize, last: isize)
    ensures
        (acc | last) | rest == acc | (rest | last),
{
    assert((acc | last) | rest == acc | (rest | last)) by (bit_vector);
}

proof fn lemma_or_bounded(a: isize, b: isize)
    requires
        0 <= a <= 0x1fff,
        0 <= b <= 0x1fff,
    ensures
        0 <= a | b <= 0x1fff,
        b > 0 ==> a | b > 0,
{
    assert(0 <= a | b <= 0x1fff && (b > 0 ==> a | b > 0)) by (bit_vector)
        requires
            0 <= a <= 0x1fff,
            0 <= b <= 0x1fff,
    ;
}

proof fn lemma_or_overlap(a: isize, b: isize, m: isize)
    requires
        0 <= a <= 0x1fff,
        0 <= b <= 0x1fff,
        0 <= m <= 0x1fff,
    ensures
        overlap(a | b, m) <==> overlap(a, m) || overlap(b, m),
{
    assert(((a | b) & m > 0) <==> (a & m > 0 || b & m > 0)) by (bit_vector)
        requires
            0 <= a <= 0x1fff,
            0 <= b <= 0x1fff,
            0 <= m <= 0x1fff,
    ;
}

/// The bits of a non-empty list of modifiers are positive and stay within
/// the thirteen bits that the modifiers use.
pub proof fn lemma_union_bits_bounded(mods: Seq<Mod>)
    ensures
        0 <= union_bits(mods) <= 0x1fff,
        mods.len() > 0 ==> union_bits(mods) > 0,
    decreases mods.len(),
{
    if mods.len() > 0 {
        lemma_union_bits_bounded(mods.drop_last());
        lemma_or_bounded(union_bits(mods.drop_last()), mods.last().spec_bits());
    }
}

/// The bits of a list of modifiers overlap a mask exactly where those of one
/// of its members do.
pub proof fn lemma_union_bits_overlap(mods: Seq<Mod>, m: Mod)
    ensures
        overlap(union_bits(mods), m.spec_bits()) <==> exists|i: int|
            0 <= i < mods.len() && overlap(#[trigger] mods[i].spec_bits(), m.spec_bits()),
    decreases mods.len(),
{
    if mods.len() == 0 {
        assert(!overlap(0isize, m.spec_bits())) by (bit_vector);
    } else {
        let init = mods.drop_last();
        lemma_union_bits_overlap(init, m);
        lemma_union_bits_bounded(init);
        lemma_or_overlap(union_bits(init), mods.last().spec_bits(), m.spec_bits());
        if overlap(union_bits(mods), m.spec_bits()) {
            if overlap(union_bits(init), m.spec_bits()) {
                let i = choose|i: int|
                    0 <= i < init.len() && overlap(#[trigger] init[i].spec_bits(), m.spec_bits());
                assert(mods[i] == init[i]);
            } else {
                assert(overlap(mods[mods.len() - 1].spec_bits(), m.spec_bits()));
            }
        }
        if exists|i: int|
            0 <= i < mods.len() && overlap(#[trigger] mods[i].spec_bits(), m.spec_bits()) {
            let i = choose|i: int|
                0 <= i < mods.len() && overlap(#[trigger] mods[i].spec_bits(), m.spec_bits());
            if i < mods.len() - 1 {
                assert(init[i] == mods[i]);
            }
        }
    }
}

/// The bits of two lists of modifiers put together are the bits of the one
/// and those of the other.
pub proof fn lemma_union_bits_concat(first: Seq<Mod>, second: Seq<Mod>)
    ensures
        union_bits(first + second) == union_bits(first) | union_bits(second),
    decreases second.len(),
{
    let whole = first + second;
    let one = union_bits(first);
    if second.len() == 0 {
        assert(whole =~= first);
        assert(one | 0 == one) by (bit_vector);
    } else {
        let init = second.drop_last();
        let last = second.last().spec_bits();
        let rest = union_bits(init);
        lemma_union_bits_concat(first, init);
        assert(whole.drop_last() =~= first + init);
        assert(whole.last() == second.last());
        assert((one | rest) | last == one | (rest | last)) by (bit_vector);
    }
}

/// The modifier keys that were held during an input occurrence.
#[derive(Clone, Copy, Debug, PartialEq, Eq, Structural)]
pub struct Modifiers(isize);

impl Modifiers {
    /// The mask of the modifiers held.
    pub closed spec fn bits(self) -> isize {
        self.0
    }

    /// The value that [`Modifiers::create`] makes from `mods`.
    pub closed spec fn spec_create(mods: Seq<Mod>) -> Modifiers {
        Modifiers(combined_bits(mods))
    }

    /// The modifiers made from a list hold the bits of its members, and
    /// those of `NoMod` where it has none.
    pub proof fn lemma_spec_create(mods: Seq<Mod>)
        ensures
            Self::spec_create(mods).bits() == combined_bits(mods),
            0 < Self::spec_create(mods).bits() <= 0x1fff,
    {
        lemma_union_bits_bounded(mods);
    }

    /// Whether every bit of `m` is held.
    pub open spec fn spec_includes(self, m: Mod) -> bool {
        self.bits() & m.spec_bits() == m.spec_bits()
    }

    /// Whether some bit of `m` is held.
    pub open spec fn spec_has(self, m: Mod) -> bool {
        overlap(self.bits(), m.spec_bits())
    }

    /// Modifiers made from a list hold a key that `m` stands for exactly where
    /// a member of the list stands for one too; made from no modifiers at
    /// all, they hold `NoMod` and nothing else.
    pub proof fn lemma_created_has(mods: Seq<Mod>, m: Mod)
        ensures
            mods.len() > 0 ==> (Self::spec_create(mods).spec_has(m) <==> exists|i: int|
                0 <= i < mods.len() && overlap(#[trigger] mods[i].spec_bits(), m.spec_bits())),
            mods.len() == 0 ==> (Self::spec_create(mods).spec_has(m) <==> m == Mod::NoMod),
    {
        lemma_union_bits_overlap(mods, m);
        if mods.len() == 0 {
            let bits = m.spec_bits();
            assert(overlap(1isize, bits) <==> bits == 1) by (bit_vector)
                requires
                    bits == 0x1 || bits == 0x2 || bits == 0x4 || bits == 0x6 || bits == 0x8
                        || bits == 0x10 || bits == 0x18 || bits == 0x20 || bits == 0x40 || bits
                        == 0x60 || bits == 0x80 || bits == 0x100 || bits == 0x180 || bits
                        == 0x200 || bits == 0x400 || bits == 0x800 || bits == 0x1000,
            ;
        }
    }

    /// Whether every key that `m` stands for is held: for `Mod::Shift`, both
    /// shift keys.
    pub fn includes(&self, m: Mod) -> (held: bool)
        ensures
            held == self.spec_includes(m),
    {
        let size = m.get();
        self.0 & size == size
    }

    /// Whether a key that `m` stands for is held: for `Mod::Shift`, either
    /// shift key.
    pub fn has(&self, m: Mod) -> (held: bool)
        ensures
            held == self.spec_has(m),
    {
        self.0 & m.get() > 0
    }

    /// The modifiers of `modifiers` taken together; `Mod::NoMod` alone where
    /// the list is empty.
    pub fn create(modifiers: Vec<Mod>) -> (created: Self)
        ensures
            created == Self::spec_create(modifiers@),
            created.bits() == combined_bits(modifiers@),
            0 < created.bits() <= 0x1fff,
    {
        proof {
            lemma_union_bits_bounded(modifiers@);
        }
        if modifiers.is_empty() {
            return Self(1);
        }
        let ghost union = union_bits(modifiers@);
        assert(0isize | union == union) by (bit_vector);
        let size = Self::append_mod(modifiers, 0);
        Self(size)
    }

    /// `current_size` with the bits of every modifier of `modifiers` added.
    pub fn append_mod(modifiers: Vec<Mod>, current_size: isize) -> (size: isize)
        ensures
            size == current_size | union_bits(modifiers@),
        decreases modifiers.len(),
    {
        let mut modifiers = modifiers;
        let ghost all = modifiers@;
        if let Some(curr_mod) = modifiers.pop() {
            proof {
                assert(modifiers@ == all.drop_last());
                assert(curr_mod == all.last());
                lemma_or_rearranged(
                    current_size,
                    union_bits(all.drop_last()),
                    curr_mod.spec_bits(),
                );
            }
            return Self::append_mod(modifiers, current_size | curr_mod.get());
        } else {
            assert(current_size | 0 == current_size) by (bit_vector);
            return current_size;
        }
    }
}

} // verus!
