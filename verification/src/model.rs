//! The light's basic values: colours, the ways layers are blended, and the
//! snapshot of the device that is published to listeners.
use vstd::prelude::*;

verus! {

/// An 8-bit RGB colour.
#[derive(Clone, Copy, Debug, PartialEq, Eq, Structural)]
pub struct Rgb {
    pub r: u8,
    pub g: u8,
    pub b: u8,
}

impl Rgb {
    /// The colour with the given channels.
    pub fn new(r: u8, g: u8, b: u8) -> (c: Rgb)
        ensures
            c == (Rgb { r, g, b }),
    {
        Rgb { r, g, b }
    }

    /// All channels off.
    pub fn black() -> (c: Rgb)
        ensures
            c == (Rgb { r: 0, g: 0, b: 0 }),
    {
        Rgb { r: 0, g: 0, b: 0 }
    }
}

/// How a layer's pixels combine with the layers below it.
#[derive(Clone, Copy, Debug, PartialEq, Eq, Structural)]
pub enum BlendMode {
    Override,
    Add,
    Screen,
    Multiply,
}

/// The stored name of a blend mode.
pub open spec fn blend_mode_name(mode: BlendMode) -> Seq<char> {
    match mode {
        BlendMode::Override => seq!['o', 'v', 'e', 'r', 'r', 'i', 'd', 'e'],
        BlendMode::Add => seq!['a', 'd', 'd'],
        BlendMode::Screen => seq!['s', 'c', 'r', 'e', 'e', 'n'],
        BlendMode::Multiply => seq!['m', 'u', 'l', 't', 'i', 'p', 'l', 'y'],
    }
}

/// The blend mode a stored name stands for; names that are not one of the
/// four stand for the default, `Override`.
pub open spec fn blend_mode_of_name(name: Seq<char>) -> BlendMode {
    if name == blend_mode_name(BlendMode::Add) {
        BlendMode::Add
    } else if name == blend_mode_name(BlendMode::Screen) {
        BlendMode::Screen
    } else if name == blend_mode_name(BlendMode::Multiply) {
        BlendMode::Multiply
    } else {
        BlendMode::Override
    }
}

impl BlendMode {
    /// The mode used where none is given.
    pub fn default_mode() -> (m: BlendMode)
        ensures
            m == BlendMode::Override,
    {
        BlendMode::Override
    }
}

/// The stored name of a blend mode (`"override"`, `"add"`, `"screen"` or `"multiply"`).
pub fn blend_mode_to_str(mode: BlendMode) -> (r: &'static str)
    ensures
        r@ == blend_mode_name(mode),
{
    proof {
        reveal_strlit("override");
        reveal_strlit("add");
        reveal_strlit("screen");
        reveal_strlit("multiply");
    }
    match mode {
        BlendMode::Override => "override",
        BlendMode::Add => "add",
        BlendMode::Screen => "screen",
        BlendMode::Multiply => "multiply",
    }
}

/// The blend mode named by `name`, falling back to `Override`.
pub fn blend_mode_from_str(name: &str) -> (m: BlendMode)
    ensures
        m == blend_mode_of_name(name@),
{
    proof {
        reveal_strlit("add");
        reveal_strlit("screen");
        reveal_strlit("multiply");
        assert("add"@ =~= blend_mode_name(BlendMode::Add));
        assert("screen"@ =~= blend_mode_name(BlendMode::Screen));
        assert("multiply"@ =~= blend_mode_name(BlendMode::Multiply));
    }
    if crate::text::str_eq(name, "add") {
        BlendMode::Add
    } else if crate::text::str_eq(name, "screen") {
        BlendMode::Screen
    } else if crate::text::str_eq(name, "multiply") {
        BlendMode::Multiply
    } else {
        BlendMode::Override
    }
}

/// Reading back the stored name of a blend mode gives the same mode.
pub proof fn law_blend_mode_name_round_trip(mode: BlendMode)
    ensures
        blend_mode_of_name(blend_mode_name(mode)) == mode,
{
    let o = blend_mode_name(BlendMode::Override);
    let a = blend_mode_name(BlendMode::Add);
    let s = blend_mode_name(BlendMode::Screen);
    let m = blend_mode_name(BlendMode::Multiply);
    assert(o.len() == 8 && a.len() == 3 && s.len() == 6 && m.len() == 8);
    assert(o[0] != m[0]);
}

/// What listeners are told about the device after each change.
pub struct SceneSnapshot {
    pub on: bool,
    pub brightness: u8,
    pub color: Rgb,
    pub active_effect: Option<String>,
    pub light_effect_end_unix_timestamp_sec: Option<u64>,
}

} // verus!
