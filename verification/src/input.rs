//! Double-buffered input state: current and previous generations of the
//! pressed sets for keys, mouse buttons and modifiers, plus pointer
//! position and per-frame motion deltas. Edge queries ("just pressed",
//! "just released") compare the two generations; `advance_frame` on
//! [`InputContext`] is the only operation that rotates them.

use vstd::prelude::*;

verus! {

broadcast use vstd::seq_lib::group_seq_properties;

/// A physical key, identified as on a standard keyboard layout.
#[derive(Clone, Copy, Debug, Hash, PartialEq, Eq, Structural)]
pub enum KeyCode {
    Backquote,
    Backslash,
    BracketLeft,
    BracketRight,
    Comma,
    Digit0,
    Digit1,
    Digit2,
    Digit3,
    Digit4,
    Digit5,
    Digit6,
    Digit7,
    Digit8,
    Digit9,
    Equal,
    IntlBackslash,
    IntlRo,
    IntlYen,
    KeyA,
    KeyB,
    KeyC,
    KeyD,
    KeyE,
    KeyF,
    KeyG,
    KeyH,
    KeyI,
    KeyJ,
    KeyK,
    KeyL,
    KeyM,
    KeyN,
    KeyO,
    KeyP,
    KeyQ,
    KeyR,
    KeyS,
    KeyT,
    KeyU,
    KeyV,
    KeyW,
    KeyX,
    KeyY,
    KeyZ,
    Minus,
    Period,
    Quote,
    Semicolon,
    Slash,
    AltLeft,
    AltRight,
    Backspace,
    CapsLock,
    ContextMenu,
    ControlLeft,
    ControlRight,
    Enter,
    SuperLeft,
    SuperRight,
    ShiftLeft,
    ShiftRight,
    Space,
    Tab,
    Convert,
    KanaMode,
    NonConvert,
    Delete,
    End,
    Help,
    Home,
    Insert,
    PageDown,
    PageUp,
    ArrowDown,
    ArrowLeft,
    ArrowRight,
    ArrowUp,
    NumLock,
    Numpad0,
    Numpad1,
    Numpad2,
    Numpad3,
    Numpad4,
    Numpad5,
    Numpad6,
    Numpad7,
    Numpad8,
    Numpad9,
    NumpadAdd,
    NumpadComma,
    NumpadDecimal,
    NumpadDivide,
    NumpadEnter,
    NumpadEqual,
    NumpadMultiply,
    NumpadSubtract,
    Escape,
    PrintScreen,
    ScrollLock,
    Pause,
    F1,
    F2,
    F3,
    F4,
    F5,
    F6,
    F7,
    F8,
    F9,
    F10,
    F11,
    F12,
}

/// A pointer-device button.
#[derive(Clone, Copy, Debug, Hash, PartialEq, Eq, Structural)]
pub enum MouseButton {
    Left,
    Right,
    Middle,
    Back,
    Forward,
    Other(u16),
}

/// A modifier key, tracked as a set member rather than a bitmask so that
/// the edge queries work uniformly with keys and buttons.
#[derive(Clone, Copy, Debug, Hash, Ord, PartialOrd, PartialEq, Eq, Structural)]
pub enum KeyModifier {
    Shift,
    Ctrl,
    Alt,
    Super,
}

/// Removing index `i` from a duplicate-free sequence removes exactly the
/// element at `i` from the set of members, and keeps the rest.
proof fn lemma_remove_value<A>(s: Seq<A>, i: int)
    requires
        0 <= i < s.len(),
        s.no_duplicates(),
    ensures
        s.remove(i).no_duplicates(),
        forall|y: A| #[trigger] s.remove(i).contains(y) <==> (s.contains(y) && y != s[i]),
{
    s.remove_ensures(i);
    let r = s.remove(i);
    assert forall|y: A| #[trigger] r.contains(y) implies (s.contains(y) && y != s[i]) by {
        let j = choose|j: int| 0 <= j < r.len() && r[j] == y;
        if j < i {
            assert(s[j] == y);
        } else {
            assert(s[j + 1] == y);
        }
    }
    assert forall|y: A| s.contains(y) && y != s[i] implies #[trigger] r.contains(y) by {
        let j = choose|j: int| 0 <= j < s.len() && s[j] == y;
        if j < i {
            assert(r[j] == y);
        } else {
            assert(r[j - 1] == y);
        }
    }
    assert forall|p: int, q: int| 0 <= p < q < r.len() implies r[p] != r[q] by {
        if q < i {
            assert(r[p] == s[p] && r[q] == s[q]);
        } else if p < i {
            assert(r[p] == s[p] && r[q] == s[q + 1]);
        } else {
            assert(r[p] == s[p + 1] && r[q] == s[q + 1]);
        }
    }
}

/// Linear membership test in a vector of key codes.
fn contains_key(v: &Vec<KeyCode>, x: KeyCode) -> (r: bool)
    ensures
        r == v@.contains(x),
{
    let mut i: usize = 0;
    while i < v.len()
        invariant
            i <= v@.len(),
            forall|j: int| 0 <= j < i ==> v@[j] != x,
        decreases v@.len() - i,
    {
        if v[i] == x {
            return true;
        }
        i = i + 1;
    }
    false
}

/// Add a key code to a duplicate-free vector, keeping it duplicate-free.
fn insert_key(v: &mut Vec<KeyCode>, x: KeyCode)
    requires
        old(v)@.no_duplicates(),
    ensures
        final(v)@.no_duplicates(),
        final(v)@.to_set() == old(v)@.to_set().insert(x),
{
    if !contains_key(v, x) {
        v.push(x);
    }
    proof {
        assert(v@.to_set() =~= old(v)@.to_set().insert(x));
    }
}

/// Drop a key code from a duplicate-free vector, keeping it duplicate-free.
fn remove_key(v: &mut Vec<KeyCode>, x: KeyCode)
    requires
        old(v)@.no_duplicates(),
    ensures
        final(v)@.no_duplicates(),
        final(v)@.to_set() == old(v)@.to_set().remove(x),
{
    let mut i: usize = 0;
    while i < v.len()
        invariant
            i <= v@.len(),
            v@ == old(v)@,
            v@.no_duplicates(),
            forall|j: int| 0 <= j < i ==> v@[j] != x,
        decreases v@.len() - i,
    {
        if v[i] == x {
            proof {
                lemma_remove_value(v@, i as int);
            }
            v.remove(i);
            proof {
                assert(v@.to_set() =~= old(v)@.to_set().remove(x));
            }
            return;
        }
        i = i + 1;
    }
    proof {
        assert(v@.to_set() =~= old(v)@.to_set().remove(x));
    }
}

/// An element-by-element copy of a vector of key codes.
fn copy_keys(v: &Vec<KeyCode>) -> (r: Vec<KeyCode>)
    ensures
        r@ == v@,
{
    let mut r: Vec<KeyCode> = Vec::new();
    let mut i: usize = 0;
    while i < v.len()
        invariant
            i <= v@.len(),
            r@ == v@.take(i as int),
        decreases v@.len() - i,
    {
        r.push(v[i]);
        i = i + 1;
    }
    proof {
        assert(r@ =~= v@);
    }
    r
}

/// Linear membership test in a vector of modifiers.
fn contains_modifier(v: &Vec<KeyModifier>, x: KeyModifier) -> (r: bool)
    ensures
        r == v@.contains(x),
{
    let mut i: usize = 0;
    while i < v.len()
        invariant
            i <= v@.len(),
            forall|j: int| 0 <= j < i ==> v@[j] != x,
        decreases v@.len() - i,
    {
        if v[i] == x {
            return true;
        }
        i = i + 1;
    }
    false
}

/// Add an element to a duplicate-free vector, keeping it duplicate-free.
fn insert_modifier(v: &mut Vec<KeyModifier>, x: KeyModifier)
    requires
        old(v)@.no_duplicates(),
    ensures
        final(v)@.no_duplicates(),
        final(v)@.to_set() == old(v)@.to_set().insert(x),
{
    if !contains_modifier(v, x) {
        v.push(x);
    }
    proof {
        assert(v@.to_set() =~= old(v)@.to_set().insert(x));
    }
}

/// Drop an element from a duplicate-free vector, keeping it duplicate-free.
fn remove_modifier(v: &mut Vec<KeyModifier>, x: KeyModifier)
    requires
        old(v)@.no_duplicates(),
    ensures
        final(v)@.no_duplicates(),
        final(v)@.to_set() == old(v)@.to_set().remove(x),
{
    let mut i: usize = 0;
    while i < v.len()
        invariant
            i <= v@.len(),
            v@ == old(v)@,
            v@.no_duplicates(),
            forall|j: int| 0 <= j < i ==> v@[j] != x,
        decreases v@.len() - i,
    {
        if v[i] == x {
            proof {
                lemma_remove_value(v@, i as int);
            }
            v.remove(i);
            proof {
                assert(v@.to_set() =~= old(v)@.to_set().remove(x));
            }
            return;
        }
        i = i + 1;
    }
    proof {
        assert(v@.to_set() =~= old(v)@.to_set().remove(x));
    }
}

/// An element-by-element copy of a vector of modifiers.
fn copy_modifiers(v: &Vec<KeyModifier>) -> (r: Vec<KeyModifier>)
    ensures
        r@ == v@,
{
    let mut r: Vec<KeyModifier> = Vec::new();
    let mut i: usize = 0;
    while i < v.len()
        invariant
            i <= v@.len(),
            r@ == v@.take(i as int),
        decreases v@.len() - i,
    {
        r.push(v[i]);
        i = i + 1;
    }
    proof {
        assert(r@ =~= v@);
    }
    r
}

/// Linear membership test in a vector of mouse buttons.
fn contains_button(v: &Vec<MouseButton>, x: MouseButton) -> (r: bool)
    ensures
        r == v@.contains(x),
{
    let mut i: usize = 0;
    while i < v.len()
        invariant
            i <= v@.len(),
            forall|j: int| 0 <= j < i ==> v@[j] != x,
        decreases v@.len() - i,
    {
        if v[i] == x {
            return true;
        }
        i = i + 1;
    }
    false
}

/// Add an element to a duplicate-free vector, keeping it duplicate-free.
fn insert_button(v: &mut Vec<MouseButton>, x: MouseButton)
    requires
        old(v)@.no_duplicates(),
    ensures
        final(v)@.no_duplicates(),
        final(v)@.to_set() == old(v)@.to_set().insert(x),
{
    if !contains_button(v, x) {
        v.push(x);
    }
    proof {
        assert(v@.to_set() =~= old(v)@.to_set().insert(x));
    }
}

/// Drop an element from a duplicate-free vector, keeping it duplicate-free.
fn remove_button(v: &mut Vec<MouseButton>, x: MouseButton)
    requires
        old(v)@.no_duplicates(),
    ensures
        final(v)@.no_duplicates(),
        final(v)@.to_set() == old(v)@.to_set().remove(x),
{
    let mut i: usize = 0;
    while i < v.len()
        invariant
            i <= v@.len(),
            v@ == old(v)@,
            v@.no_duplicates(),
            forall|j: int| 0 <= j < i ==> v@[j] != x,
        decreases v@.len() - i,
    {
        if v[i] == x {
            proof {
                lemma_remove_value(v@, i as int);
            }
            v.remove(i);
            proof {
                assert(v@.to_set() =~= old(v)@.to_set().remove(x));
            }
            return;
        }
        i = i + 1;
    }
    proof {
        assert(v@.to_set() =~= old(v)@.to_set().remove(x));
    }
}

/// An element-by-element copy of a vector of mouse buttons.
fn copy_buttons(v: &Vec<MouseButton>) -> (r: Vec<MouseButton>)
    ensures
        r@ == v@,
{
    let mut r: Vec<MouseButton> = Vec::new();
    let mut i: usize = 0;
    while i < v.len()
        invariant
            i <= v@.len(),
            r@ == v@.take(i as int),
        decreases v@.len() - i,
    {
        r.push(v[i]);
        i = i + 1;
    }
    proof {
        assert(r@ =~= v@);
    }
    r
}

/// `a + b` clamped to the `i64` range. Per-frame motion deltas are summed
/// with this, so that a pathological burst of events saturates instead of
/// wrapping.
fn sat_add_i64(a: i64, b: i64) -> (r: i64)
    ensures
        r == if a + b > i64::MAX {
            i64::MAX as int
        } else if a + b < i64::MIN {
            i64::MIN as int
        } else {
            a + b
        },
{
    if b >= 0 {
        if a > i64::MAX - b {
            i64::MAX
        } else {
            a + b
        }
    } else {
        if a < i64::MIN - b {
            i64::MIN
        } else {
            a + b
        }
    }
}

/// The modifier set reported by a host snapshot with the four flags.
pub open spec fn modifier_set(shift: bool, alt: bool, ctrl: bool, super_key: bool) -> Set<
    KeyModifier,
> {
    Set::new(
        |m: KeyModifier|
            match m {
                KeyModifier::Shift => shift,
                KeyModifier::Alt => alt,
                KeyModifier::Ctrl => ctrl,
                KeyModifier::Super => super_key,
            },
    )
}

/// Mathematical model of the keyboard state: the current and previous
/// pressed sets for keys and modifiers.
pub ghost struct KeyboardView {
    pub pressed: Set<KeyCode>,
    pub previous_pressed: Set<KeyCode>,
    pub pressed_modifiers: Set<KeyModifier>,
    pub previous_pressed_modifiers: Set<KeyModifier>,
}

/// Current and previous generations of the pressed key and modifier sets.
pub struct KeyboardContext {
    pressed: Vec<KeyCode>,
    previous_pressed: Vec<KeyCode>,
    pressed_modifiers: Vec<KeyModifier>,
    previous_pressed_modifiers: Vec<KeyModifier>,
}

impl View for KeyboardContext {
    type V = KeyboardView;

    closed spec fn view(&self) -> KeyboardView {
        KeyboardView {
            pressed: self.pressed@.to_set(),
            previous_pressed: self.previous_pressed@.to_set(),
            pressed_modifiers: self.pressed_modifiers@.to_set(),
            previous_pressed_modifiers: self.previous_pressed_modifiers@.to_set(),
        }
    }
}

impl Default for KeyboardContext {
    /// The startup state: nothing pressed in either generation.
    fn default() -> (r: KeyboardContext)
        ensures
            r.inv(),
            r@.pressed == Set::<KeyCode>::empty(),
            r@.previous_pressed == Set::<KeyCode>::empty(),
            r@.pressed_modifiers == Set::<KeyModifier>::empty(),
            r@.previous_pressed_modifiers == Set::<KeyModifier>::empty(),
    {
        let r = KeyboardContext {
            pressed: Vec::new(),
            previous_pressed: Vec::new(),
            pressed_modifiers: Vec::new(),
            previous_pressed_modifiers: Vec::new(),
        };
        proof {
            assert(r@.pressed =~= Set::<KeyCode>::empty());
            assert(r@.previous_pressed =~= Set::<KeyCode>::empty());
            assert(r@.pressed_modifiers =~= Set::<KeyModifier>::empty());
            assert(r@.previous_pressed_modifiers =~= Set::<KeyModifier>::empty());
        }
        r
    }
}

impl KeyboardContext {
    /// Internal well-formedness: the backing vectors are duplicate-free.
    pub closed spec fn inv(&self) -> bool {
        &&& self.pressed@.no_duplicates()
        &&& self.previous_pressed@.no_duplicates()
        &&& self.pressed_modifiers@.no_duplicates()
        &&& self.previous_pressed_modifiers@.no_duplicates()
    }

    /// True while the key is down in the current frame (level-triggered).
    pub fn key_pressed(&self, keycode: KeyCode) -> (r: bool)
        ensures
            r == self@.pressed.contains(keycode),
    {
        contains_key(&self.pressed, keycode)
    }

    /// True exactly on the frame the key went down: pressed now and not
    /// pressed as of the previous frame boundary.
    pub fn key_just_pressed(&self, keycode: KeyCode) -> (r: bool)
        ensures
            r == (self@.pressed.contains(keycode) && !self@.previous_pressed.contains(keycode)),
    {
        contains_key(&self.pressed, keycode) && !contains_key(&self.previous_pressed, keycode)
    }

    /// True exactly on the frame the key went up: not pressed now and
    /// pressed as of the previous frame boundary.
    pub fn key_released(&self, keycode: KeyCode) -> (r: bool)
        ensures
            r == (!self@.pressed.contains(keycode) && self@.previous_pressed.contains(keycode)),
    {
        !contains_key(&self.pressed, keycode) && contains_key(&self.previous_pressed, keycode)
    }

    /// True while the modifier is down in the current frame.
    pub fn modifier_pressed(&self, modifier: KeyModifier) -> (r: bool)
        ensures
            r == self@.pressed_modifiers.contains(modifier),
    {
        contains_modifier(&self.pressed_modifiers, modifier)
    }

    /// True exactly on the frame the modifier went down.
    pub fn modifier_just_pressed(&self, modifier: KeyModifier) -> (r: bool)
        ensures
            r == (self@.pressed_modifiers.contains(modifier)
                && !self@.previous_pressed_modifiers.contains(modifier)),
    {
        contains_modifier(&self.pressed_modifiers, modifier) && !contains_modifier(
            &self.previous_pressed_modifiers,
            modifier,
        )
    }

    /// True exactly on the frame the modifier went up.
    pub fn modifier_released(&self, modifier: KeyModifier) -> (r: bool)
        ensures
            r == (!self@.pressed_modifiers.contains(modifier)
                && self@.previous_pressed_modifiers.contains(modifier)),
    {
        !contains_modifier(&self.pressed_modifiers, modifier) && contains_modifier(
            &self.previous_pressed_modifiers,
            modifier,
        )
    }

    /// Record a key-down event: adds the key to the current generation
    /// only.
    pub fn set_key(&mut self, keycode: KeyCode)
        requires
            old(self).inv(),
        ensures
            final(self).inv(),
            final(self)@.pressed == old(self)@.pressed.insert(keycode),
            final(self)@.previous_pressed == old(self)@.previous_pressed,
            final(self)@.pressed_modifiers == old(self)@.pressed_modifiers,
            final(self)@.previous_pressed_modifiers == old(self)@.previous_pressed_modifiers,
    {
        insert_key(&mut self.pressed, keycode);
    }

    /// Record a key-up event: removes the key from the current generation
    /// only.
    pub fn release_key(&mut self, keycode: KeyCode)
        requires
            old(self).inv(),
        ensures
            final(self).inv(),
            final(self)@.pressed == old(self)@.pressed.remove(keycode),
            final(self)@.previous_pressed == old(self)@.previous_pressed,
            final(self)@.pressed_modifiers == old(self)@.pressed_modifiers,
            final(self)@.previous_pressed_modifiers == old(self)@.previous_pressed_modifiers,
    {
        remove_key(&mut self.pressed, keycode);
    }

    /// Replace the current modifier set wholesale from a host snapshot
    /// (hosts report modifiers as a complete snapshot, not as individual
    /// press/release events).
    pub fn modifiers_changed(&mut self, shift: bool, alt: bool, ctrl: bool, super_key: bool)
        requires
            old(self).inv(),
        ensures
            final(self).inv(),
            final(self)@.pressed_modifiers == modifier_set(shift, alt, ctrl, super_key),
            final(self)@.pressed == old(self)@.pressed,
            final(self)@.previous_pressed == old(self)@.previous_pressed,
            final(self)@.previous_pressed_modifiers == old(self)@.previous_pressed_modifiers,
    {
        let mut mods: Vec<KeyModifier> = Vec::new();
        if shift {
            mods.push(KeyModifier::Shift);
        }
        if alt {
            mods.push(KeyModifier::Alt);
        }
        if ctrl {
            mods.push(KeyModifier::Ctrl);
        }
        if super_key {
            mods.push(KeyModifier::Super);
        }
        self.pressed_modifiers = mods;
        proof {
            assert(self.pressed_modifiers@.to_set() =~= modifier_set(shift, alt, ctrl, super_key));
        }
    }

    /// Snapshot the current keys into the previous generation. Called once
    /// per frame by `InputContext::advance_frame`.
    pub fn save_keys(&mut self)
        requires
            old(self).inv(),
        ensures
            final(self).inv(),
            final(self)@.previous_pressed == old(self)@.pressed,
            final(self)@.pressed == old(self)@.pressed,
            final(self)@.pressed_modifiers == old(self)@.pressed_modifiers,
            final(self)@.previous_pressed_modifiers == old(self)@.previous_pressed_modifiers,
    {
        self.previous_pressed = copy_keys(&self.pressed);
    }

    /// Snapshot the current modifiers into the previous generation. Called
    /// once per frame by `InputContext::advance_frame`.
    pub fn save_modifiers(&mut self)
        requires
            old(self).inv(),
        ensures
            final(self).inv(),
            final(self)@.previous_pressed_modifiers == old(self)@.pressed_modifiers,
            final(self)@.pressed == old(self)@.pressed,
            final(self)@.previous_pressed == old(self)@.previous_pressed,
            final(self)@.pressed_modifiers == old(self)@.pressed_modifiers,
    {
        self.previous_pressed_modifiers = copy_modifiers(&self.pressed_modifiers);
    }
}

/// The canvas pixel under a pointer at physical coordinate `pos` on a host
/// drawable area of `extent` physical units mapped onto `canvas` pixels:
/// `floor(pos / extent * canvas)`, clamped into the `u32` range (the
/// pointer can run past the edge while a button is held, so the result may
/// name a pixel outside the canvas and needs bounds validation).
pub open spec fn pixel_under(pos: int, extent: int, canvas: int) -> int
    recommends
        0 < extent,
{
    let scaled = pos * canvas / extent;
    if scaled < 0 {
        0
    } else if scaled > u32::MAX {
        u32::MAX as int
    } else {
        scaled
    }
}

/// Mathematical model of the pointer state: whether the pointer is on the
/// drawable surface, its last position, the per-frame accumulated motion
/// and scroll deltas, and the two generations of the pressed-button set.
pub ghost struct MouseView {
    pub on_screen: bool,
    pub pos: (int, int),
    pub mouse_delta: (int, int),
    pub scroll_delta: (int, int),
    pub pressed: Set<MouseButton>,
    pub previous_pressed: Set<MouseButton>,
}

/// Pointer state: position, per-frame deltas, and current and previous
/// generations of the pressed-button set.
pub struct MouseContext {
    on_screen: bool,
    pos_x: i64,
    pos_y: i64,
    delta_x: i64,
    delta_y: i64,
    scroll_x: i64,
    scroll_y: i64,
    pressed: Vec<MouseButton>,
    previous_pressed: Vec<MouseButton>,
}

impl View for MouseContext {
    type V = MouseView;

    closed spec fn view(&self) -> MouseView {
        MouseView {
            on_screen: self.on_screen,
            pos: (self.pos_x as int, self.pos_y as int),
            mouse_delta: (self.delta_x as int, self.delta_y as int),
            scroll_delta: (self.scroll_x as int, self.scroll_y as int),
            pressed: self.pressed@.to_set(),
            previous_pressed: self.previous_pressed@.to_set(),
        }
    }
}

impl Default for MouseContext {
    /// The startup state: pointer off screen at the origin, zero deltas,
    /// no buttons pressed in either generation.
    fn default() -> (r: MouseContext)
        ensures
            r.inv(),
            !r@.on_screen,
            r@.pos == (0int, 0int),
            r@.mouse_delta == (0int, 0int),
            r@.scroll_delta == (0int, 0int),
            r@.pressed == Set::<MouseButton>::empty(),
            r@.previous_pressed == Set::<MouseButton>::empty(),
    {
        let r = MouseContext {
            on_screen: false,
            pos_x: 0,
            pos_y: 0,
            delta_x: 0,
            delta_y: 0,
            scroll_x: 0,
            scroll_y: 0,
            pressed: Vec::new(),
            previous_pressed: Vec::new(),
        };
        proof {
            assert(r@.pressed =~= Set::<MouseButton>::empty());
            assert(r@.previous_pressed =~= Set::<MouseButton>::empty());
        }
        r
    }
}

impl MouseContext {
    /// Internal well-formedness: the backing vectors are duplicate-free.
    pub closed spec fn inv(&self) -> bool {
        &&& self.pressed@.no_duplicates()
        &&& self.previous_pressed@.no_duplicates()
    }

    /// True while the button is down in the current frame.
    pub fn button_pressed(&self, button: MouseButton) -> (r: bool)
        ensures
            r == self@.pressed.contains(button),
    {
        contains_button(&self.pressed, button)
    }

    /// True exactly on the frame the button went down.
    pub fn button_just_pressed(&self, button: MouseButton) -> (r: bool)
        ensures
            r == (self@.pressed.contains(button) && !self@.previous_pressed.contains(button)),
    {
        contains_button(&self.pressed, button) && !contains_button(
            &self.previous_pressed,
            button,
        )
    }

    /// True exactly on the frame the button went up.
    pub fn button_released(&self, button: MouseButton) -> (r: bool)
        ensures
            r == (!self@.pressed.contains(button) && self@.previous_pressed.contains(button)),
    {
        !contains_button(&self.pressed, button) && contains_button(
            &self.previous_pressed,
            button,
        )
    }

    /// Whether the pointer is currently on the drawable surface.
    pub fn on_screen(&self) -> (r: bool)
        ensures
            r == self@.on_screen,
    {
        self.on_screen
    }

    /// The last reported pointer position, in physical units.
    pub fn mouse_pos_physical(&self) -> (r: (i64, i64))
        ensures
            (r.0 as int, r.1 as int) == self@.pos,
    {
        (self.pos_x, self.pos_y)
    }

    /// The pointer motion accumulated since the last frame boundary.
    pub fn mouse_delta(&self) -> (r: (i64, i64))
        ensures
            (r.0 as int, r.1 as int) == self@.mouse_delta,
    {
        (self.delta_x, self.delta_y)
    }

    /// The scroll motion accumulated since the last frame boundary.
    pub fn scroll_delta(&self) -> (r: (i64, i64))
        ensures
            (r.0 as int, r.1 as int) == self@.scroll_delta,
    {
        (self.scroll_x, self.scroll_y)
    }

    /// The canvas pixel under the pointer, given the host drawable area
    /// size in physical units and the canvas size in pixels. The mapping
    /// does not clamp to the canvas: the caller validates bounds before
    /// indexing.
    pub fn mouse_pos_pixel(
        &self,
        window_width: u32,
        window_height: u32,
        canvas_width: u32,
        canvas_height: u32,
    ) -> (r: (u32, u32))
        requires
            0 < window_width,
            0 < window_height,
        ensures
            r.0 == pixel_under(self@.pos.0, window_width as int, canvas_width as int),
            r.1 == pixel_under(self@.pos.1, window_height as int, canvas_height as int),
    {
        (
            pixel_under_exec(self.pos_x, window_width, canvas_width),
            pixel_under_exec(self.pos_y, window_height, canvas_height),
        )
    }

    /// Record a pointer enter/leave event.
    pub fn set_on_screen(&mut self, on_screen: bool)
        requires
            old(self).inv(),
        ensures
            final(self).inv(),
            final(self)@ == (MouseView { on_screen, ..old(self)@ }),
    {
        self.on_screen = on_screen;
    }

    /// Overwrite the pointer position with the latest host report. Does
    /// not touch `on_screen`.
    pub fn set_pos(&mut self, x: i64, y: i64)
        requires
            old(self).inv(),
        ensures
            final(self).inv(),
            final(self)@ == (MouseView { pos: (x as int, y as int), ..old(self)@ }),
    {
        self.pos_x = x;
        self.pos_y = y;
    }

    /// Add a motion report to the per-frame pointer delta (device motion
    /// arrives several times per frame; deltas are summed, saturating at
    /// the `i64` range, until the next frame boundary resets them).
    pub fn accumulate_pointer_delta(&mut self, dx: i64, dy: i64)
        requires
            old(self).inv(),
        ensures
            final(self).inv(),
            final(self)@ == (MouseView {
                mouse_delta: (
                    sat_i64(old(self)@.mouse_delta.0 + dx),
                    sat_i64(old(self)@.mouse_delta.1 + dy),
                ),
                ..old(self)@
            }),
    {
        self.delta_x = sat_add_i64(self.delta_x, dx);
        self.delta_y = sat_add_i64(self.delta_y, dy);
    }

    /// Add a scroll report to the per-frame scroll delta (summed and
    /// saturating, like the pointer delta).
    pub fn accumulate_scroll_delta(&mut self, dx: i64, dy: i64)
        requires
            old(self).inv(),
        ensures
            final(self).inv(),
            final(self)@ == (MouseView {
                scroll_delta: (
                    sat_i64(old(self)@.scroll_delta.0 + dx),
                    sat_i64(old(self)@.scroll_delta.1 + dy),
                ),
                ..old(self)@
            }),
    {
        self.scroll_x = sat_add_i64(self.scroll_x, dx);
        self.scroll_y = sat_add_i64(self.scroll_y, dy);
    }

    /// Record a button-down event: adds the button to the current
    /// generation only.
    pub fn press_button(&mut self, button: MouseButton)
        requires
            old(self).inv(),
        ensures
            final(self).inv(),
            final(self)@ == (MouseView { pressed: old(self)@.pressed.insert(button), ..old(self)@ }),
    {
        insert_button(&mut self.pressed, button);
    }

    /// Record a button-up event: removes the button from the current
    /// generation only.
    pub fn release_button(&mut self, button: MouseButton)
        requires
            old(self).inv(),
        ensures
            final(self).inv(),
            final(self)@ == (MouseView { pressed: old(self)@.pressed.remove(button), ..old(self)@ }),
    {
        remove_button(&mut self.pressed, button);
    }

    /// Snapshot the current buttons into the previous generation. Called
    /// once per frame by `InputContext::advance_frame`.
    pub fn save_buttons(&mut self)
        requires
            old(self).inv(),
        ensures
            final(self).inv(),
            final(self)@ == (MouseView { previous_pressed: old(self)@.pressed, ..old(self)@ }),
    {
        self.previous_pressed = copy_buttons(&self.pressed);
    }

    /// Zero the per-frame pointer and scroll deltas. Called once per frame
    /// by `InputContext::advance_frame`.
    pub fn reset_deltas(&mut self)
        requires
            old(self).inv(),
        ensures
            final(self).inv(),
            final(self)@ == (MouseView {
                mouse_delta: (0int, 0int),
                scroll_delta: (0int, 0int),
                ..old(self)@
            }),
    {
        self.delta_x = 0;
        self.delta_y = 0;
        self.scroll_x = 0;
        self.scroll_y = 0;
    }
}

/// `v` clamped into the `i64` range.
pub open spec fn sat_i64(v: int) -> int {
    if v > i64::MAX {
        i64::MAX as int
    } else if v < i64::MIN {
        i64::MIN as int
    } else {
        v
    }
}

/// Executable counterpart of `pixel_under`.
fn pixel_under_exec(pos: i64, extent: u32, canvas: u32) -> (r: u32)
    requires
        0 < extent,
    ensures
        r == pixel_under(pos as int, extent as int, canvas as int),
{
    if pos <= 0 {
        proof {
            assert(pos * canvas <= 0 && (pos as int) * (canvas as int) / (extent as int) <= 0)
                by (nonlinear_arith)
                requires
                    pos <= 0,
                    canvas >= 0,
                    extent > 0,
            ;
        }
        return 0;
    }
    proof {
        assert((pos as int) * (canvas as int) <= (i64::MAX as int) * (u32::MAX as int))
            by (nonlinear_arith)
            requires
                0 <= pos <= i64::MAX,
                0 <= canvas <= u32::MAX,
        ;
    }
    let scaled = (pos as u128) * (canvas as u128) / (extent as u128);
    proof {
        vstd::arithmetic::div_mod::lemma_div_pos_is_pos((pos as int) * (canvas as int), extent as int);
    }
    if scaled > u32::MAX as u128 {
        u32::MAX
    } else {
        scaled as u32
    }
}

/// All input state: keyboard and pointer, with the one per-frame
/// transition that rotates the generations and resets the deltas.
pub struct InputContext {
    pub keyboard: KeyboardContext,
    pub mouse: MouseContext,
}

impl Default for InputContext {
    /// The startup state: nothing pressed, pointer off screen, zero
    /// deltas.
    fn default() -> (r: InputContext)
        ensures
            r.inv(),
            r.keyboard@.pressed == Set::<KeyCode>::empty(),
            r.keyboard@.previous_pressed == Set::<KeyCode>::empty(),
            r.keyboard@.pressed_modifiers == Set::<KeyModifier>::empty(),
            r.keyboard@.previous_pressed_modifiers == Set::<KeyModifier>::empty(),
            !r.mouse@.on_screen,
            r.mouse@.pos == (0int, 0int),
            r.mouse@.mouse_delta == (0int, 0int),
            r.mouse@.scroll_delta == (0int, 0int),
            r.mouse@.pressed == Set::<MouseButton>::empty(),
            r.mouse@.previous_pressed == Set::<MouseButton>::empty(),
    {
        InputContext { keyboard: KeyboardContext::default(), mouse: MouseContext::default() }
    }
}

impl InputContext {
    /// Internal well-formedness of both components.
    pub open spec fn inv(&self) -> bool {
        self.keyboard.inv() && self.mouse.inv()
    }

    /// The one per-frame transition: snapshot every current pressed set
    /// into its previous generation and zero the motion deltas. Must run
    /// exactly once per frame, after user queries and before the next
    /// frame's events; running it twice erases that frame's edges.
    pub fn advance_frame(&mut self)
        requires
            old(self).inv(),
        ensures
            final(self).inv(),
            final(self).keyboard@.pressed == old(self).keyboard@.pressed,
            final(self).keyboard@.previous_pressed == old(self).keyboard@.pressed,
            final(self).keyboard@.pressed_modifiers == old(self).keyboard@.pressed_modifiers,
            final(self).keyboard@.previous_pressed_modifiers == old(
                self,
            ).keyboard@.pressed_modifiers,
            final(self).mouse@ == (MouseView {
                previous_pressed: old(self).mouse@.pressed,
                mouse_delta: (0int, 0int),
                scroll_delta: (0int, 0int),
                ..old(self).mouse@
            }),
    {
        self.keyboard.save_keys();
        self.keyboard.save_modifiers();
        self.mouse.save_buttons();
        self.mouse.reset_deltas();
    }
}

/// Law: at a frame boundary the two generations agree, so nothing reads
/// as just pressed or just released. Edge queries therefore reflect only
/// the transition between the two most recent boundaries — and running
/// `advance_frame` twice in one frame erases that frame's edges, an
/// observable defect in a driver.
pub proof fn lemma_no_edges_at_boundary(kv: KeyboardView, mv: MouseView)
    requires
        kv.previous_pressed == kv.pressed,
        kv.previous_pressed_modifiers == kv.pressed_modifiers,
        mv.previous_pressed == mv.pressed,
    ensures
        forall|k: KeyCode|
            !(kv.pressed.contains(k) && !kv.previous_pressed.contains(k)) && !(
            !kv.pressed.contains(k) && kv.previous_pressed.contains(k)),
        forall|m: KeyModifier|
            !(kv.pressed_modifiers.contains(m) && !kv.previous_pressed_modifiers.contains(m)) && !(
            !kv.pressed_modifiers.contains(m) && kv.previous_pressed_modifiers.contains(m)),
        forall|b: MouseButton|
            !(mv.pressed.contains(b) && !mv.previous_pressed.contains(b)) && !(
            !mv.pressed.contains(b) && mv.previous_pressed.contains(b)),
{
}

} // verus!
