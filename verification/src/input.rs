//! Per-frame input state.
//!
//! The event loop feeds every window event into the accumulator as it arrives,
//! and clears what is only true for one frame once that frame's update has
//! run. Positions and deltas are bit patterns of single-precision numbers.

use crate::text::{chars, control, is_control, lower, text, to_lower};
use std::collections::HashSet;
use vstd::prelude::*;

verus! {

broadcast use vstd::std_specs::hash::group_hash_axioms;

/// Modifier keys held when a [`Keystroke`] was produced.
///
/// Captured per keystroke rather than read back later: by the time a text
/// field consumes the queue, the shift key that made a selection may be up.
#[derive(Clone, Copy, PartialEq, Eq, Structural, Debug)]
pub struct Mods(pub u8);

impl Mods {
    pub fn none() -> (r: Mods)
        ensures
            r == Mods(0),
    {
        Mods(0)
    }

    pub fn shift() -> (r: Mods)
        ensures
            r == Mods(1),
    {
        Mods(1)
    }

    pub fn ctrl() -> (r: Mods)
        ensures
            r == Mods(2),
    {
        Mods(2)
    }

    pub fn alt() -> (r: Mods)
        ensures
            r == Mods(4),
    {
        Mods(4)
    }

    /// Some modifier is in both.
    pub open spec fn meets(self, m: Mods) -> bool {
        self.0 & m.0 != 0
    }

    /// Whether *any* modifier in `m` is held.
    pub fn has(self, m: Mods) -> (r: bool)
        ensures
            r == self.meets(m),
    {
        self.0 & m.0 != 0
    }
}

impl vstd::std_specs::ops::BitOrSpecImpl<Mods> for Mods {
    open spec fn obeys_bitor_spec() -> bool {
        true
    }

    open spec fn bitor_req(self, rhs: Mods) -> bool {
        true
    }

    open spec fn bitor_spec(self, rhs: Mods) -> Mods {
        Mods(self.0 | rhs.0)
    }
}

impl std::ops::BitOr<Mods> for Mods {
    type Output = Mods;

    fn bitor(self, rhs: Mods) -> (r: Mods) {
        Mods(self.0 | rhs.0)
    }
}

/// A key that *edits* rather than types; logical, not physical.
#[derive(Clone, Copy, PartialEq, Eq, Debug)]
pub enum Key {
    Backspace,
    Delete,
    Left,
    Right,
    Up,
    Down,
    Home,
    End,
    Enter,
    Tab,
    Escape,
    /// A character key pressed with control held, in lower case. An unmodified
    /// character is [`Keystroke::Text`] instead.
    Char(char),
}

/// One keyboard event, in the order it arrived: what to insert is the
/// platform's answer, what to do is a named key plus its modifiers.
#[derive(Clone, PartialEq, Debug)]
pub enum Keystroke {
    /// Printable text from a key press, without control characters.
    Text(String),
    Key(Key, Mods),
}

/// A keystroke, with its text as a sequence.
pub ghost enum KeystrokeModel {
    Text(Seq<char>),
    Key(Key, Mods),
}

impl View for Keystroke {
    type V = KeystrokeModel;

    open spec fn view(&self) -> KeystrokeModel {
        match *self {
            Keystroke::Text(s) => KeystrokeModel::Text(s@),
            Keystroke::Key(k, m) => KeystrokeModel::Key(k, m),
        }
    }
}

/// The models of a list of keystrokes.
pub open spec fn models(ks: Seq<Keystroke>) -> Seq<KeystrokeModel> {
    Seq::new(ks.len(), |i: int| ks[i]@)
}

/// A physical key. The ones that a shortcut is ever bound to have names; every
/// other one is known by its number.
#[derive(Clone, Copy, PartialEq, Eq, Structural, Debug)]
pub enum KeyCode {
    /// `0` is A.
    Letter(u8),
    Digit(u8),
    Function(u8),
    Enter,
    Tab,
    Escape,
    Space,
    Delete,
    Other(u16),
}

impl KeyCode {
    /// A number of its own for every key.
    pub open spec fn number_of(self) -> u32 {
        match self {
            KeyCode::Enter => 1,
            KeyCode::Tab => 2,
            KeyCode::Escape => 3,
            KeyCode::Space => 4,
            KeyCode::Delete => 5,
            KeyCode::Letter(n) => (0x100 + n) as u32,
            KeyCode::Digit(n) => (0x200 + n) as u32,
            KeyCode::Function(n) => (0x300 + n) as u32,
            KeyCode::Other(n) => (0x10000 + n) as u32,
        }
    }

    pub fn number(self) -> (r: u32)
        ensures
            r == self.number_of(),
    {
        match self {
            KeyCode::Enter => 1,
            KeyCode::Tab => 2,
            KeyCode::Escape => 3,
            KeyCode::Space => 4,
            KeyCode::Delete => 5,
            KeyCode::Letter(n) => 0x100 + n as u32,
            KeyCode::Digit(n) => 0x200 + n as u32,
            KeyCode::Function(n) => 0x300 + n as u32,
            KeyCode::Other(n) => 0x10000 + n as u32,
        }
    }
}

/// A mouse button.
#[derive(Clone, Copy, PartialEq, Eq, Structural, Debug)]
pub enum MouseButton {
    Left,
    Right,
    Middle,
    Back,
    Forward,
    Other(u16),
}

impl MouseButton {
    /// A number of its own for every button.
    pub open spec fn number_of(self) -> u32 {
        match self {
            MouseButton::Left => 1,
            MouseButton::Right => 2,
            MouseButton::Middle => 3,
            MouseButton::Back => 4,
            MouseButton::Forward => 5,
            MouseButton::Other(n) => (0x10000 + n) as u32,
        }
    }

    pub fn number(self) -> (r: u32)
        ensures
            r == self.number_of(),
    {
        match self {
            MouseButton::Left => 1,
            MouseButton::Right => 2,
            MouseButton::Middle => 3,
            MouseButton::Back => 4,
            MouseButton::Forward => 5,
            MouseButton::Other(n) => 0x10000 + n as u32,
        }
    }
}

/// A named key as the layout reports it.
#[derive(Clone, Copy, PartialEq, Eq, Structural, Debug)]
pub enum NamedKey {
    Backspace,
    Delete,
    ArrowLeft,
    ArrowRight,
    ArrowUp,
    ArrowDown,
    Home,
    End,
    Enter,
    Tab,
    Escape,
    Other,
}

/// What the layout makes of a key.
pub enum LogicalKey {
    Named(NamedKey),
    Character(String),
    Other,
}

/// A key press or release.
pub struct KeyEvent {
    pub pressed: bool,
    /// Whether the platform resent a press of a held key.
    pub repeat: bool,
    pub physical: Option<KeyCode>,
    pub logical: LogicalKey,
    pub text: Option<String>,
}

/// A window event, as far as input goes by it.
pub enum WindowEvent {
    /// The modifiers that are held, as the windowing library's bit set.
    ModifiersChanged(u32),
    KeyboardInput(KeyEvent),
    MouseInput { pressed: bool, button: MouseButton },
    /// The new position, and the movement of this frame with it included.
    CursorMoved { position: [u32; 2], delta: [u32; 2] },
    /// The scrolling of this frame, in lines, with this event included.
    MouseWheel { scroll: u32 },
    Focused(bool),
    Other,
}

/// Calls `winit::keyboard::ModifiersState::shift_key` on the set with these
/// bits: whether bit 2 is in it.
#[verifier::external_body]
fn shift_key(state: u32) -> (r: bool)
    ensures
        r == (state & 0x004 != 0),
{
    winit::keyboard::ModifiersState::from_bits_truncate(state).shift_key()
}

/// Calls `winit::keyboard::ModifiersState::control_key` on the set with these
/// bits: whether bit 5 is in it.
#[verifier::external_body]
fn control_key(state: u32) -> (r: bool)
    ensures
        r == (state & 0x020 != 0),
{
    winit::keyboard::ModifiersState::from_bits_truncate(state).control_key()
}

/// Calls `winit::keyboard::ModifiersState::alt_key` on the set with these
/// bits: whether bit 8 is in it.
#[verifier::external_body]
fn alt_key(state: u32) -> (r: bool)
    ensures
        r == (state & 0x100 != 0),
{
    winit::keyboard::ModifiersState::from_bits_truncate(state).alt_key()
}

/// The modifiers among the keys that a bit set of the windowing library says
/// are held.
pub open spec fn mods_of(state: u32) -> Mods {
    let shift: int = if state & 0x004 != 0 {
        1
    } else {
        0
    };
    let ctrl: int = if state & 0x020 != 0 {
        2
    } else {
        0
    };
    let alt: int = if state & 0x100 != 0 {
        4
    } else {
        0
    };
    Mods((shift + ctrl + alt) as u8)
}

/// [`mods_of`].
pub fn mods_from_state(state: u32) -> (r: Mods)
    ensures
        r == mods_of(state),
        r.0 < 8,
        (r.0 & 1 != 0) == (state & 0x004 != 0),
        (r.0 & 2 != 0) == (state & 0x020 != 0),
        (r.0 & 4 != 0) == (state & 0x100 != 0),
{
    let shift: u8 = if shift_key(state) { 1 } else { 0 };
    let ctrl: u8 = if control_key(state) { 2 } else { 0 };
    let alt: u8 = if alt_key(state) { 4 } else { 0 };
    proof {
        modifiers_are_told_apart(state);
    }
    Mods(shift + ctrl + alt)
}

/// The editing key that a named key is, if it is one.
pub open spec fn editing_key(n: NamedKey) -> Option<Key> {
    match n {
        NamedKey::Backspace => Some(Key::Backspace),
        NamedKey::Delete => Some(Key::Delete),
        NamedKey::ArrowLeft => Some(Key::Left),
        NamedKey::ArrowRight => Some(Key::Right),
        NamedKey::ArrowUp => Some(Key::Up),
        NamedKey::ArrowDown => Some(Key::Down),
        NamedKey::Home => Some(Key::Home),
        NamedKey::End => Some(Key::End),
        NamedKey::Enter => Some(Key::Enter),
        NamedKey::Tab => Some(Key::Tab),
        NamedKey::Escape => Some(Key::Escape),
        NamedKey::Other => None,
    }
}

fn to_editing_key(n: NamedKey) -> (r: Option<Key>)
    ensures
        r == editing_key(n),
        n == NamedKey::Backspace ==> r == Some(Key::Backspace),
        n == NamedKey::Delete ==> r == Some(Key::Delete),
        n == NamedKey::ArrowLeft ==> r == Some(Key::Left),
        n == NamedKey::ArrowRight ==> r == Some(Key::Right),
        n == NamedKey::ArrowUp ==> r == Some(Key::Up),
        n == NamedKey::ArrowDown ==> r == Some(Key::Down),
        n == NamedKey::Home ==> r == Some(Key::Home),
        n == NamedKey::End ==> r == Some(Key::End),
        n == NamedKey::Enter ==> r == Some(Key::Enter),
        n == NamedKey::Tab ==> r == Some(Key::Tab),
        n == NamedKey::Escape ==> r == Some(Key::Escape),
        n == NamedKey::Other ==> r is None,
{
    match n {
        NamedKey::Backspace => Some(Key::Backspace),
        NamedKey::Delete => Some(Key::Delete),
        NamedKey::ArrowLeft => Some(Key::Left),
        NamedKey::ArrowRight => Some(Key::Right),
        NamedKey::ArrowUp => Some(Key::Up),
        NamedKey::ArrowDown => Some(Key::Down),
        NamedKey::Home => Some(Key::Home),
        NamedKey::End => Some(Key::End),
        NamedKey::Enter => Some(Key::Enter),
        NamedKey::Tab => Some(Key::Tab),
        NamedKey::Escape => Some(Key::Escape),
        NamedKey::Other => None,
    }
}

/// `s` without control characters.
pub open spec fn printable(s: Seq<char>) -> Seq<char>
    decreases s.len(),
{
    if s.len() == 0 {
        s
    } else if is_control(s.last()) {
        printable(s.drop_last())
    } else {
        printable(s.drop_last()).push(s.last())
    }
}

fn to_printable(v: &Vec<char>) -> (r: Vec<char>)
    ensures
        r@ == printable(v@),
{
    let mut r: Vec<char> = Vec::new();
    let mut i: usize = 0;
    assert(v@.take(0) =~= Seq::empty());
    while i < v.len()
        invariant
            i <= v.len(),
            r@ == printable(v@.take(i as int)),
        decreases v.len() - i,
    {
        let c: char = v[i];
        assert(v@.take(i + 1).drop_last() =~= v@.take(i as int));
        if !control(c) {
            r.push(c);
        }
        i = i + 1;
    }
    assert(v@.take(i as int) =~= v@);
    r
}

/// The command that a press is, if it is one: an editing key, or with control
/// held a character key.
pub open spec fn command_of(event: KeyEvent, mods: Mods) -> Option<Key> {
    match event.logical {
        LogicalKey::Named(n) => editing_key(n),
        LogicalKey::Character(s) => if mods.meets(Mods(2)) && s@.len() > 0 {
            Some(Key::Char(lower(s@[0])))
        } else {
            None
        },
        LogicalKey::Other => None,
    }
}

/// What a press adds to the queue: a command; or, without control, the text it
/// types if there is any. Alt is not in that test: on many layouts it produces
/// real characters.
pub open spec fn keystroke_of(event: KeyEvent, mods: Mods) -> Option<KeystrokeModel> {
    match command_of(event, mods) {
        Some(k) => Some(KeystrokeModel::Key(k, mods)),
        None => if mods.meets(Mods(2)) {
            None
        } else {
            let typed = match event.text {
                Some(s) => printable(s@),
                None => Seq::empty(),
            };
            if typed.len() > 0 {
                Some(KeystrokeModel::Text(typed))
            } else {
                None
            }
        },
    }
}

fn to_command(event: &KeyEvent, mods: Mods) -> (r: Option<Key>)
    ensures
        r == command_of(*event, mods),
{
    match &event.logical {
        LogicalKey::Named(n) => to_editing_key(*n),
        LogicalKey::Character(s) => {
            let cs: Vec<char> = chars(s.as_str());
            if mods.has(Mods(2)) && cs.len() > 0 {
                Some(Key::Char(to_lower(cs[0])))
            } else {
                None
            }
        },
        LogicalKey::Other => None,
    }
}

fn to_keystroke(event: &KeyEvent, mods: Mods) -> (r: Option<Keystroke>)
    ensures
        match (r, keystroke_of(*event, mods)) {
            (Some(a), Some(b)) => a@ == b,
            (None, None) => true,
            _ => false,
        },
{
    match to_command(event, mods) {
        Some(k) => {
            return Some(Keystroke::Key(k, mods));
        },
        None => {},
    }
    if mods.has(Mods(2)) {
        return None;
    }
    match &event.text {
        Some(s) => {
            let typed: Vec<char> = to_printable(&chars(s.as_str()));
            if typed.len() > 0 {
                Some(Keystroke::Text(text(&typed)))
            } else {
                None
            }
        },
        None => None,
    }
}

/// What the accumulator holds.
pub ghost struct InputModel {
    pub keys_down: Set<u32>,
    pub keys_pressed: Set<u32>,
    pub keys_released: Set<u32>,
    pub buttons_down: Set<u32>,
    pub buttons_pressed: Set<u32>,
    pub buttons_released: Set<u32>,
    pub cursor_position: [u32; 2],
    pub cursor_delta: [u32; 2],
    pub scroll_delta: u32,
    pub keystrokes: Seq<KeystrokeModel>,
    pub mods: Mods,
}

impl InputModel {
    /// After key `code` went down or up. A press of a key that is down already
    /// is no transition.
    pub open spec fn key_changed(self, code: u32, pressed: bool) -> InputModel {
        if pressed {
            InputModel {
                keys_down: self.keys_down.insert(code),
                keys_pressed: if self.keys_down.contains(code) {
                    self.keys_pressed
                } else {
                    self.keys_pressed.insert(code)
                },
                ..self
            }
        } else {
            InputModel {
                keys_down: self.keys_down.remove(code),
                keys_released: self.keys_released.insert(code),
                ..self
            }
        }
    }

    /// After button `b` went down or up.
    pub open spec fn button_changed(self, b: u32, pressed: bool) -> InputModel {
        if pressed {
            InputModel {
                buttons_down: self.buttons_down.insert(b),
                buttons_pressed: if self.buttons_down.contains(b) {
                    self.buttons_pressed
                } else {
                    self.buttons_pressed.insert(b)
                },
                ..self
            }
        } else {
            InputModel {
                buttons_down: self.buttons_down.remove(b),
                buttons_released: self.buttons_released.insert(b),
                ..self
            }
        }
    }

    /// After a keystroke, if there is one.
    pub open spec fn typed(self, k: Option<KeystrokeModel>) -> InputModel {
        match k {
            Some(k) => InputModel { keystrokes: self.keystrokes.push(k), ..self },
            None => self,
        }
    }

    /// After a key event. A repeat types again, and is no transition of the
    /// physical key.
    pub open spec fn key_event(self, e: KeyEvent) -> InputModel {
        let typed = if e.pressed {
            self.typed(keystroke_of(e, self.mods))
        } else {
            self
        };
        match e.physical {
            Some(code) => if e.repeat {
                typed
            } else {
                typed.key_changed(code.number_of(), e.pressed)
            },
            None => typed,
        }
    }

    /// After a window event.
    pub open spec fn fed(self, event: WindowEvent) -> InputModel {
        match event {
            WindowEvent::ModifiersChanged(state) => InputModel { mods: mods_of(state), ..self },
            WindowEvent::KeyboardInput(e) => self.key_event(e),
            WindowEvent::MouseInput { pressed, button } => self.button_changed(
                button.number_of(),
                pressed,
            ),
            WindowEvent::CursorMoved { position, delta } => InputModel {
                cursor_position: position,
                cursor_delta: delta,
                ..self
            },
            WindowEvent::MouseWheel { scroll } => InputModel { scroll_delta: scroll, ..self },
            WindowEvent::Focused(focused) => if focused {
                self
            } else {
                InputModel {
                    keys_down: Set::empty(),
                    buttons_down: Set::empty(),
                    mods: Mods(0),
                    ..self
                }
            },
            WindowEvent::Other => self,
        }
    }

    /// At the end of a frame: what was only true for this frame is cleared.
    pub open spec fn ended(self) -> InputModel {
        InputModel {
            keys_pressed: Set::empty(),
            keys_released: Set::empty(),
            buttons_pressed: Set::empty(),
            buttons_released: Set::empty(),
            cursor_delta: [0u32, 0u32],
            scroll_delta: 0,
            keystrokes: Seq::empty(),
            ..self
        }
    }
}

/// Accumulated keyboard and mouse state for the current frame.
///
/// The `down` sets hold for every frame a key is held; the `pressed` and
/// `released` sets only for the frame of the transition; the keystrokes are a
/// queue, because typing is a sequence.
pub struct Input {
    keys_down: HashSet<u32>,
    keys_pressed: HashSet<u32>,
    keys_released: HashSet<u32>,
    buttons_down: HashSet<u32>,
    buttons_pressed: HashSet<u32>,
    buttons_released: HashSet<u32>,
    cursor_position: [u32; 2],
    cursor_delta: [u32; 2],
    scroll_delta: u32,
    keystrokes: Vec<Keystroke>,
    mods: Mods,
}

impl View for Input {
    type V = InputModel;

    closed spec fn view(&self) -> InputModel {
        InputModel {
            keys_down: self.keys_down@,
            keys_pressed: self.keys_pressed@,
            keys_released: self.keys_released@,
            buttons_down: self.buttons_down@,
            buttons_pressed: self.buttons_pressed@,
            buttons_released: self.buttons_released@,
            cursor_position: self.cursor_position,
            cursor_delta: self.cursor_delta,
            scroll_delta: self.scroll_delta,
            keystrokes: models(self.keystrokes@),
            mods: self.mods,
        }
    }
}

impl Input {
    pub fn new() -> (r: Self)
        ensures
            r@ == (InputModel {
                keys_down: Set::empty(),
                keys_pressed: Set::empty(),
                keys_released: Set::empty(),
                buttons_down: Set::empty(),
                buttons_pressed: Set::empty(),
                buttons_released: Set::empty(),
                cursor_position: [0u32, 0u32],
                cursor_delta: [0u32, 0u32],
                scroll_delta: 0,
                keystrokes: Seq::empty(),
                mods: Mods(0),
            }),
    {
        let r = Input {
            keys_down: HashSet::new(),
            keys_pressed: HashSet::new(),
            keys_released: HashSet::new(),
            buttons_down: HashSet::new(),
            buttons_pressed: HashSet::new(),
            buttons_released: HashSet::new(),
            cursor_position: [0, 0],
            cursor_delta: [0, 0],
            scroll_delta: 0,
            keystrokes: Vec::new(),
            mods: Mods(0),
        };
        assert(r@.keystrokes =~= Seq::empty());
        r
    }

    pub fn key_down(&self, key: KeyCode) -> (r: bool)
        ensures
            r == self@.keys_down.contains(key.number_of()),
    {
        self.keys_down.contains(&key.number())
    }

    pub fn key_pressed(&self, key: KeyCode) -> (r: bool)
        ensures
            r == self@.keys_pressed.contains(key.number_of()),
    {
        self.keys_pressed.contains(&key.number())
    }

    pub fn key_released(&self, key: KeyCode) -> (r: bool)
        ensures
            r == self@.keys_released.contains(key.number_of()),
    {
        self.keys_released.contains(&key.number())
    }

    pub fn mouse_down(&self, button: MouseButton) -> (r: bool)
        ensures
            r == self@.buttons_down.contains(button.number_of()),
    {
        self.buttons_down.contains(&button.number())
    }

    pub fn mouse_pressed(&self, button: MouseButton) -> (r: bool)
        ensures
            r == self@.buttons_pressed.contains(button.number_of()),
    {
        self.buttons_pressed.contains(&button.number())
    }

    pub fn mouse_released(&self, button: MouseButton) -> (r: bool)
        ensures
            r == self@.buttons_released.contains(button.number_of()),
    {
        self.buttons_released.contains(&button.number())
    }

    /// Cursor position in physical pixels, window-space (origin top-left).
    pub fn cursor_position(&self) -> (r: [u32; 2])
        ensures
            r == self@.cursor_position,
    {
        self.cursor_position
    }

    /// Cursor movement since the last frame, in physical pixels.
    pub fn cursor_delta(&self) -> (r: [u32; 2])
        ensures
            r == self@.cursor_delta,
    {
        self.cursor_delta
    }

    /// Scroll wheel movement since the last frame, in lines.
    pub fn scroll_delta(&self) -> (r: u32)
        ensures
            r == self@.scroll_delta,
    {
        self.scroll_delta
    }

    /// This frame's keyboard events, oldest first.
    pub fn keystrokes(&self) -> (r: &[Keystroke])
        ensures
            models(r@) == self@.keystrokes,
    {
        self.keystrokes.as_slice()
    }

    /// Modifiers held right now.
    pub fn mods(&self) -> (r: Mods)
        ensures
            r == self@.mods,
    {
        self.mods
    }

    /// Feed a window event into the accumulator.
    pub fn feed_window_event(&mut self, event: &WindowEvent)
        ensures
            final(self)@ == old(self)@.fed(*event),
            event is KeyboardInput ==> {
                let e = event->KeyboardInput_0;
                let before = old(self)@.keystrokes;
                let after = final(self)@.keystrokes;
                &&& e.pressed && e.logical == LogicalKey::Named(NamedKey::Backspace) ==> after
                    == before.push(KeystrokeModel::Key(Key::Backspace, old(self)@.mods))
                &&& e.pressed && e.logical == LogicalKey::Named(NamedKey::Delete) ==> after
                    == before.push(KeystrokeModel::Key(Key::Delete, old(self)@.mods))
                &&& e.pressed && e.logical == LogicalKey::Named(NamedKey::ArrowLeft) ==> after
                    == before.push(KeystrokeModel::Key(Key::Left, old(self)@.mods))
                &&& e.pressed && e.logical == LogicalKey::Named(NamedKey::ArrowRight) ==> after
                    == before.push(KeystrokeModel::Key(Key::Right, old(self)@.mods))
                &&& e.pressed && e.logical == LogicalKey::Named(NamedKey::ArrowUp) ==> after
                    == before.push(KeystrokeModel::Key(Key::Up, old(self)@.mods))
                &&& e.pressed && e.logical == LogicalKey::Named(NamedKey::ArrowDown) ==> after
                    == before.push(KeystrokeModel::Key(Key::Down, old(self)@.mods))
                &&& e.pressed && e.logical == LogicalKey::Named(NamedKey::Home) ==> after
                    == before.push(KeystrokeModel::Key(Key::Home, old(self)@.mods))
                &&& e.pressed && e.logical == LogicalKey::Named(NamedKey::End) ==> after
                    == before.push(KeystrokeModel::Key(Key::End, old(self)@.mods))
                &&& e.pressed && e.logical == LogicalKey::Named(NamedKey::Enter) ==> after
                    == before.push(KeystrokeModel::Key(Key::Enter, old(self)@.mods))
                &&& e.pressed && e.logical == LogicalKey::Named(NamedKey::Tab) ==> after
                    == before.push(KeystrokeModel::Key(Key::Tab, old(self)@.mods))
                &&& e.pressed && e.logical == LogicalKey::Named(NamedKey::Escape) ==> after
                    == before.push(KeystrokeModel::Key(Key::Escape, old(self)@.mods))
                &&& !e.pressed ==> after == before
            },
    {
        match event {
            WindowEvent::ModifiersChanged(state) => {
                self.mods = mods_from_state(*state);
            },
            WindowEvent::KeyboardInput(e) => {
                if e.pressed {
                    self.push_keystroke(e);
                }
                if e.repeat {
                    return;
                }
                match e.physical {
                    Some(code) => {
                        self.inject_key(code, e.pressed);
                    },
                    None => {},
                }
            },
            WindowEvent::MouseInput { pressed, button } => {
                self.inject_button(*button, *pressed);
            },
            WindowEvent::CursorMoved { position, delta } => {
                self.inject_cursor(*position, *delta);
            },
            WindowEvent::MouseWheel { scroll } => {
                self.inject_wheel(*scroll);
            },
            WindowEvent::Focused(focused) => {
                if !*focused {
                    // Losing focus can swallow the matching release.
                    self.keys_down.clear();
                    self.buttons_down.clear();
                    self.mods = Mods(0);
                }
            },
            WindowEvent::Other => {},
        }
    }

    /// Translate one press into the editing queue. At most one keystroke
    /// comes out.
    fn push_keystroke(&mut self, event: &KeyEvent)
        ensures
            final(self)@ == old(self)@.typed(keystroke_of(*event, old(self)@.mods)),
    {
        match to_keystroke(event, self.mods) {
            Some(k) => {
                self.inject_keystroke(k);
            },
            None => {},
        }
    }

    /// Queue a keystroke.
    pub fn inject_keystroke(&mut self, k: Keystroke)
        ensures
            final(self)@ == old(self)@.typed(Some(k@)),
    {
        let ghost before = models(self.keystrokes@);
        self.keystrokes.push(k);
        assert(models(self.keystrokes@) =~= before.push(k@));
    }

    /// Press or release a physical key.
    pub fn inject_key(&mut self, code: KeyCode, pressed: bool)
        ensures
            final(self)@ == old(self)@.key_changed(code.number_of(), pressed),
    {
        let n: u32 = code.number();
        if pressed {
            if self.keys_down.insert(n) {
                self.keys_pressed.insert(n);
            }
        } else {
            self.keys_down.remove(&n);
            self.keys_released.insert(n);
        }
    }

    /// Press or release a mouse button.
    pub fn inject_button(&mut self, button: MouseButton, pressed: bool)
        ensures
            final(self)@ == old(self)@.button_changed(button.number_of(), pressed),
    {
        let n: u32 = button.number();
        if pressed {
            if self.buttons_down.insert(n) {
                self.buttons_pressed.insert(n);
            }
        } else {
            self.buttons_down.remove(&n);
            self.buttons_released.insert(n);
        }
    }

    /// Move the cursor. `delta` is this frame's movement, this one included.
    pub fn inject_cursor(&mut self, position: [u32; 2], delta: [u32; 2])
        ensures
            final(self)@ == (InputModel {
                cursor_position: position,
                cursor_delta: delta,
                ..old(self)@
            }),
    {
        self.cursor_delta = delta;
        self.cursor_position = position;
    }

    /// Scroll. `scroll` is this frame's scrolling, this one included.
    pub fn inject_wheel(&mut self, scroll: u32)
        ensures
            final(self)@ == (InputModel { scroll_delta: scroll, ..old(self)@ }),
    {
        self.scroll_delta = scroll;
    }

    /// Clear per-frame transient state, after every reader of this frame has
    /// seen it.
    pub fn end_frame(&mut self)
        ensures
            final(self)@ == old(self)@.ended(),
    {
        self.keys_pressed.clear();
        self.keys_released.clear();
        self.buttons_pressed.clear();
        self.buttons_released.clear();
        self.cursor_delta = [0, 0];
        self.scroll_delta = 0;
        self.keystrokes.clear();
        assert(models(self.keystrokes@) =~= Seq::empty());
    }
}

/// This frame's keyboard events, oldest first.
pub fn keystrokes(input: &Input) -> (r: &[Keystroke])
    ensures
        models(r@) == input@.keystrokes,
{
    input.keystrokes()
}

/// Modifiers held right now.
pub fn mods(input: &Input) -> (r: Mods)
    ensures
        r == input@.mods,
{
    input.mods()
}

/// Two keys never share a number, nor do two buttons.
pub proof fn numbers_are_distinct(a: KeyCode, b: KeyCode, c: MouseButton, d: MouseButton)
    ensures
        a.number_of() == b.number_of() ==> a == b,
        c.number_of() == d.number_of() ==> c == d,
{
}

/// A transition shows for the one frame it happened in: a key that goes down
/// is pressed and down, after the frame it is only down, and a platform repeat
/// of it presses nothing again.
pub proof fn presses_are_edges(m: InputModel, code: u32)
    requires
        !m.keys_down.contains(code),
    ensures
        m.key_changed(code, true).keys_pressed.contains(code),
        m.key_changed(code, true).keys_down.contains(code),
        m.key_changed(code, true).ended().keys_down.contains(code),
        !m.key_changed(code, true).ended().keys_pressed.contains(code),
        m.key_changed(code, true).ended().key_changed(code, true).keys_pressed
            =~= Set::<u32>::empty(),
        m.key_changed(code, true).ended().key_changed(code, false).keys_released.contains(code),
        !m.key_changed(code, true).ended().key_changed(code, false).keys_down.contains(code),
{
}

/// Ending a frame forgets no held key, and ending it twice is ending it once.
pub proof fn held_keys_outlast_the_frame(m: InputModel)
    ensures
        m.ended().keys_down == m.keys_down,
        m.ended().buttons_down == m.buttons_down,
        m.ended().mods == m.mods,
        m.ended().cursor_position == m.cursor_position,
        m.ended().ended() == m.ended(),
{
}

/// Losing focus leaves nothing held, whatever was.
pub proof fn lost_focus_holds_nothing(m: InputModel, code: u32)
    ensures
        !m.fed(WindowEvent::Focused(false)).keys_down.contains(code),
        !m.fed(WindowEvent::Focused(false)).buttons_down.contains(code),
        m.fed(WindowEvent::Focused(false)).mods == Mods(0),
{
}

/// Every held modifier has a bit of its own, and no other bit is ever set.
pub proof fn modifiers_are_told_apart(state: u32)
    ensures
        mods_of(state).0 < 8,
        (mods_of(state).0 & 1 != 0) == (state & 0x004 != 0),
        (mods_of(state).0 & 2 != 0) == (state & 0x020 != 0),
        (mods_of(state).0 & 4 != 0) == (state & 0x100 != 0),
{
    assert(forall|m: u8|
        m < 8 ==> ((m & 1 != 0) == (m == 1 || m == 3 || m == 5 || m == 7)) && ((m & 2 != 0) == (m
            == 2 || m == 3 || m == 6 || m == 7)) && ((m & 4 != 0) == (m >= 4))) by (bit_vector);
}

/// A press of an editing key queues the keystroke of the same name, with the
/// modifiers that are held, behind what is queued.
pub proof fn named_keys_type_themselves(m: InputModel, e: KeyEvent, n: NamedKey)
    requires
        e.pressed,
        e.logical == LogicalKey::Named(n),
    ensures
        ({
            let after = m.fed(WindowEvent::KeyboardInput(e)).keystrokes;
            &&& n == NamedKey::Backspace ==> after == m.keystrokes.push(
                KeystrokeModel::Key(Key::Backspace, m.mods),
            )
            &&& n == NamedKey::Delete ==> after == m.keystrokes.push(
                KeystrokeModel::Key(Key::Delete, m.mods),
            )
            &&& n == NamedKey::ArrowLeft ==> after == m.keystrokes.push(
                KeystrokeModel::Key(Key::Left, m.mods),
            )
            &&& n == NamedKey::ArrowRight ==> after == m.keystrokes.push(
                KeystrokeModel::Key(Key::Right, m.mods),
            )
            &&& n == NamedKey::ArrowUp ==> after == m.keystrokes.push(
                KeystrokeModel::Key(Key::Up, m.mods),
            )
            &&& n == NamedKey::ArrowDown ==> after == m.keystrokes.push(
                KeystrokeModel::Key(Key::Down, m.mods),
            )
            &&& n == NamedKey::Home ==> after == m.keystrokes.push(
                KeystrokeModel::Key(Key::Home, m.mods),
            )
            &&& n == NamedKey::End ==> after == m.keystrokes.push(
                KeystrokeModel::Key(Key::End, m.mods),
            )
            &&& n == NamedKey::Enter ==> after == m.keystrokes.push(
                KeystrokeModel::Key(Key::Enter, m.mods),
            )
            &&& n == NamedKey::Tab ==> after == m.keystrokes.push(
                KeystrokeModel::Key(Key::Tab, m.mods),
            )
            &&& n == NamedKey::Escape ==> after == m.keystrokes.push(
                KeystrokeModel::Key(Key::Escape, m.mods),
            )
            &&& n == NamedKey::Other && e.text is None ==> after == m.keystrokes
        }),
{
}

/// A press of a character key is a command with control held and text without:
/// the command is its first character in lower case, the text is all that the
/// key types but control characters. Control never types.
pub proof fn characters_type_or_command(m: InputModel, e: KeyEvent, s: String)
    requires
        e.pressed,
        e.logical == LogicalKey::Character(s),
    ensures
        ({
            let after = m.fed(WindowEvent::KeyboardInput(e)).keystrokes;
            let ctrl = m.mods.0 & 2 != 0;
            &&& ctrl && s@.len() > 0 ==> after == m.keystrokes.push(
                KeystrokeModel::Key(Key::Char(lower(s@[0])), m.mods),
            )
            &&& ctrl && s@.len() == 0 ==> after == m.keystrokes
            &&& !ctrl && e.text is Some && printable((e.text->0)@).len() > 0 ==> after
                == m.keystrokes.push(KeystrokeModel::Text(printable((e.text->0)@)))
            &&& !ctrl && (e.text is None || printable((e.text->0)@).len() == 0) ==> after
                == m.keystrokes
        }),
{
}

/// A key that is neither types what it types, unless control is held.
pub proof fn other_keys_type_their_text(m: InputModel, e: KeyEvent)
    requires
        e.pressed,
        e.logical is Other || e.logical == LogicalKey::Named(NamedKey::Other),
    ensures
        ({
            let after = m.fed(WindowEvent::KeyboardInput(e)).keystrokes;
            let ctrl = m.mods.0 & 2 != 0;
            &&& ctrl ==> after == m.keystrokes
            &&& !ctrl && e.text is Some && printable((e.text->0)@).len() > 0 ==> after
                == m.keystrokes.push(KeystrokeModel::Text(printable((e.text->0)@)))
            &&& !ctrl && (e.text is None || printable((e.text->0)@).len() == 0) ==> after
                == m.keystrokes
        }),
{
}

/// Typing keeps every character in its place but the control characters, which
/// it drops.
pub proof fn typing_drops_control_characters(a: Seq<char>, b: Seq<char>, c: char)
    ensures
        printable(a + b) == printable(a) + printable(b),
        c as u32 <= 0x1f || 0x7f <= c as u32 <= 0x9f ==> printable(seq![c]).len() == 0,
        0x20 <= c as u32 <= 0x7e || c as u32 >= 0xa0 ==> printable(seq![c]) == seq![c],
        printable(Seq::<char>::empty()).len() == 0,
    decreases b.len(),
{
    let none = Seq::<char>::empty();
    assert(seq![c].drop_last() =~= none);
    assert(none.push(c) =~= seq![c]);
    assert(printable(none) =~= none);
    assert(seq![c].last() == c);
    if b.len() == 0 {
        assert(a + b =~= a);
        assert(printable(a) + b =~= printable(a));
    } else {
        typing_drops_control_characters(a, b.drop_last(), c);
        assert((a + b).drop_last() =~= a + b.drop_last());
        assert((a + b).last() == b.last());
        assert(printable(a + b) =~= printable(a) + printable(b));
    }
}

/// A key event moves the physical key that it is of, and no other: a press
/// that is no repeat holds it, and shows as a transition if it was up; a
/// release lets go of it, and always shows. Releases type nothing, repeats
/// move nothing, and neither touches the mouse.
pub proof fn key_events_move_one_key(m: InputModel, e: KeyEvent, code: KeyCode, other: u32)
    requires
        e.physical == Some(code),
        other != code.number_of(),
    ensures
        ({
            let k = code.number_of();
            let after = m.fed(WindowEvent::KeyboardInput(e));
            &&& !e.repeat ==> after.keys_down.contains(k) == e.pressed
            &&& !e.repeat && e.pressed ==> after.keys_pressed.contains(k) == (
            m.keys_pressed.contains(k) || !m.keys_down.contains(k))
            &&& !e.repeat && e.pressed ==> after.keys_released == m.keys_released
            &&& !e.repeat && !e.pressed ==> after.keys_released.contains(k)
            &&& !e.repeat && !e.pressed ==> after.keys_pressed == m.keys_pressed
            &&& after.keys_down.contains(other) == m.keys_down.contains(other)
            &&& after.keys_pressed.contains(other) == m.keys_pressed.contains(other)
            &&& after.keys_released.contains(other) == m.keys_released.contains(other)
            &&& e.repeat ==> after.keys_down == m.keys_down && after.keys_pressed
                == m.keys_pressed && after.keys_released == m.keys_released
            &&& !e.pressed ==> after.keystrokes == m.keystrokes
            &&& after.buttons_down == m.buttons_down
            &&& after.buttons_pressed == m.buttons_pressed
            &&& after.buttons_released == m.buttons_released
            &&& after.cursor_position == m.cursor_position
            &&& after.cursor_delta == m.cursor_delta
            &&& after.scroll_delta == m.scroll_delta
            &&& after.mods == m.mods
        }),
{
}

/// A mouse button goes the same way, and leaves the keyboard alone.
pub proof fn button_events_move_one_button(
    m: InputModel,
    button: MouseButton,
    pressed: bool,
    other: u32,
)
    requires
        other != button.number_of(),
    ensures
        ({
            let k = button.number_of();
            let after = m.fed(WindowEvent::MouseInput { pressed, button });
            &&& after.buttons_down.contains(k) == pressed
            &&& pressed ==> after.buttons_pressed.contains(k) == (m.buttons_pressed.contains(k)
                || !m.buttons_down.contains(k))
            &&& pressed ==> after.buttons_released == m.buttons_released
            &&& !pressed ==> after.buttons_released.contains(k)
            &&& !pressed ==> after.buttons_pressed == m.buttons_pressed
            &&& after.buttons_down.contains(other) == m.buttons_down.contains(other)
            &&& after.buttons_pressed.contains(other) == m.buttons_pressed.contains(other)
            &&& after.buttons_released.contains(other) == m.buttons_released.contains(other)
            &&& after.keys_down == m.keys_down
            &&& after.keys_pressed == m.keys_pressed
            &&& after.keys_released == m.keys_released
            &&& after.keystrokes == m.keystrokes
            &&& after.cursor_position == m.cursor_position
            &&& after.cursor_delta == m.cursor_delta
            &&& after.scroll_delta == m.scroll_delta
            &&& after.mods == m.mods
        }),
{
}

/// The pointer, the wheel, the modifiers and the focus write what is theirs
/// and nothing else.
pub proof fn other_events_write_their_own(
    m: InputModel,
    position: [u32; 2],
    delta: [u32; 2],
    scroll: u32,
    state: u32,
)
    ensures
        m.fed(WindowEvent::CursorMoved { position, delta }).cursor_position == position,
        m.fed(WindowEvent::CursorMoved { position, delta }).cursor_delta == delta,
        m.fed(WindowEvent::CursorMoved { position, delta }) == (InputModel {
            cursor_position: position,
            cursor_delta: delta,
            ..m
        }),
        m.fed(WindowEvent::MouseWheel { scroll }) == (InputModel { scroll_delta: scroll, ..m }),
        m.fed(WindowEvent::ModifiersChanged(state)) == (InputModel {
            mods: m.fed(WindowEvent::ModifiersChanged(state)).mods,
            ..m
        }),
        (m.fed(WindowEvent::ModifiersChanged(state)).mods.0 & 1 != 0) == (state & 0x004 != 0),
        (m.fed(WindowEvent::ModifiersChanged(state)).mods.0 & 2 != 0) == (state & 0x020 != 0),
        (m.fed(WindowEvent::ModifiersChanged(state)).mods.0 & 4 != 0) == (state & 0x100 != 0),
        m.fed(WindowEvent::Focused(true)) == m,
        m.fed(WindowEvent::Focused(false)).keystrokes == m.keystrokes,
        m.fed(WindowEvent::Focused(false)).keys_released == m.keys_released,
        m.fed(WindowEvent::Focused(false)).keys_pressed == m.keys_pressed,
        m.fed(WindowEvent::Focused(false)).buttons_released == m.buttons_released,
        m.fed(WindowEvent::Focused(false)).buttons_pressed == m.buttons_pressed,
        m.fed(WindowEvent::Focused(false)).cursor_position == m.cursor_position,
        m.fed(WindowEvent::Focused(false)).cursor_delta == m.cursor_delta,
        m.fed(WindowEvent::Focused(false)).scroll_delta == m.scroll_delta,
        m.fed(WindowEvent::Other) == m,
{
    modifiers_are_told_apart(state);
}

/// Once a frame has ended nothing of it is left to read twice: no transition,
/// no movement, no keystroke.
pub proof fn ended_frames_are_forgotten(m: InputModel, k: u32)
    ensures
        !m.ended().keys_pressed.contains(k),
        !m.ended().keys_released.contains(k),
        !m.ended().buttons_pressed.contains(k),
        !m.ended().buttons_released.contains(k),
        m.ended().keystrokes.len() == 0,
        m.ended().cursor_delta[0] == 0 && m.ended().cursor_delta[1] == 0,
        m.ended().scroll_delta == 0,
{
}

} // verus!
