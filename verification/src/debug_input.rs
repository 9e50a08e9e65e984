//! The debug channel: commands that drive the running app, and the frame steps
//! that injected input becomes.
//!
//! Input is queued as steps, one a frame: a click is a move, a press and a
//! release over three frames, because a press only shows for the frame it
//! happened in. Movement is swept and not teleported. Positions are bit
//! patterns of single-precision window coordinates.

use crate::input::{
    Input, InputModel, Key, KeyCode, Keystroke, KeystrokeModel, Mods, MouseButton, WindowEvent,
};
use crate::text::{
    chars, contains, debug_quoted, decimal, find, holds, joined, lemma_find, lowered, occurs_at,
    parse, parsed,
    quote, reads, show, slice, split_at_first, split_once, starts_with, text, to_lowered, trim,
    trimmed,
};
use vstd::prelude::*;
use vstd::string::*;

verus! {

/// Ceiling on a sweep, so crossing the screen cannot queue hundreds of frames.
pub const MAX_STEPS: usize = 48;

/// The most frames that one recording takes.
pub const MAX_RECORDED: usize = 600;

/// Whether a character is alphabetic, as Unicode has it.
pub uninterp spec fn alphabetic(c: char) -> bool;

/// Calls `char::is_alphabetic`. The result is a function of the character
/// alone; which characters are alphabetic is left unsaid.
#[verifier::external_body]
fn is_alphabetic(c: char) -> (r: bool)
    ensures
        r == alphabetic(c),
{
    c.is_alphabetic()
}

/// One frame's worth of injected input.
pub enum Step {
    Move([u32; 2]),
    Button([u32; 2], bool),
    /// The secondary button.
    Right([u32; 2], bool),
    Wheel(u32),
    Keys(Vec<Keystroke>),
    Key(KeyCode, bool),
}

/// How many positions a sweep takes, when the distance asks for `raw`.
pub fn sweep_len(raw: usize) -> (r: usize)
    ensures
        r == if raw < 1 {
            1
        } else if raw > MAX_STEPS {
            MAX_STEPS
        } else {
            raw
        },
        1 <= r <= 48,
        1 <= raw <= 48 ==> r == raw,
{
    if raw < 1 {
        1
    } else if raw > MAX_STEPS {
        MAX_STEPS
    } else {
        raw
    }
}

/// The moves along a sweep.
pub open spec fn moves(path: Seq<[u32; 2]>) -> Seq<Step> {
    Seq::new(path.len(), |i: int| Step::Move(path[i]))
}

fn push_moves(steps: &mut Vec<Step>, path: &Vec<[u32; 2]>)
    ensures
        final(steps)@ == old(steps)@ + moves(path@),
{
    let ghost before = steps@;
    let mut i: usize = 0;
    assert(steps@ =~= before + moves(path@).take(0));
    while i < path.len()
        invariant
            i <= path.len(),
            steps@ == before + moves(path@).take(i as int),
        decreases path.len() - i,
    {
        steps.push(Step::Move(path[i]));
        i = i + 1;
        assert(steps@ =~= before + moves(path@).take(i as int));
    }
    assert(moves(path@).take(i as int) =~= moves(path@));
}

/// The steps of a move.
pub fn move_steps(path: &Vec<[u32; 2]>) -> (r: Vec<Step>)
    ensures
        r@ == moves(path@),
        r.len() == path.len(),
        forall|i: int| 0 <= i < path.len() ==> #[trigger] r[i] == Step::Move(path[i]),
{
    let mut steps: Vec<Step> = Vec::new();
    push_moves(&mut steps, path);
    assert(steps@ =~= moves(path@));
    steps
}

/// A press and a release at `p`.
pub open spec fn press(p: [u32; 2], right: bool) -> Seq<Step> {
    if right {
        seq![Step::Right(p, true), Step::Right(p, false)]
    } else {
        seq![Step::Button(p, true), Step::Button(p, false)]
    }
}

fn push_press(steps: &mut Vec<Step>, p: [u32; 2], right: bool)
    ensures
        final(steps)@ == old(steps)@ + press(p, right),
{
    let ghost before = steps@;
    if right {
        steps.push(Step::Right(p, true));
        steps.push(Step::Right(p, false));
    } else {
        steps.push(Step::Button(p, true));
        steps.push(Step::Button(p, false));
    }
    assert(steps@ =~= before + press(p, right));
}

/// The steps of a click at `p`: the pointer enters the way a hand would, then
/// presses and releases once, or twice for a double click.
pub fn click_steps(path: &Vec<[u32; 2]>, p: [u32; 2], right: bool, double: bool) -> (r: Vec<Step>)
    ensures
        r@ == if double {
            moves(path@) + press(p, right) + press(p, right)
        } else {
            moves(path@) + press(p, right)
        },
{
    let mut steps: Vec<Step> = move_steps(path);
    push_press(&mut steps, p, right);
    if double {
        push_press(&mut steps, p, right);
    }
    steps
}

/// The steps of a drag: to the one place, press, sweep to the other so that
/// everything between is crossed, one still frame, release.
pub fn drag_steps(
    path: &Vec<[u32; 2]>,
    from: [u32; 2],
    drag: &Vec<[u32; 2]>,
    to: [u32; 2],
) -> (r: Vec<Step>)
    ensures
        r@ == moves(path@).push(Step::Button(from, true)) + moves(drag@) + seq![
            Step::Move(to),
            Step::Button(to, false),
        ],
{
    let mut steps: Vec<Step> = move_steps(path);
    steps.push(Step::Button(from, true));
    push_moves(&mut steps, drag);
    steps.push(Step::Move(to));
    steps.push(Step::Button(to, false));
    assert(steps@ =~= moves(path@).push(Step::Button(from, true)) + moves(drag@) + seq![
        Step::Move(to),
        Step::Button(to, false),
    ]);
    steps
}

/// The steps of a key: the keystroke that a text field reads, and the press
/// and release that a shortcut reads, on the next two frames.
pub fn key_steps(k: Keystroke, code: Option<KeyCode>) -> (r: Vec<Step>)
    ensures
        r.len() == if code is Some {
            3int
        } else {
            1
        },
        r[0] is Keys,
        r[0]->Keys_0@ == seq![k],
        code is Some ==> r[1] == Step::Key(code->0, true) && r[2] == Step::Key(code->0, false),
{
    let mut steps: Vec<Step> = Vec::new();
    let mut ks: Vec<Keystroke> = Vec::new();
    ks.push(k);
    assert(ks@ =~= seq![k]);
    steps.push(Step::Keys(ks));
    match code {
        Some(c) => {
            steps.push(Step::Key(c, true));
            steps.push(Step::Key(c, false));
        },
        None => {},
    }
    steps
}

/// The step of typing a text: one keystroke, however long it is.
pub fn type_steps(typed: String) -> (r: Vec<Step>)
    ensures
        r.len() == 1,
        r[0] is Keys,
        r[0]->Keys_0@.len() == 1,
        r[0]->Keys_0@[0]@ == KeystrokeModel::Text(typed@),
{
    let mut steps: Vec<Step> = Vec::new();
    let mut ks: Vec<Keystroke> = Vec::new();
    ks.push(Keystroke::Text(typed));
    steps.push(Step::Keys(ks));
    steps
}

/// The step of turning the wheel by so many lines.
pub fn wheel_steps(lines: u32) -> (r: Vec<Step>)
    ensures
        r@ == seq![Step::Wheel(lines)],
{
    let mut steps: Vec<Step> = Vec::new();
    steps.push(Step::Wheel(lines));
    assert(steps@ =~= seq![Step::Wheel(lines)]);
    steps
}

/// The reply to a command that was queued.
pub fn queued() -> (r: String)
    ensures
        r@ == "ok"@,
{
    "ok".to_owned()
}

/// The queue of steps, and how many frames have run since the channel opened.
pub struct DebugQueue {
    pub enabled: bool,
    pub queue: Vec<Step>,
    pub frames: u64,
}

impl DebugQueue {
    pub fn new() -> (r: Self)
        ensures
            !r.enabled,
            r.queue@.len() == 0,
            r.frames == 0,
    {
        DebugQueue { enabled: false, queue: Vec::new(), frames: 0 }
    }

    /// Queue steps behind those that are there.
    pub fn push(&mut self, steps: Vec<Step>)
        ensures
            final(self).queue@ == old(self).queue@ + steps@,
            final(self).enabled == old(self).enabled,
            final(self).frames == old(self).frames,
    {
        let mut more: Vec<Step> = steps;
        self.queue.append(&mut more);
    }

    /// The step to apply this frame, if the channel is open and there is one.
    pub fn pump(&mut self) -> (r: Option<Step>)
        requires
            old(self).frames < u64::MAX,
        ensures
            !old(self).enabled ==> r is None && *final(self) == *old(self),
            old(self).enabled ==> final(self).frames == old(self).frames + 1
                && final(self).enabled,
            old(self).enabled && old(self).queue.len() == 0 ==> r is None
                && final(self).queue@ == old(self).queue@,
            old(self).enabled && old(self).queue.len() > 0 ==> r == Some(old(self).queue[0])
                && final(self).queue@ == old(self).queue@.skip(1),
    {
        if !self.enabled {
            return None;
        }
        self.frames = self.frames + 1;
        if self.queue.len() == 0 {
            None
        } else {
            let ghost before = self.queue@;
            let s: Step = self.queue.remove(0);
            assert(self.queue@ =~= before.skip(1));
            Some(s)
        }
    }
}

/// The accumulator after keystrokes, in order.
pub open spec fn all_typed(m: InputModel, ks: Seq<Keystroke>) -> InputModel
    decreases ks.len(),
{
    if ks.len() == 0 {
        m
    } else {
        all_typed(m, ks.drop_last()).typed(Some(ks.last()@))
    }
}

/// The accumulator after a step. `delta` is this frame's movement with the
/// step included, and `scroll` its scrolling.
pub open spec fn stepped(m: InputModel, step: Step, delta: [u32; 2], scroll: u32) -> InputModel {
    match step {
        Step::Move(p) => InputModel { cursor_position: p, cursor_delta: delta, ..m },
        Step::Button(p, down) => (InputModel {
            cursor_position: p,
            cursor_delta: delta,
            ..m
        }).button_changed(MouseButton::Left.number_of(), down),
        Step::Right(p, down) => (InputModel {
            cursor_position: p,
            cursor_delta: delta,
            ..m
        }).button_changed(MouseButton::Right.number_of(), down),
        Step::Wheel(_) => InputModel { scroll_delta: scroll, ..m },
        Step::Keys(ks) => all_typed(m, ks@),
        Step::Key(code, down) => m.key_changed(code.number_of(), down),
    }
}

/// Apply a step, through the same fields that window events write, so nothing
/// downstream can tell the difference.
pub fn apply(input: &mut Input, step: &Step, delta: [u32; 2], scroll: u32)
    ensures
        final(input)@ == stepped(old(input)@, *step, delta, scroll),
{
    match step {
        Step::Move(p) => {
            input.inject_cursor(*p, delta);
        },
        Step::Button(p, down) => {
            input.inject_cursor(*p, delta);
            input.inject_button(MouseButton::Left, *down);
        },
        Step::Right(p, down) => {
            input.inject_cursor(*p, delta);
            input.inject_button(MouseButton::Right, *down);
        },
        Step::Wheel(_) => {
            input.inject_wheel(scroll);
        },
        Step::Keys(ks) => {
            let ghost before = input@;
            let mut i: usize = 0;
            assert(ks@.take(0) =~= Seq::empty());
            while i < ks.len()
                invariant
                    i <= ks.len(),
                    input@ == all_typed(before, ks@.take(i as int)),
                decreases ks.len() - i,
            {
                let k: Keystroke = copy_keystroke(&ks[i]);
                assert(ks@.take(i + 1).drop_last() =~= ks@.take(i as int));
                input.inject_keystroke(k);
                i = i + 1;
            }
            assert(ks@.take(i as int) =~= ks@);
        },
        Step::Key(code, down) => {
            input.inject_key(*code, *down);
        },
    }
}

fn copy_keystroke(k: &Keystroke) -> (r: Keystroke)
    ensures
        r@ == k@,
{
    match k {
        Keystroke::Text(s) => Keystroke::Text(s.clone()),
        Keystroke::Key(key, mods) => Keystroke::Key(*key, *mods),
    }
}

/// The physical key that a name stands for, in lower case: letters and digits,
/// and the few named ones that a shortcut is bound to.
pub open spec fn physical_of(s: Seq<char>) -> Option<KeyCode> {
    if s == "enter"@ || s == "return"@ {
        Some(KeyCode::Enter)
    } else if s == "tab"@ {
        Some(KeyCode::Tab)
    } else if s == "escape"@ || s == "esc"@ {
        Some(KeyCode::Escape)
    } else if s == "space"@ {
        Some(KeyCode::Space)
    } else if s == "delete"@ || s == "del"@ {
        Some(KeyCode::Delete)
    } else if s.len() == 1 && 'a' <= s[0] <= 'z' {
        Some(KeyCode::Letter((s[0] as int - 'a' as int) as u8))
    } else if s.len() == 1 && '0' <= s[0] <= '9' {
        Some(KeyCode::Digit((s[0] as int - '0' as int) as u8))
    } else {
        None
    }
}

/// The physical key that a name stands for, if it stands for one.
pub fn physical(name: &str) -> (r: Option<KeyCode>)
    ensures
        r == physical_of(lowered(name@)),
{
    let v: Vec<char> = to_lowered(&chars(name));
    physical_in(&v)
}

fn physical_in(v: &Vec<char>) -> (r: Option<KeyCode>)
    ensures
        r == physical_of(v@),
{
    if reads(v, "enter") || reads(v, "return") {
        return Some(KeyCode::Enter);
    }
    if reads(v, "tab") {
        return Some(KeyCode::Tab);
    }
    if reads(v, "escape") || reads(v, "esc") {
        return Some(KeyCode::Escape);
    }
    if reads(v, "space") {
        return Some(KeyCode::Space);
    }
    if reads(v, "delete") || reads(v, "del") {
        return Some(KeyCode::Delete);
    }
    if v.len() != 1 {
        return None;
    }
    let c: char = v[0];
    if 'a' <= c && c <= 'z' {
        Some(KeyCode::Letter((c as u32 - 'a' as u32) as u8))
    } else if '0' <= c && c <= '9' {
        Some(KeyCode::Digit((c as u32 - '0' as u32) as u8))
    } else {
        None
    }
}

/// The modifier that a name in lower case stands for.
pub open spec fn modifier_of(s: Seq<char>) -> Option<Mods> {
    if s == "ctrl"@ || s == "control"@ {
        Some(Mods(2))
    } else if s == "shift"@ {
        Some(Mods(1))
    } else if s == "alt"@ {
        Some(Mods(4))
    } else {
        None
    }
}

/// The key that a name in lower case stands for.
pub open spec fn key_named(s: Seq<char>) -> Option<Key> {
    if s == "enter"@ || s == "return"@ {
        Some(Key::Enter)
    } else if s == "tab"@ {
        Some(Key::Tab)
    } else if s == "escape"@ || s == "esc"@ {
        Some(Key::Escape)
    } else if s == "backspace"@ {
        Some(Key::Backspace)
    } else if s == "delete"@ || s == "del"@ {
        Some(Key::Delete)
    } else if s == "left"@ {
        Some(Key::Left)
    } else if s == "right"@ {
        Some(Key::Right)
    } else if s == "up"@ {
        Some(Key::Up)
    } else if s == "down"@ {
        Some(Key::Down)
    } else if s == "home"@ {
        Some(Key::Home)
    } else if s == "end"@ {
        Some(Key::End)
    } else if s.len() == 1 {
        Some(Key::Char(s[0]))
    } else {
        None
    }
}

/// The keystroke that pressing a key makes: a character without a modifier is
/// typed text, anything else a key with its modifiers.
pub open spec fn stroke_of(k: Key, mods: Mods) -> KeystrokeModel {
    match k {
        Key::Char(c) => if mods.0 == 0 {
            KeystrokeModel::Text(seq![c])
        } else {
            KeystrokeModel::Key(k, mods)
        },
        _ => KeystrokeModel::Key(k, mods),
    }
}

/// What a key expression means: modifiers joined by plus signs, followed by a
/// key.
pub open spec fn key_of(s: Seq<char>, mods: Mods) -> Result<
    (KeystrokeModel, Option<KeyCode>),
    Seq<char>,
>
    decreases s.len(),
{
    match split_at_first(s, '+') {
        Some(p) => match modifier_of(lowered(p.0)) {
            Some(m) => key_of(p.1, Mods(mods.0 | m.0)),
            None => Err("err unknown modifier "@ + debug_quoted(lowered(p.0))),
        },
        None => match key_named(lowered(s)) {
            Some(k) => Ok((stroke_of(k, mods), physical_of(lowered(s)))),
            None => Err("err unknown key "@ + debug_quoted(lowered(s))),
        },
    }
}

fn modifier_in(v: &Vec<char>) -> (r: Option<Mods>)
    ensures
        r == modifier_of(v@),
{
    if reads(v, "ctrl") || reads(v, "control") {
        Some(Mods::ctrl())
    } else if reads(v, "shift") {
        Some(Mods::shift())
    } else if reads(v, "alt") {
        Some(Mods::alt())
    } else {
        None
    }
}

fn key_in(v: &Vec<char>) -> (r: Option<Key>)
    ensures
        r == key_named(v@),
{
    if reads(v, "enter") || reads(v, "return") {
        return Some(Key::Enter);
    }
    if reads(v, "tab") {
        return Some(Key::Tab);
    }
    if reads(v, "escape") || reads(v, "esc") {
        return Some(Key::Escape);
    }
    if reads(v, "backspace") {
        return Some(Key::Backspace);
    }
    if reads(v, "delete") || reads(v, "del") {
        return Some(Key::Delete);
    }
    if reads(v, "left") {
        return Some(Key::Left);
    }
    if reads(v, "right") {
        return Some(Key::Right);
    }
    if reads(v, "up") {
        return Some(Key::Up);
    }
    if reads(v, "down") {
        return Some(Key::Down);
    }
    if reads(v, "home") {
        return Some(Key::Home);
    }
    if reads(v, "end") {
        return Some(Key::End);
    }
    if v.len() == 1 {
        Some(Key::Char(v[0]))
    } else {
        None
    }
}

fn stroke(k: Key, mods: Mods) -> (r: Keystroke)
    ensures
        r@ == stroke_of(k, mods),
{
    if let Key::Char(c) = k {
        if mods.0 == 0 {
            let typed: Vec<char> = vec![c];
            assert(typed@ =~= seq![c]);
            return Keystroke::Text(text(&typed));
        }
    }
    Keystroke::Key(k, mods)
}

/// `Enter`, `Escape`, `Left`, `ctrl+a`, `shift+End`, in any case. A lone
/// character is typed as text. The physical key comes back beside the
/// keystroke where there is one.
pub fn key(s: &str) -> (r: Result<(Keystroke, Option<KeyCode>), String>)
    ensures
        match (r, key_of(s@, Mods(0))) {
            (Ok(a), Ok(b)) => a.0@ == b.0 && a.1 == b.1,
            (Err(a), Err(b)) => a@ == b,
            _ => false,
        },
{
    let mut mods: Mods = Mods::none();
    let mut name: Vec<char> = chars(s);
    loop
        invariant
            key_of(s@, Mods(0)) == key_of(name@, mods),
        decreases name.len(),
    {
        match split_once(&name, '+') {
            Some(p) => {
                let low: Vec<char> = to_lowered(&p.0);
                match modifier_in(&low) {
                    Some(m) => {
                        mods = mods | m;
                    },
                    None => {
                        return Err(
                            joined(
                                "err unknown modifier ".to_owned(),
                                quote(text(&low).as_str()).as_str(),
                            ),
                        );
                    },
                }
                name = p.1;
            },
            None => {
                let low: Vec<char> = to_lowered(&name);
                return match key_in(&low) {
                    Some(k) => Ok((stroke(k, mods), physical_in(&low))),
                    None => Err(
                        joined(
                            "err unknown key ".to_owned(),
                            quote(text(&low).as_str()).as_str(),
                        ),
                    ),
                };
            },
        }
    }
}

/// Whether text names a point rather than something visible: it has a comma
/// and no letter.
pub open spec fn is_point(s: Seq<char>) -> bool {
    s.contains(',') && forall|i: int| 0 <= i < s.len() ==> !alphabetic(#[trigger] s[i])
}

/// Tells a point, such as `120,40`, from the name of something visible.
pub fn names_point(s: &str) -> (r: bool)
    ensures
        r == is_point(s@),
{
    let v: Vec<char> = chars(s);
    let mut comma: bool = false;
    let mut i: usize = 0;
    while i < v.len()
        invariant
            i <= v.len(),
            v@ == s@,
            comma == exists|k: int| 0 <= k < i && #[trigger] v[k] == ',',
            forall|k: int| 0 <= k < i ==> !alphabetic(#[trigger] v[k]),
        decreases v.len() - i,
    {
        let c: char = v[i];
        if is_alphabetic(c) {
            return false;
        }
        if c == ',' {
            comma = true;
        }
        i = i + 1;
    }
    if comma {
        let ghost k = choose|k: int| 0 <= k < i && #[trigger] v[k] == ',';
        assert(s@[k] == ',');
    }
    comma
}

/// The two numbers of a point, as texts.
pub fn point(s: &str) -> (r: Result<(String, String), String>)
    ensures
        match split_at_first(s@, ',') {
            Some(p) => r is Ok && r->Ok_0.0@ == trimmed(p.0) && r->Ok_0.1@ == trimmed(p.1),
            None => r is Err && r->Err_0@ == "err expected x,y"@,
        },
{
    match split_once(&chars(s), ',') {
        Some(p) => Ok((text(&trim(&p.0)), text(&trim(&p.1)))),
        None => Err("err expected x,y".to_owned()),
    }
}

/// The reply to a point whose numbers do not parse.
pub fn bad_point(s: &str) -> (r: String)
    ensures
        r@ == "err cannot parse point "@ + debug_quoted(s@),
{
    joined("err cannot parse point ".to_owned(), quote(s).as_str())
}

/// A node with visible text, and its box as it is printed.
pub struct TextNode {
    pub index: u32,
    pub generation: u32,
    pub text: String,
    pub rect: [String; 4],
}

/// The first node, from `at` on, whose text holds `s`.
pub open spec fn first_match(nodes: Seq<TextNode>, s: Seq<char>, at: nat) -> Option<int>
    decreases nodes.len() - at,
{
    if at >= nodes.len() {
        None
    } else if contains(nodes[at as int].text@, s) {
        Some(at as int)
    } else {
        first_match(nodes, s, at + 1)
    }
}

/// The first node whose visible text matches, or the reply that there is none.
/// Aiming by text avoids re-deriving a layout that was just solved.
pub fn target(nodes: &Vec<TextNode>, s: &str) -> (r: Result<usize, String>)
    ensures
        match first_match(nodes@, s@, 0) {
            Some(i) => r is Ok && r->Ok_0 == i && r->Ok_0 < nodes.len(),
            None => r is Err && r->Err_0@ == "err no visible node matching "@ + debug_quoted(s@),
        },
{
    let needle: Vec<char> = chars(s);
    let mut i: usize = 0;
    while i < nodes.len()
        invariant
            i <= nodes.len(),
            needle@ == s@,
            first_match(nodes@, s@, 0) == first_match(nodes@, s@, i as nat),
        decreases nodes.len() - i,
    {
        if holds(&chars(nodes[i].text.as_str()), &needle) {
            return Ok(i);
        }
        i = i + 1;
    }
    Err(joined("err no visible node matching ".to_owned(), quote(s).as_str()))
}

/// The line of one node.
pub open spec fn node_line(n: TextNode) -> Seq<char> {
    decimal(n.index as nat) + "."@ + decimal(n.generation as nat) + " "@ + n.rect[0]@ + " "@
        + n.rect[1]@ + " "@ + n.rect[2]@ + " "@ + n.rect[3]@ + " "@ + n.text@ + "\n"@
}

/// The lines of the first `n` nodes whose text holds `s`.
pub open spec fn node_lines(nodes: Seq<TextNode>, s: Seq<char>, n: nat) -> Seq<char>
    decreases n,
{
    if n == 0 {
        Seq::empty()
    } else if contains(nodes[n - 1].text@, s) {
        node_lines(nodes, s, (n - 1) as nat) + node_line(nodes[n - 1])
    } else {
        node_lines(nodes, s, (n - 1) as nat)
    }
}

fn show_node(n: &TextNode) -> (r: String)
    ensures
        r@ == node_line(*n),
{
    let l: String = joined(show(n.index as u64), ".");
    let l: String = joined(joined(l, show(n.generation as u64).as_str()), " ");
    let l: String = joined(joined(l, n.rect[0].as_str()), " ");
    let l: String = joined(joined(l, n.rect[1].as_str()), " ");
    let l: String = joined(joined(l, n.rect[2].as_str()), " ");
    let l: String = joined(joined(l, n.rect[3].as_str()), " ");
    joined(joined(l, n.text.as_str()), "\n")
}

/// Visible text nodes matching `arg`, a line each, or a line that says none.
pub fn find_nodes(nodes: &Vec<TextNode>, arg: &str) -> (r: String)
    ensures
        r@ == if node_lines(nodes@, arg@, nodes@.len()).len() == 0 {
            "none\n"@
        } else {
            node_lines(nodes@, arg@, nodes@.len())
        },
{
    let needle: Vec<char> = chars(arg);
    let mut out: String = String::new();
    let mut i: usize = 0;
    while i < nodes.len()
        invariant
            i <= nodes.len(),
            needle@ == arg@,
            out@ == node_lines(nodes@, arg@, i as nat),
        decreases nodes.len() - i,
    {
        if holds(&chars(nodes[i].text.as_str()), &needle) {
            out = joined(out, show_node(&nodes[i]).as_str());
        }
        i = i + 1;
    }
    if out.as_str().is_empty() {
        "none\n".to_owned()
    } else {
        out
    }
}

/// What holds the keyboard: a node, and its content if it is a field.
pub struct Focus {
    pub index: u32,
    pub generation: u32,
    pub field: Option<String>,
}

/// What holds the keyboard, and what it contains if it is a field.
pub fn focus(f: &Option<Focus>) -> (r: String)
    ensures
        r@ == match *f {
            None => "none"@,
            Some(n) => match n.field {
                Some(t) => decimal(n.index as nat) + "."@ + decimal(n.generation as nat)
                    + " field "@ + t@,
                None => decimal(n.index as nat) + "."@ + decimal(n.generation as nat) + " node"@,
            },
        },
{
    match f {
        None => "none".to_owned(),
        Some(n) => {
            let id: String = joined(
                joined(show(n.index as u64), "."),
                show(n.generation as u64).as_str(),
            );
            match &n.field {
                Some(t) => joined(joined(id, " field "), t.as_str()),
                None => joined(id, " node"),
            }
        },
    }
}

/// A command of the channel.
pub enum Command {
    Move(String),
    Click { target: String, right: bool, double: bool },
    Drag { from: String, to: String },
    Wheel(String),
    Key(Keystroke, Option<KeyCode>),
    Type(String),
    Wait,
    Shot(String),
    Rec { frames: usize, command: String },
    Find(String),
    Focus,
    Quit,
    /// Nothing to do but to reply.
    Reply(String),
}

/// A command, with its texts as sequences.
pub ghost enum CommandModel {
    Move(Seq<char>),
    Click { target: Seq<char>, right: bool, double: bool },
    Drag { from: Seq<char>, to: Seq<char> },
    Wheel(Seq<char>),
    Key(KeystrokeModel, Option<KeyCode>),
    Type(Seq<char>),
    Wait,
    Shot(Seq<char>),
    Rec { frames: nat, command: Seq<char> },
    Find(Seq<char>),
    Focus,
    Quit,
    Reply(Seq<char>),
}

impl View for Command {
    type V = CommandModel;

    open spec fn view(&self) -> CommandModel {
        match *self {
            Command::Move(t) => CommandModel::Move(t@),
            Command::Click { target, right, double } => CommandModel::Click {
                target: target@,
                right,
                double,
            },
            Command::Drag { from, to } => CommandModel::Drag { from: from@, to: to@ },
            Command::Wheel(t) => CommandModel::Wheel(t@),
            Command::Key(k, c) => CommandModel::Key(k@, c),
            Command::Type(t) => CommandModel::Type(t@),
            Command::Wait => CommandModel::Wait,
            Command::Shot(t) => CommandModel::Shot(t@),
            Command::Rec { frames, command } => CommandModel::Rec {
                frames: frames as nat,
                command: command@,
            },
            Command::Find(t) => CommandModel::Find(t@),
            Command::Focus => CommandModel::Focus,
            Command::Quit => CommandModel::Quit,
            Command::Reply(t) => CommandModel::Reply(t@),
        }
    }
}

/// A line's command word and argument: the rest of the line is never split
/// again, so text with spaces needs no quoting.
pub open spec fn split_command(line: Seq<char>) -> (Seq<char>, Seq<char>) {
    match split_at_first(line, ' ') {
        Some(p) => (p.0, trimmed(p.1)),
        None => (line, Seq::empty()),
    }
}

/// The first place, from `at` on, where `needle` occurs.
pub open spec fn first_at(hay: Seq<char>, needle: Seq<char>, at: nat) -> Option<nat>
    decreases hay.len() + 1 - at,
{
    if at > hay.len() {
        None
    } else if occurs_at(hay, needle, at as int) {
        Some(at)
    } else {
        first_at(hay, needle, at + 1)
    }
}

/// A drag's two targets, if the argument has both.
pub open spec fn drag_of(arg: Seq<char>) -> CommandModel {
    match first_at(arg, "--to"@, 0) {
        Some(i) => CommandModel::Drag {
            from: trimmed(arg.take(i as int)),
            to: trimmed(arg.skip(i as int + 4)),
        },
        None => CommandModel::Reply("err drag <target> --to <target>"@),
    }
}

/// A recording's frames and the command to run meanwhile.
pub open spec fn rec_of(arg: Seq<char>) -> CommandModel {
    let p = split_command(arg);
    match parsed(p.0, 10, usize::MAX as nat) {
        None => CommandModel::Reply("err rec <frames> [command…]"@),
        Some(n) => if n == 0 || n > MAX_RECORDED {
            CommandModel::Reply("err rec takes 1..600 frames"@)
        } else {
            CommandModel::Rec { frames: n, command: p.1 }
        },
    }
}

/// What a line of the channel asks for.
pub open spec fn command_of(line: Seq<char>) -> CommandModel {
    let (cmd, arg) = split_command(line);
    if cmd == "move"@ {
        CommandModel::Move(arg)
    } else if cmd == "click"@ {
        CommandModel::Click { target: arg, right: false, double: false }
    } else if cmd == "dblclick"@ {
        CommandModel::Click { target: arg, right: false, double: true }
    } else if cmd == "rclick"@ {
        CommandModel::Click { target: arg, right: true, double: false }
    } else if cmd == "drag"@ {
        drag_of(arg)
    } else if cmd == "wheel"@ {
        CommandModel::Wheel(arg)
    } else if cmd == "key"@ {
        match key_of(arg, Mods(0)) {
            Ok(k) => CommandModel::Key(k.0, k.1),
            Err(e) => CommandModel::Reply(e),
        }
    } else if cmd == "type"@ {
        if arg.len() == 0 {
            CommandModel::Reply("err type <text>"@)
        } else {
            CommandModel::Type(arg)
        }
    } else if cmd == "wait"@ {
        CommandModel::Wait
    } else if cmd == "shot"@ {
        CommandModel::Shot(arg)
    } else if cmd == "rec"@ {
        rec_of(arg)
    } else if cmd == "find"@ {
        CommandModel::Find(arg)
    } else if cmd == "tree"@ {
        CommandModel::Find(Seq::empty())
    } else if cmd == "focus"@ {
        CommandModel::Focus
    } else if cmd == "quit"@ {
        CommandModel::Quit
    } else if cmd.len() == 0 {
        CommandModel::Reply("err empty"@)
    } else {
        CommandModel::Reply("err unknown command "@ + debug_quoted(cmd))
    }
}

fn split_line(v: &Vec<char>) -> (r: (Vec<char>, Vec<char>))
    ensures
        (r.0@, r.1@) == split_command(v@),
{
    match split_once(v, ' ') {
        Some(p) => (p.0, trim(&p.1)),
        None => {
            let cmd: Vec<char> = slice(v, 0, v.len());
            assert(cmd@ =~= v@);
            let arg: Vec<char> = Vec::new();
            assert(arg@ =~= Seq::empty());
            (cmd, arg)
        },
    }
}

proof fn lemma_first_at_end(hay: Seq<char>, needle: Seq<char>, at: nat)
    requires
        at + needle.len() > hay.len(),
        needle.len() > 0,
    ensures
        first_at(hay, needle, at) is None,
    decreases hay.len() + 1 - at,
{
    if at <= hay.len() {
        lemma_first_at_end(hay, needle, at + 1);
    }
}

fn read_drag(arg: &Vec<char>) -> (r: Command)
    ensures
        r@ == drag_of(arg@),
{
    let needle: Vec<char> = chars("--to");
    proof {
        reveal_strlit("--to");
    }
    let mut i: usize = 0;
    while i < arg.len()
        invariant
            i <= arg.len(),
            needle@ == "--to"@,
            needle.len() == 4,
            first_at(arg@, "--to"@, 0) == first_at(arg@, "--to"@, i as nat),
        decreases arg.len() - i,
    {
        let rest: Vec<char> = slice(arg, i, arg.len());
        if starts_with(&rest, &needle) {
            let a: Vec<char> = slice(arg, 0, i);
            let b: Vec<char> = slice(arg, i + 4, arg.len());
            assert(a@ =~= arg@.take(i as int));
            assert(b@ =~= arg@.skip(i as int + 4));
            assert(occurs_at(arg@, "--to"@, i as int)) by {
                assert(arg@.subrange(i as int, i as int + 4) =~= rest@.subrange(0, 4));
                assert(rest@.subrange(0, 4) =~= "--to"@);
            }
            return Command::Drag { from: text(&trim(&a)), to: text(&trim(&b)) };
        }
        assert(!occurs_at(arg@, "--to"@, i as int)) by {
            if occurs_at(arg@, "--to"@, i as int) {
                assert(arg@.subrange(i as int, i as int + 4) =~= rest@.subrange(0, 4));
            }
        }
        i = i + 1;
    }
    proof {
        lemma_first_at_end(arg@, "--to"@, i as nat);
    }
    Command::Reply("err drag <target> --to <target>".to_owned())
}

fn read_rec(arg: &Vec<char>) -> (r: Command)
    ensures
        r@ == rec_of(arg@),
{
    let (n, rest): (Vec<char>, Vec<char>) = split_line(arg);
    match parse(&n, 10, usize::MAX as u64) {
        None => Command::Reply("err rec <frames> [command…]".to_owned()),
        Some(n) => if n == 0 || n > MAX_RECORDED as u64 {
            Command::Reply("err rec takes 1..600 frames".to_owned())
        } else {
            Command::Rec { frames: n as usize, command: text(&rest) }
        },
    }
}

fn read_key(arg: &Vec<char>) -> (r: Command)
    ensures
        r@ == match key_of(arg@, Mods(0)) {
            Ok(k) => CommandModel::Key(k.0, k.1),
            Err(e) => CommandModel::Reply(e),
        },
{
    match key(text(arg).as_str()) {
        Ok((k, c)) => Command::Key(k, c),
        Err(e) => Command::Reply(e),
    }
}

/// What a line of the channel asks for, or the reply that refuses it.
pub fn dispatch(line: &str) -> (r: Command)
    ensures
        r@ == command_of(line@),
{
    let (cmd, arg): (Vec<char>, Vec<char>) = split_line(&chars(line));
    if reads(&cmd, "move") {
        return Command::Move(text(&arg));
    }
    if reads(&cmd, "click") {
        return Command::Click { target: text(&arg), right: false, double: false };
    }
    if reads(&cmd, "dblclick") {
        return Command::Click { target: text(&arg), right: false, double: true };
    }
    if reads(&cmd, "rclick") {
        return Command::Click { target: text(&arg), right: true, double: false };
    }
    if reads(&cmd, "drag") {
        return read_drag(&arg);
    }
    if reads(&cmd, "wheel") {
        return Command::Wheel(text(&arg));
    }
    if reads(&cmd, "key") {
        return read_key(&arg);
    }
    if reads(&cmd, "type") {
        if arg.len() == 0 {
            return Command::Reply("err type <text>".to_owned());
        }
        return Command::Type(text(&arg));
    }
    if reads(&cmd, "wait") {
        return Command::Wait;
    }
    if reads(&cmd, "shot") {
        return Command::Shot(text(&arg));
    }
    if reads(&cmd, "rec") {
        return read_rec(&arg);
    }
    if reads(&cmd, "find") {
        return Command::Find(text(&arg));
    }
    if reads(&cmd, "tree") {
        let all: String = String::new();
        assert(all@ =~= Seq::empty());
        return Command::Find(all);
    }
    if reads(&cmd, "focus") {
        return Command::Focus;
    }
    if reads(&cmd, "quit") {
        return Command::Quit;
    }
    if cmd.len() == 0 {
        return Command::Reply("err empty".to_owned());
    }
    Command::Reply(
        joined("err unknown command ".to_owned(), quote(text(&cmd).as_str()).as_str()),
    )
}

/// How far a wait has come: until the queue is empty, then until two more
/// frames have run, because the last step is injected but not yet read.
#[derive(Clone, Copy, PartialEq, Eq, Structural, Debug)]
pub enum Wait {
    ForQueue,
    ForFrames { from: u64 },
}

/// What a waiting thread does next.
pub enum WaitStep {
    /// Sleep a millisecond and look again.
    Again(Wait),
    /// Reply.
    Done(String),
}

/// A wait, at one look. `expired` says that the deadline has passed.
pub fn wait(state: Wait, queue_empty: bool, frames: u64, expired: bool) -> (r: WaitStep)
    requires
        frames <= u64::MAX - 2,
        state is ForFrames ==> state->from <= u64::MAX - 2,
    ensures
        match state {
            Wait::ForQueue => if expired {
                r is Done && r->Done_0@ == "err timeout waiting for the queue"@
            } else if queue_empty {
                r is Again && r->Again_0 == (Wait::ForFrames { from: frames })
            } else {
                r is Again && r->Again_0 == Wait::ForQueue
            },
            Wait::ForFrames { from } => if frames >= from + 2 {
                r is Done && r->Done_0@ == "ok"@
            } else if expired {
                r is Done && r->Done_0@ == "err timeout waiting for a frame"@
            } else {
                r is Again && r->Again_0 == state
            },
        },
{
    match state {
        Wait::ForQueue => if expired {
            WaitStep::Done("err timeout waiting for the queue".to_owned())
        } else if queue_empty {
            WaitStep::Again(Wait::ForFrames { from: frames })
        } else {
            WaitStep::Again(Wait::ForQueue)
        },
        Wait::ForFrames { from } => if frames >= from + 2 {
            WaitStep::Done("ok".to_owned())
        } else if expired {
            WaitStep::Done("err timeout waiting for a frame".to_owned())
        } else {
            WaitStep::Again(state)
        },
    }
}

/// The reply to a capture that is to land in `want`, once it has an outcome or
/// its deadline has passed.
pub fn shot(
    result: &Option<Result<String, String>>,
    want: &str,
    expired: bool,
) -> (r: Option<String>)
    ensures
        expired ==> r is Some && r->0@ == "err timeout capturing "@ + want@,
        !expired ==> match *result {
            Some(Ok(p)) => r is Some && r->0@ == "ok "@ + p@,
            Some(Err(e)) => r is Some && r->0@ == "err "@ + e@,
            None => r is None,
        },
{
    if expired {
        return Some(joined("err timeout capturing ".to_owned(), want));
    }
    match result {
        Some(Ok(p)) => Some(joined("ok ".to_owned(), p.as_str())),
        Some(Err(e)) => Some(joined("err ".to_owned(), e.as_str())),
        None => None,
    }
}

/// The first `n` paths, a line each.
pub open spec fn path_lines(paths: Seq<String>, n: nat) -> Seq<char>
    decreases n,
{
    if n == 0 {
        Seq::empty()
    } else {
        path_lines(paths, (n - 1) as nat) + paths[n - 1]@ + "\n"@
    }
}

/// The reply to a recording of `paths`, once no capture is waiting or its
/// deadline has passed: the files, unless the last capture failed.
pub fn rec(
    idle: bool,
    result: &Option<Result<String, String>>,
    paths: &Vec<String>,
    expired: bool,
) -> (r: Option<String>)
    ensures
        (r is Some) == (expired || idle),
        expired ==> r->0@ == "err timeout recording"@,
        !expired && idle ==> r->0@ == match *result {
            Some(Err(e)) => "err "@ + e@,
            _ => path_lines(paths@, paths@.len()),
        },
{
    if expired {
        return Some("err timeout recording".to_owned());
    }
    if !idle {
        return None;
    }
    match result {
        Some(Err(e)) => {
            return Some(joined("err ".to_owned(), e.as_str()));
        },
        _ => {},
    }
    let mut out: String = String::new();
    let mut i: usize = 0;
    while i < paths.len()
        invariant
            i <= paths.len(),
            out@ == path_lines(paths@, i as nat),
        decreases paths.len() - i,
    {
        out = joined(joined(out, paths[i].as_str()), "\n");
        i = i + 1;
    }
    Some(out)
}

/// The reply to a gesture that ends at a point, whose numbers are printed so.
pub fn landed(x: &str, y: &str) -> (r: String)
    ensures
        r@ == "ok "@ + x@ + " "@ + y@,
{
    joined(joined(joined("ok ".to_owned(), x), " "), y)
}

/// The reply to a wheel whose number does not parse.
pub fn bad_wheel() -> (r: String)
    ensures
        r@ == "err wheel <lines>"@,
{
    "err wheel <lines>".to_owned()
}

/// Whether a reply refuses: what a recording does not film.
pub fn refuses(reply: &str) -> (r: bool)
    ensures
        r == "err"@.is_prefix_of(reply@),
{
    starts_with(&chars(reply), &chars("err"))
}

/// The reply that goes over the wire always ends its line.
pub fn ended(reply: &str) -> (r: String)
    ensures
        r@ == if reply@.len() > 0 && reply@.last() == '\n' {
            reply@
        } else {
            reply@.push('\n')
        },
{
    let mut v: Vec<char> = chars(reply);
    if v.len() == 0 || v[v.len() - 1] != '\n' {
        v.push('\n');
    }
    text(&v)
}

/// A gesture is never cut short and never overlaps the next: steps come off
/// the queue in the order they went on, one a frame.
pub proof fn steps_run_in_order(queue: Seq<Step>, more: Seq<Step>, i: int)
    requires
        0 <= i < more.len(),
    ensures
        (queue + more).skip(queue.len() as int) == more,
        (queue + more)[queue.len() + i] == more[i],
        queue.len() > 0 ==> (queue + more).skip(1) == queue.skip(1) + more,
{
    assert((queue + more).skip(queue.len() as int) =~= more);
    if queue.len() > 0 {
        assert((queue + more).skip(1) =~= queue.skip(1) + more);
    }
}

/// A click leaves the button as it found it: what it presses it releases.
pub proof fn clicks_release_what_they_press(m: InputModel, p: [u32; 2], delta: [u32; 2])
    requires
        !m.buttons_down.contains(MouseButton::Left.number_of()),
    ensures
        ({
            let left = MouseButton::Left.number_of();
            let down = stepped(m, Step::Button(p, true), delta, 0);
            let up = stepped(down.ended(), Step::Button(p, false), delta, 0);
            &&& down.buttons_down.contains(left)
            &&& down.buttons_pressed.contains(left)
            &&& up.buttons_released.contains(left)
            &&& up.buttons_down =~= m.buttons_down
        }),
{
}

/// Every key name stands for the key of that name, on the keyboard and in the
/// editing queue; a lone character stands for itself, and anything else for
/// nothing.
pub proof fn names_stand_for_their_keys(s: Seq<char>, c: char)
    ensures
        s == "enter"@ ==> physical_of(s) == Some(KeyCode::Enter),
        s == "return"@ ==> physical_of(s) == Some(KeyCode::Enter),
        s == "tab"@ ==> physical_of(s) == Some(KeyCode::Tab),
        s == "escape"@ ==> physical_of(s) == Some(KeyCode::Escape),
        s == "esc"@ ==> physical_of(s) == Some(KeyCode::Escape),
        s == "space"@ ==> physical_of(s) == Some(KeyCode::Space),
        s == "delete"@ ==> physical_of(s) == Some(KeyCode::Delete),
        s == "del"@ ==> physical_of(s) == Some(KeyCode::Delete),
        s == "enter"@ ==> key_named(s) == Some(Key::Enter),
        s == "return"@ ==> key_named(s) == Some(Key::Enter),
        s == "tab"@ ==> key_named(s) == Some(Key::Tab),
        s == "escape"@ ==> key_named(s) == Some(Key::Escape),
        s == "esc"@ ==> key_named(s) == Some(Key::Escape),
        s == "backspace"@ ==> key_named(s) == Some(Key::Backspace),
        s == "delete"@ ==> key_named(s) == Some(Key::Delete),
        s == "del"@ ==> key_named(s) == Some(Key::Delete),
        s == "left"@ ==> key_named(s) == Some(Key::Left),
        s == "right"@ ==> key_named(s) == Some(Key::Right),
        s == "up"@ ==> key_named(s) == Some(Key::Up),
        s == "down"@ ==> key_named(s) == Some(Key::Down),
        s == "home"@ ==> key_named(s) == Some(Key::Home),
        s == "end"@ ==> key_named(s) == Some(Key::End),
        s == seq![c] && 0x61 <= c as u32 <= 0x7a ==> physical_of(s) == Some(
            KeyCode::Letter((c as u32 - 0x61) as u8),
        ),
        s == seq![c] && 0x30 <= c as u32 <= 0x39 ==> physical_of(s) == Some(
            KeyCode::Digit((c as u32 - 0x30) as u8),
        ),
        s == seq![c] && !(0x61 <= c as u32 <= 0x7a) && !(0x30 <= c as u32 <= 0x39)
            ==> physical_of(s) is None,
        s == seq![c] ==> key_named(s) == Some(Key::Char(c)),
        physical_of(s) is Some ==> s.len() == 1 || s == "enter"@ || s == "return"@ || s == "tab"@ || s == "escape"@ || s == "esc"@ || s == "space"@ || s == "delete"@ || s == "del"@,
        key_named(s) is Some ==> s.len() == 1 || s == "enter"@ || s == "return"@ || s == "tab"@ || s == "escape"@ || s == "esc"@ || s == "backspace"@ || s == "delete"@ || s == "del"@ || s == "left"@ || s == "right"@ || s == "up"@ || s == "down"@ || s == "home"@ || s == "end"@,
        s == "ctrl"@ || s == "control"@ ==> modifier_of(s) == Some(Mods(2)),
        s == "shift"@ ==> modifier_of(s) == Some(Mods(1)),
        s == "alt"@ ==> modifier_of(s) == Some(Mods(4)),
        modifier_of(s) is Some ==> s == "ctrl"@ || s == "control"@ || s == "shift"@ || s
            == "alt"@,
{
    reveal_strlit("enter");
    assert("enter"@.len() == 5 && "enter"@[0] == 'e' && "enter"@[1] == 'n' && "enter"@[2] == 't' && "enter"@[3] == 'e' && "enter"@[4] == 'r');
    reveal_strlit("return");
    assert("return"@.len() == 6 && "return"@[0] == 'r' && "return"@[1] == 'e' && "return"@[2] == 't' && "return"@[3] == 'u' && "return"@[4] == 'r' && "return"@[5] == 'n');
    reveal_strlit("tab");
    assert("tab"@.len() == 3 && "tab"@[0] == 't' && "tab"@[1] == 'a' && "tab"@[2] == 'b');
    reveal_strlit("escape");
    assert("escape"@.len() == 6 && "escape"@[0] == 'e' && "escape"@[1] == 's' && "escape"@[2] == 'c' && "escape"@[3] == 'a' && "escape"@[4] == 'p' && "escape"@[5] == 'e');
    reveal_strlit("esc");
    assert("esc"@.len() == 3 && "esc"@[0] == 'e' && "esc"@[1] == 's' && "esc"@[2] == 'c');
    reveal_strlit("space");
    assert("space"@.len() == 5 && "space"@[0] == 's' && "space"@[1] == 'p' && "space"@[2] == 'a' && "space"@[3] == 'c' && "space"@[4] == 'e');
    reveal_strlit("delete");
    assert("delete"@.len() == 6 && "delete"@[0] == 'd' && "delete"@[1] == 'e' && "delete"@[2] == 'l' && "delete"@[3] == 'e' && "delete"@[4] == 't' && "delete"@[5] == 'e');
    reveal_strlit("del");
    assert("del"@.len() == 3 && "del"@[0] == 'd' && "del"@[1] == 'e' && "del"@[2] == 'l');
    reveal_strlit("backspace");
    assert("backspace"@.len() == 9 && "backspace"@[0] == 'b' && "backspace"@[1] == 'a' && "backspace"@[2] == 'c' && "backspace"@[3] == 'k' && "backspace"@[4] == 's' && "backspace"@[5] == 'p' && "backspace"@[6] == 'a' && "backspace"@[7] == 'c' && "backspace"@[8] == 'e');
    reveal_strlit("left");
    assert("left"@.len() == 4 && "left"@[0] == 'l' && "left"@[1] == 'e' && "left"@[2] == 'f' && "left"@[3] == 't');
    reveal_strlit("right");
    assert("right"@.len() == 5 && "right"@[0] == 'r' && "right"@[1] == 'i' && "right"@[2] == 'g' && "right"@[3] == 'h' && "right"@[4] == 't');
    reveal_strlit("up");
    assert("up"@.len() == 2 && "up"@[0] == 'u' && "up"@[1] == 'p');
    reveal_strlit("down");
    assert("down"@.len() == 4 && "down"@[0] == 'd' && "down"@[1] == 'o' && "down"@[2] == 'w' && "down"@[3] == 'n');
    reveal_strlit("home");
    assert("home"@.len() == 4 && "home"@[0] == 'h' && "home"@[1] == 'o' && "home"@[2] == 'm' && "home"@[3] == 'e');
    reveal_strlit("end");
    assert("end"@.len() == 3 && "end"@[0] == 'e' && "end"@[1] == 'n' && "end"@[2] == 'd');
    reveal_strlit("ctrl");
    assert("ctrl"@.len() == 4 && "ctrl"@[0] == 'c' && "ctrl"@[1] == 't' && "ctrl"@[2] == 'r' && "ctrl"@[3] == 'l');
    reveal_strlit("control");
    assert("control"@.len() == 7 && "control"@[0] == 'c' && "control"@[1] == 'o' && "control"@[2] == 'n' && "control"@[3] == 't' && "control"@[4] == 'r' && "control"@[5] == 'o' && "control"@[6] == 'l');
    reveal_strlit("shift");
    assert("shift"@.len() == 5 && "shift"@[0] == 's' && "shift"@[1] == 'h' && "shift"@[2] == 'i' && "shift"@[3] == 'f' && "shift"@[4] == 't');
    reveal_strlit("alt");
    assert("alt"@.len() == 3 && "alt"@[0] == 'a' && "alt"@[1] == 'l' && "alt"@[2] == 't');
}

/// A key expression reads from the left: each modifier in front of a plus sign
/// is held for what follows, and what follows the last is the key. With
/// nothing held a character is typed as text, anything else is a key with what
/// is held; the physical key goes by the name alone.
pub proof fn key_expressions_read_from_the_left(
    a: Seq<char>,
    rest: Seq<char>,
    mods: Mods,
    c: char,
)
    requires
        !a.contains('+'),
    ensures
        modifier_of(lowered(a)) is Some ==> key_of(a + seq!['+'] + rest, mods) == key_of(
            rest,
            Mods(mods.0 | (modifier_of(lowered(a))->0).0),
        ),
        modifier_of(lowered(a)) is None ==> key_of(a + seq!['+'] + rest, mods) == Err::<
            (KeystrokeModel, Option<KeyCode>),
            Seq<char>,
        >("err unknown modifier "@ + debug_quoted(lowered(a))),
        key_named(lowered(a)) == Some(Key::Char(c)) && mods.0 == 0 ==> key_of(a, mods) == Ok::<
            (KeystrokeModel, Option<KeyCode>),
            Seq<char>,
        >((KeystrokeModel::Text(seq![c]), physical_of(lowered(a)))),
        key_named(lowered(a)) is Some && (mods.0 != 0 || !(key_named(lowered(a))->0 is Char))
            ==> key_of(a, mods) == Ok::<(KeystrokeModel, Option<KeyCode>), Seq<char>>(
            (KeystrokeModel::Key(key_named(lowered(a))->0, mods), physical_of(lowered(a))),
        ),
        key_named(lowered(a)) is None ==> key_of(a, mods) == Err::<
            (KeystrokeModel, Option<KeyCode>),
            Seq<char>,
        >("err unknown key "@ + debug_quoted(lowered(a))),
{
    lemma_first_split(a, '+', rest);
}

/// The first occurrence splits a text where nothing before it holds one.
proof fn lemma_first_split(a: Seq<char>, c: char, rest: Seq<char>)
    requires
        !a.contains(c),
    ensures
        split_at_first(a + seq![c] + rest, c) == Some((a, rest)),
        split_at_first(a, c) is None,
{
    let s = a + seq![c] + rest;
    lemma_find(s, c, 0);
    lemma_find(a, c, 0);
    let i = find(s, c, 0) as int;
    assert(s[a.len() as int] == c);
    if i < a.len() {
        assert(a[i] == c);
    }
    assert(s.take(i) =~= a);
    assert(s.skip(i + 1) =~= rest);
    if find(a, c, 0) < a.len() {
        assert(a[find(a, c, 0) as int] == c);
    }
}

/// A sweep is one move per position, in order, and nothing else.
pub proof fn sweeps_move_along_their_path(path: Seq<[u32; 2]>, i: int)
    requires
        0 <= i < path.len(),
    ensures
        moves(path).len() == path.len(),
        moves(path)[i] == Step::Move(path[i]),
{
}

/// A press is followed by its release, of the same button at the same place.
pub proof fn presses_are_released(p: [u32; 2], right: bool)
    ensures
        press(p, right).len() == 2,
        right ==> press(p, right)[0] == Step::Right(p, true) && press(p, right)[1] == Step::Right(
            p,
            false,
        ),
        !right ==> press(p, right)[0] == Step::Button(p, true) && press(p, right)[1]
            == Step::Button(p, false),
{
}

/// An injected step reads as the event it stands for: a pointer step puts the
/// pointer there, a button step moves that button and no other, a key step
/// that key, the wheel scrolls, and typed keys queue up in order.
pub proof fn steps_read_as_events(
    m: InputModel,
    p: [u32; 2],
    down: bool,
    code: KeyCode,
    lines: u32,
    ks: Vec<Keystroke>,
    delta: [u32; 2],
    scroll: u32,
    i: int,
)
    ensures
        ({
            let left = m.fed(WindowEvent::MouseInput { pressed: down, button: MouseButton::Left });
            let right = m.fed(
                WindowEvent::MouseInput { pressed: down, button: MouseButton::Right },
            );
            let moved = stepped(m, Step::Move(p), delta, scroll);
            let primary = stepped(m, Step::Button(p, down), delta, scroll);
            let secondary = stepped(m, Step::Right(p, down), delta, scroll);
            let wheel = stepped(m, Step::Wheel(lines), delta, scroll);
            let keyed = stepped(m, Step::Key(code, down), delta, scroll);
            let typed = stepped(m, Step::Keys(ks), delta, scroll);
            &&& moved == (InputModel { cursor_position: p, cursor_delta: delta, ..m })
            &&& primary == (InputModel { cursor_position: p, cursor_delta: delta, ..left })
            &&& secondary == (InputModel { cursor_position: p, cursor_delta: delta, ..right })
            &&& wheel == (InputModel { scroll_delta: scroll, ..m })
            &&& keyed.keys_down.contains(code.number_of()) == down
            &&& keyed == (InputModel {
                keys_down: keyed.keys_down,
                keys_pressed: keyed.keys_pressed,
                keys_released: keyed.keys_released,
                ..m
            })
            &&& typed == (InputModel { keystrokes: typed.keystrokes, ..m })
            &&& typed.keystrokes.len() == m.keystrokes.len() + ks.len()
            &&& 0 <= i < m.keystrokes.len() ==> typed.keystrokes[i] == m.keystrokes[i]
            &&& 0 <= i < ks.len() ==> typed.keystrokes[m.keystrokes.len() + i] == ks[i]@
        }),
{
    lemma_all_typed(m, ks@);
}

proof fn lemma_all_typed(m: InputModel, ks: Seq<Keystroke>)
    ensures
        all_typed(m, ks) == (InputModel { keystrokes: all_typed(m, ks).keystrokes, ..m }),
        all_typed(m, ks).keystrokes.len() == m.keystrokes.len() + ks.len(),
        forall|i: int|
            0 <= i < m.keystrokes.len() ==> all_typed(m, ks).keystrokes[i] == m.keystrokes[i],
        forall|i: int|
            0 <= i < ks.len() ==> all_typed(m, ks).keystrokes[m.keystrokes.len() + i] == (
            #[trigger] ks[i])@,
    decreases ks.len(),
{
    if ks.len() > 0 {
        let rest = ks.drop_last();
        lemma_all_typed(m, rest);
        let a = all_typed(m, ks).keystrokes;
        assert(a == all_typed(m, rest).keystrokes.push(ks.last()@));
        assert forall|i: int| 0 <= i < ks.len() implies a[m.keystrokes.len() + i] == (
        #[trigger] ks[i])@ by {
            if i < rest.len() {
                assert(rest[i] == ks[i]);
            }
        }
    }
}

/// Aiming by text finds the first node that holds it, and none only if no node
/// does.
pub proof fn the_first_matching_node_is_found(nodes: Seq<TextNode>, s: Seq<char>, i: int)
    requires
        0 <= i < nodes.len(),
    ensures
        first_match(nodes, s, 0) is Some ==> 0 <= first_match(nodes, s, 0)->0 < nodes.len(),
        first_match(nodes, s, 0) is Some ==> contains(
            nodes[first_match(nodes, s, 0)->0].text@,
            s,
        ),
        contains(nodes[i].text@, s) ==> first_match(nodes, s, 0) is Some && first_match(
            nodes,
            s,
            0,
        )->0 <= i,
{
    lemma_first_match(nodes, s, 0, i);
}

proof fn lemma_first_match(nodes: Seq<TextNode>, s: Seq<char>, at: nat, i: int)
    requires
        at <= i < nodes.len(),
    ensures
        first_match(nodes, s, at) is Some ==> at <= first_match(nodes, s, at)->0 < nodes.len(),
        first_match(nodes, s, at) is Some ==> contains(
            nodes[first_match(nodes, s, at)->0].text@,
            s,
        ),
        contains(nodes[i].text@, s) ==> first_match(nodes, s, at) is Some && first_match(
            nodes,
            s,
            at,
        )->0 <= i,
    decreases nodes.len() - at,
{
    if !contains(nodes[at as int].text@, s) {
        if at + 1 < nodes.len() {
            lemma_first_match(nodes, s, at + 1, if i > at { i } else { at as int + 1 });
        } else {
            assert(first_match(nodes, s, at + 1) is None);
        }
    }
}

/// A node's line is its id, its box and its text, in that order, and ends.
/// Listing one more node adds its line exactly if its text holds what was
/// asked for.
pub proof fn listings_print_what_matches(nodes: Seq<TextNode>, s: Seq<char>, n: nat)
    requires
        n < nodes.len(),
    ensures
        ({
            let d = nodes[n as int];
            &&& node_line(d) == decimal(d.index as nat) + "."@ + decimal(d.generation as nat) + " "@
                + d.rect[0]@ + " "@ + d.rect[1]@ + " "@ + d.rect[2]@ + " "@ + d.rect[3]@ + " "@
                + d.text@ + "\n"@
            &&& contains(d.text@, s) ==> node_lines(nodes, s, n + 1) == node_lines(nodes, s, n)
                + node_line(d)
            &&& !contains(d.text@, s) ==> node_lines(nodes, s, n + 1) == node_lines(nodes, s, n)
            &&& node_lines(nodes, s, 0).len() == 0
        }),
{
}

/// A recording lists its files a line each, in order.
pub proof fn recordings_list_their_files(paths: Seq<String>, n: nat)
    requires
        n < paths.len(),
    ensures
        path_lines(paths, 0).len() == 0,
        path_lines(paths, n + 1) == path_lines(paths, n) + paths[n as int]@ + "\n"@,
{
}

/// A line's first blank ends its command word, and the rest is the argument,
/// blanks inside and all.
pub proof fn lines_split_at_the_first_blank(word: Seq<char>, rest: Seq<char>)
    requires
        !word.contains(' '),
    ensures
        split_command(word + seq![' '] + rest) == (word, trimmed(rest)),
        split_command(word) == (word, Seq::<char>::empty()),
{
    lemma_first_split(word, ' ', rest);
}

/// A drag goes from what stands before its first marker to what follows it,
/// and without a marker it is refused.
pub proof fn drags_split_at_the_first_marker(arg: Seq<char>, i: int)
    requires
        0 <= i <= arg.len(),
        forall|k: int| 0 <= k < i ==> !occurs_at(arg, "--to"@, k),
    ensures
        occurs_at(arg, "--to"@, i) ==> drag_of(arg) == (CommandModel::Drag {
            from: trimmed(arg.take(i)),
            to: trimmed(arg.skip(i + 4)),
        }),
        i == arg.len() && !occurs_at(arg, "--to"@, i) ==> drag_of(arg) == CommandModel::Reply(
            "err drag <target> --to <target>"@,
        ),
{
    lemma_first_at(arg, "--to"@, 0, i);
}

proof fn lemma_first_at(hay: Seq<char>, needle: Seq<char>, at: nat, i: int)
    requires
        at <= i <= hay.len(),
        forall|k: int| at <= k < i ==> !occurs_at(hay, needle, k),
    ensures
        occurs_at(hay, needle, i) ==> first_at(hay, needle, at) == Some(i as nat),
        i == hay.len() && !occurs_at(hay, needle, i) ==> first_at(hay, needle, at) is None,
    decreases hay.len() - at,
{
    if at < i {
        lemma_first_at(hay, needle, at + 1, i);
    } else if at == hay.len() {
        assert(first_at(hay, needle, at + 1) is None);
    }
}

/// A recording takes from one frame to the most there may be, runs what
/// follows the count meanwhile, and is refused otherwise.
pub proof fn recordings_are_bounded(n: Seq<char>, rest: Seq<char>)
    requires
        !n.contains(' '),
    ensures
        ({
            let r = rec_of(n + seq![' '] + rest);
            let p = parsed(n, 10, usize::MAX as nat);
            &&& p is Some && 1 <= p->0 <= 600 ==> r == (CommandModel::Rec {
                frames: p->0,
                command: trimmed(rest),
            })
            &&& p is Some && (p->0 == 0 || p->0 > 600) ==> r == CommandModel::Reply(
                "err rec takes 1..600 frames"@,
            )
            &&& p is None ==> r is Reply
            &&& p is Some && 1 <= p->0 <= 600 ==> rec_of(n) == (CommandModel::Rec {
                frames: p->0,
                command: Seq::<char>::empty(),
            })
        }),
{
    lines_split_at_the_first_blank(n, rest);
}

/// Every command word asks for the command of that name, with the rest of the
/// line as its argument. No line and no unknown word is taken for one.
pub proof fn words_ask_for_their_command(line: Seq<char>)
    ensures
        ({
            let w = split_command(line).0;
            let arg = split_command(line).1;
            let c = command_of(line);
            &&& w == "move"@ ==> c == CommandModel::Move(arg)
            &&& w == "click"@ ==> c == (CommandModel::Click {
                target: arg,
                right: false,
                double: false,
            })
            &&& w == "dblclick"@ ==> c == (CommandModel::Click {
                target: arg,
                right: false,
                double: true,
            })
            &&& w == "rclick"@ ==> c == (CommandModel::Click {
                target: arg,
                right: true,
                double: false,
            })
            &&& w == "drag"@ ==> c == drag_of(arg)
            &&& w == "wheel"@ ==> c == CommandModel::Wheel(arg)
            &&& w == "key"@ && key_of(arg, Mods(0)) is Ok ==> c == CommandModel::Key(
                (key_of(arg, Mods(0))->Ok_0).0,
                (key_of(arg, Mods(0))->Ok_0).1,
            )
            &&& w == "key"@ && key_of(arg, Mods(0)) is Err ==> c == CommandModel::Reply(
                key_of(arg, Mods(0))->Err_0,
            )
            &&& w == "type"@ && arg.len() > 0 ==> c == CommandModel::Type(arg)
            &&& w == "type"@ && arg.len() == 0 ==> c == CommandModel::Reply("err type <text>"@)
            &&& w == "wait"@ ==> c is Wait
            &&& w == "shot"@ ==> c == CommandModel::Shot(arg)
            &&& w == "rec"@ ==> c == rec_of(arg)
            &&& w == "find"@ ==> c == CommandModel::Find(arg)
            &&& w == "tree"@ ==> c == CommandModel::Find(Seq::<char>::empty())
            &&& w == "focus"@ ==> c is Focus
            &&& w == "quit"@ ==> c is Quit
            &&& w.len() == 0 ==> c == CommandModel::Reply("err empty"@)
            &&& c is Move ==> w == "move"@
            &&& c is Click ==> w == "click"@ || w == "dblclick"@ || w == "rclick"@
            &&& c is Wheel ==> w == "wheel"@
            &&& c is Type ==> w == "type"@
            &&& c is Wait ==> w == "wait"@
            &&& c is Shot ==> w == "shot"@
            &&& c is Find ==> w == "find"@ || w == "tree"@
            &&& c is Focus ==> w == "focus"@
            &&& c is Quit ==> w == "quit"@
            &&& c is Drag ==> w == "drag"@
            &&& c is Rec ==> w == "rec"@
            &&& c is Key ==> w == "key"@
        }),
{
    reveal_strlit("move");
    assert("move"@.len() == 4 && "move"@[0] == 'm' && "move"@[1] == 'o' && "move"@[2] == 'v' && "move"@[3] == 'e');
    reveal_strlit("click");
    assert("click"@.len() == 5 && "click"@[0] == 'c' && "click"@[1] == 'l' && "click"@[2] == 'i' && "click"@[3] == 'c' && "click"@[4] == 'k');
    reveal_strlit("dblclick");
    assert("dblclick"@.len() == 8 && "dblclick"@[0] == 'd' && "dblclick"@[1] == 'b' && "dblclick"@[2] == 'l' && "dblclick"@[3] == 'c' && "dblclick"@[4] == 'l' && "dblclick"@[5] == 'i' && "dblclick"@[6] == 'c' && "dblclick"@[7] == 'k');
    reveal_strlit("rclick");
    assert("rclick"@.len() == 6 && "rclick"@[0] == 'r' && "rclick"@[1] == 'c' && "rclick"@[2] == 'l' && "rclick"@[3] == 'i' && "rclick"@[4] == 'c' && "rclick"@[5] == 'k');
    reveal_strlit("drag");
    assert("drag"@.len() == 4 && "drag"@[0] == 'd' && "drag"@[1] == 'r' && "drag"@[2] == 'a' && "drag"@[3] == 'g');
    reveal_strlit("wheel");
    assert("wheel"@.len() == 5 && "wheel"@[0] == 'w' && "wheel"@[1] == 'h' && "wheel"@[2] == 'e' && "wheel"@[3] == 'e' && "wheel"@[4] == 'l');
    reveal_strlit("key");
    assert("key"@.len() == 3 && "key"@[0] == 'k' && "key"@[1] == 'e' && "key"@[2] == 'y');
    reveal_strlit("type");
    assert("type"@.len() == 4 && "type"@[0] == 't' && "type"@[1] == 'y' && "type"@[2] == 'p' && "type"@[3] == 'e');
    reveal_strlit("wait");
    assert("wait"@.len() == 4 && "wait"@[0] == 'w' && "wait"@[1] == 'a' && "wait"@[2] == 'i' && "wait"@[3] == 't');
    reveal_strlit("shot");
    assert("shot"@.len() == 4 && "shot"@[0] == 's' && "shot"@[1] == 'h' && "shot"@[2] == 'o' && "shot"@[3] == 't');
    reveal_strlit("rec");
    assert("rec"@.len() == 3 && "rec"@[0] == 'r' && "rec"@[1] == 'e' && "rec"@[2] == 'c');
    reveal_strlit("find");
    assert("find"@.len() == 4 && "find"@[0] == 'f' && "find"@[1] == 'i' && "find"@[2] == 'n' && "find"@[3] == 'd');
    reveal_strlit("tree");
    assert("tree"@.len() == 4 && "tree"@[0] == 't' && "tree"@[1] == 'r' && "tree"@[2] == 'e' && "tree"@[3] == 'e');
    reveal_strlit("focus");
    assert("focus"@.len() == 5 && "focus"@[0] == 'f' && "focus"@[1] == 'o' && "focus"@[2] == 'c' && "focus"@[3] == 'u' && "focus"@[4] == 's');
    reveal_strlit("quit");
    assert("quit"@.len() == 4 && "quit"@[0] == 'q' && "quit"@[1] == 'u' && "quit"@[2] == 'i' && "quit"@[3] == 't');
}

/// A point has a comma and no letter; anything with a letter is a name.
pub proof fn points_have_no_letters(s: Seq<char>, i: int)
    requires
        0 <= i < s.len(),
    ensures
        alphabetic(s[i]) ==> !is_point(s),
        !s.contains(',') ==> !is_point(s),
        s[i] == ',' && (forall|k: int| 0 <= k < s.len() ==> !alphabetic(#[trigger] s[k]))
            ==> is_point(s),
{
}

} // verus!
