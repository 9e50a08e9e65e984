//! Text as the renderer reads and prints it: kernel files, log lines, commands.
//!
//! Text is a sequence of characters throughout. The readers work on a
//! `Vec<char>`; [`chars`] and [`text`] convert.

use vstd::prelude::*;
use vstd::string::*;

verus! {

broadcast use vstd::string::axiom_spec_iter;

/// Unicode white space.
pub open spec fn is_white(c: char) -> bool {
    let n = c as u32;
    ||| 0x09 <= n <= 0x0d
    ||| n == 0x20
    ||| n == 0x85
    ||| n == 0xa0
    ||| n == 0x1680
    ||| 0x2000 <= n <= 0x200a
    ||| n == 0x2028
    ||| n == 0x2029
    ||| n == 0x202f
    ||| n == 0x205f
    ||| n == 0x3000
}

/// Unicode control characters.
pub open spec fn is_control(c: char) -> bool {
    c as u32 <= 0x1f || 0x7f <= c as u32 <= 0x9f
}

/// `c` with ASCII upper case made lower case.
pub open spec fn lower(c: char) -> char {
    if 'A' as u32 <= c as u32 <= 'Z' as u32 {
        (c as u8 + 32) as u8 as char
    } else {
        c
    }
}

/// `s` with ASCII upper case made lower case.
pub open spec fn lowered(s: Seq<char>) -> Seq<char> {
    Seq::new(s.len(), |i: int| lower(s[i]))
}

/// `s` with every `from` replaced by `to`.
pub open spec fn replaced(s: Seq<char>, from: char, to: char) -> Seq<char> {
    Seq::new(s.len(), |i: int| if s[i] == from { to } else { s[i] })
}

/// The index of the first `c` of `s` at or after `at`, or its length.
pub open spec fn find(s: Seq<char>, c: char, at: nat) -> nat
    decreases s.len() - at,
{
    if at >= s.len() {
        s.len()
    } else if s[at as int] == c {
        at
    } else {
        find(s, c, at + 1)
    }
}

/// `s` before and after its first `c`, if it has one.
pub open spec fn split_at_first(s: Seq<char>, c: char) -> Option<(Seq<char>, Seq<char>)> {
    let i = find(s, c, 0);
    if i < s.len() {
        Some((s.take(i as int), s.skip(i as int + 1)))
    } else {
        None
    }
}

/// How many leading characters of `s` are white space.
pub open spec fn leading_white(s: Seq<char>) -> nat
    decreases s.len(),
{
    if s.len() > 0 && is_white(s[0]) {
        1 + leading_white(s.skip(1))
    } else {
        0
    }
}

/// `s` without trailing white space.
pub open spec fn trimmed_end(s: Seq<char>) -> Seq<char>
    decreases s.len(),
{
    if s.len() > 0 && is_white(s.last()) {
        trimmed_end(s.drop_last())
    } else {
        s
    }
}

/// `s` without leading and trailing white space.
pub open spec fn trimmed(s: Seq<char>) -> Seq<char> {
    trimmed_end(s.skip(leading_white(s) as int))
}

/// How many leading characters of `s` are not white space.
pub open spec fn leading_black(s: Seq<char>) -> nat
    decreases s.len(),
{
    if s.len() > 0 && !is_white(s[0]) {
        1 + leading_black(s.skip(1))
    } else {
        0
    }
}

/// The first word of `s`, empty if there is none.
pub open spec fn first_word(s: Seq<char>) -> Seq<char> {
    let t = s.skip(leading_white(s) as int);
    t.take(leading_black(t) as int)
}

/// `s` without the carriage return that it may end in.
pub open spec fn without_cr(s: Seq<char>) -> Seq<char> {
    if s.len() > 0 && s.last() == '\r' {
        s.drop_last()
    } else {
        s
    }
}

/// The lines of `s`. A line ends in a line feed, with or without a carriage
/// return before it; what follows the last line feed is a line if it is not
/// empty.
pub open spec fn lines_of(s: Seq<char>) -> Seq<Seq<char>>
    decreases s.len(),
{
    if s.len() == 0 {
        Seq::empty()
    } else {
        let i = find(s, '\n', 0);
        if i < s.len() {
            seq![without_cr(s.take(i as int))] + lines_of(s.skip(i as int + 1))
        } else {
            seq![s]
        }
    }
}

/// Whether `needle` occurs in `hay` at `at`.
pub open spec fn occurs_at(hay: Seq<char>, needle: Seq<char>, at: int) -> bool {
    0 <= at && at + needle.len() <= hay.len() && hay.subrange(at, at + needle.len()) == needle
}

/// Whether `needle` occurs in `hay`.
pub open spec fn contains(hay: Seq<char>, needle: Seq<char>) -> bool {
    exists|at: int| occurs_at(hay, needle, at)
}

/// The value of a digit under `radix`, if it is one.
pub open spec fn digit_value(c: char, radix: nat) -> Option<nat> {
    let n = c as u32;
    let v: int = if 0x30 <= n <= 0x39 {
        n - 0x30
    } else if 0x61 <= n <= 0x7a {
        n - 0x61 + 10
    } else if 0x41 <= n <= 0x5a {
        n - 0x41 + 10
    } else {
        radix as int
    };
    if v < radix {
        Some(v as nat)
    } else {
        None
    }
}

/// The value of a string of digits, if it is one.
pub open spec fn digits_value(s: Seq<char>, radix: nat) -> Option<nat>
    decreases s.len(),
{
    if s.len() == 0 {
        Some(0)
    } else {
        match (digits_value(s.drop_last(), radix), digit_value(s.last(), radix)) {
            (Some(v), Some(d)) => Some(v * radix + d),
            _ => None,
        }
    }
}

/// An unsigned number as std reads it: digits, at least one, behind an
/// optional plus sign, of a value that fits.
pub open spec fn parsed(s: Seq<char>, radix: nat, limit: nat) -> Option<nat> {
    let digits = if s.len() > 0 && s[0] == '+' {
        s.skip(1)
    } else {
        s
    };
    if digits.len() == 0 {
        None
    } else {
        match digits_value(digits, radix) {
            Some(v) => if v <= limit {
                Some(v)
            } else {
                None
            },
            None => None,
        }
    }
}

/// The character of a decimal digit.
pub open spec fn digit_char(d: nat) -> char {
    (48 + d) as u8 as char
}

/// `n` in decimal.
pub open spec fn decimal(n: nat) -> Seq<char>
    decreases n,
{
    if n < 10 {
        seq![digit_char(n)]
    } else {
        decimal(n / 10).push(digit_char(n % 10))
    }
}

/// `s` behind as many blanks as bring it to `width` characters.
pub open spec fn padded(s: Seq<char>, width: nat) -> Seq<char> {
    if s.len() >= width {
        s
    } else {
        Seq::new((width - s.len()) as nat, |i: int| ' ') + s
    }
}

/// How [`str`]'s `Debug` writes `s`: in double quotes, with escapes.
pub uninterp spec fn debug_quoted(s: Seq<char>) -> Seq<char>;

/// Calls `format!("{:?}", s)`. The result is a function of the text alone;
/// which characters are escaped is left unsaid.
#[verifier::external_body]
pub(crate) fn quote(s: &str) -> (r: String)
    ensures
        r@ == debug_quoted(s@),
{
    format!("{:?}", s)
}

/// Calls `String::push`, which appends one character.
#[verifier::external_body]
fn push_char(s: &mut String, c: char)
    ensures
        final(s)@ == old(s)@.push(c),
{
    s.push(c)
}

/// The characters of `s`.
pub fn chars(s: &str) -> (r: Vec<char>)
    ensures
        r@ == s@,
{
    let mut r: Vec<char> = Vec::new();
    for c in it: s.chars()
        invariant
            r@ == s@.take(it.index()),
            it.seq() == s@,
    {
        r.push(c);
        assert(r@ =~= s@.take(it.index() + 1));
    }
    assert(r@ =~= s@);
    r
}

/// The characters `v` as a string.
pub fn text(v: &Vec<char>) -> (r: String)
    ensures
        r@ == v@,
{
    let mut r: String = String::new();
    let mut i: usize = 0;
    while i < v.len()
        invariant
            i <= v.len(),
            r@ == v@.take(i as int),
        decreases v.len() - i,
    {
        push_char(&mut r, v[i]);
        i = i + 1;
        assert(r@ =~= v@.take(i as int));
    }
    assert(v@.take(i as int) =~= v@);
    r
}

/// Whether two texts are the same.
pub fn same(a: &str, b: &str) -> (r: bool)
    ensures
        r == (a@ == b@),
{
    a.to_owned() == b.to_owned()
}

/// Whether `v` reads `s`.
pub fn reads(v: &Vec<char>, s: &str) -> (r: bool)
    ensures
        r == (v@ == s@),
{
    same(text(v).as_str(), s)
}

/// `a` followed by `b`.
pub fn joined(a: String, b: &str) -> (r: String)
    ensures
        r@ == a@ + b@,
{
    let mut r = a;
    r.append(b);
    r
}

/// The characters of `[from, to)`.
pub fn slice(v: &Vec<char>, from: usize, to: usize) -> (r: Vec<char>)
    requires
        from <= to <= v.len(),
    ensures
        r@ == v@.subrange(from as int, to as int),
{
    let mut r: Vec<char> = Vec::new();
    let mut i: usize = from;
    while i < to
        invariant
            from <= i <= to <= v.len(),
            r@ == v@.subrange(from as int, i as int),
        decreases to - i,
    {
        r.push(v[i]);
        i = i + 1;
        assert(r@ =~= v@.subrange(from as int, i as int));
    }
    r
}

fn white(c: char) -> (r: bool)
    ensures
        r == is_white(c),
        c == ' ' || c == '\t' || c == '\n' || c == '\r' ==> r,
        0x21 <= c as u32 <= 0x7e ==> !r,
{
    let n: u32 = c as u32;
    (0x09 <= n && n <= 0x0d) || n == 0x20 || n == 0x85 || n == 0xa0 || n == 0x1680 || (0x2000 <= n
        && n <= 0x200a) || n == 0x2028 || n == 0x2029 || n == 0x202f || n == 0x205f || n == 0x3000
}

/// Whether `c` is a control character.
pub fn control(c: char) -> (r: bool)
    ensures
        r == is_control(c),
        r == (c as u32 <= 0x1f || 0x7f <= c as u32 <= 0x9f),
{
    let n: u32 = c as u32;
    n <= 0x1f || (0x7f <= n && n <= 0x9f)
}

/// [`lower`] of one character.
pub fn to_lower(c: char) -> (r: char)
    ensures
        r == lower(c),
        0x41 <= c as u32 <= 0x5a ==> r as u32 == c as u32 + 32,
        !(0x41 <= c as u32 <= 0x5a) ==> r == c,
{
    if 'A' as u32 <= c as u32 && c as u32 <= 'Z' as u32 {
        (c as u8 + 32) as char
    } else {
        c
    }
}

/// [`lowered`] of a text.
pub fn to_lowered(v: &Vec<char>) -> (r: Vec<char>)
    ensures
        r@ == lowered(v@),
        r.len() == v.len(),
        forall|i: int|
            0 <= i < v.len() ==> (#[trigger] r[i]) as u32 == if 0x41 <= v[i] as u32 <= 0x5a {
                v[i] as u32 + 32
            } else {
                v[i] as u32 as int
            },
{
    let mut r: Vec<char> = Vec::new();
    let mut i: usize = 0;
    while i < v.len()
        invariant
            i <= v.len(),
            r@ == lowered(v@).take(i as int),
            forall|k: int|
                0 <= k < i ==> (#[trigger] r[k]) as u32 == if 0x41 <= v[k] as u32 <= 0x5a {
                    v[k] as u32 + 32
                } else {
                    v[k] as u32 as int
                },
        decreases v.len() - i,
    {
        r.push(to_lower(v[i]));
        i = i + 1;
        assert(r@ =~= lowered(v@).take(i as int));
    }
    assert(r@ =~= lowered(v@));
    r
}

/// [`replaced`] of a text.
pub fn replace(v: &Vec<char>, from: char, to: char) -> (r: Vec<char>)
    ensures
        r@ == replaced(v@, from, to),
        r.len() == v.len(),
        forall|i: int| 0 <= i < v.len() && v[i] == from ==> #[trigger] r[i] == to,
        forall|i: int| 0 <= i < v.len() && v[i] != from ==> #[trigger] r[i] == v[i],
{
    let mut r: Vec<char> = Vec::new();
    let mut i: usize = 0;
    while i < v.len()
        invariant
            i <= v.len(),
            r@ == replaced(v@, from, to).take(i as int),
        decreases v.len() - i,
    {
        let c: char = v[i];
        if c == from {
            r.push(to);
        } else {
            r.push(c);
        }
        i = i + 1;
        assert(r@ =~= replaced(v@, from, to).take(i as int));
    }
    assert(r@ =~= replaced(v@, from, to));
    r
}

/// What [`find`] finds: no occurrence before it, one at it.
pub proof fn lemma_find(s: Seq<char>, c: char, at: nat)
    requires
        at <= s.len(),
    ensures
        at <= find(s, c, at) <= s.len(),
        find(s, c, at) < s.len() ==> s[find(s, c, at) as int] == c,
        forall|i: int| at <= i < find(s, c, at) ==> s[i] != c,
    decreases s.len() - at,
{
    if at < s.len() && s[at as int] != c {
        lemma_find(s, c, at + 1);
    }
}

/// The index of the first `c` at or after `at`, or the length.
pub fn find_char(v: &Vec<char>, c: char, at: usize) -> (r: usize)
    requires
        at <= v.len(),
    ensures
        r == find(v@, c, at as nat),
        at <= r <= v.len(),
        r < v.len() ==> v[r as int] == c,
        forall|i: int| at <= i < r ==> v[i] != c,
{
    let mut i: usize = at;
    while i < v.len() && v[i] != c
        invariant
            at <= i <= v.len(),
            forall|k: int| at <= k < i ==> v[k] != c,
            find(v@, c, at as nat) == find(v@, c, i as nat),
        decreases v.len() - i,
    {
        i = i + 1;
    }
    i
}

/// [`split_at_first`] of a text.
pub fn split_once(v: &Vec<char>, c: char) -> (r: Option<(Vec<char>, Vec<char>)>)
    ensures
        match (r, split_at_first(v@, c)) {
            (Some(p), Some(q)) => p.0@ == q.0 && p.1@ == q.1,
            (None, None) => true,
            _ => false,
        },
        r is Some ==> (r->0).0@ + seq![c] + (r->0).1@ == v@,
        r is Some ==> !(r->0).0@.contains(c),
        r is None ==> !v@.contains(c),
{
    let i: usize = find_char(v, c, 0);
    if i < v.len() {
        let a = slice(v, 0, i);
        let b = slice(v, i + 1, v.len());
        assert(a@ =~= v@.take(i as int));
        assert(b@ =~= v@.skip(i + 1));
        assert(a@ + seq![c] + b@ =~= v@);
        Some((a, b))
    } else {
        None
    }
}

fn count_white(v: &Vec<char>, from: usize) -> (r: usize)
    requires
        from <= v.len(),
    ensures
        r == leading_white(v@.skip(from as int)),
        from + r <= v.len(),
{
    let mut i: usize = from;
    while i < v.len() && white(v[i])
        invariant
            from <= i <= v.len(),
            leading_white(v@.skip(from as int)) == i - from + leading_white(v@.skip(i as int)),
        decreases v.len() - i,
    {
        assert(v@.skip(i as int).skip(1) =~= v@.skip(i + 1));
        i = i + 1;
    }
    i - from
}

/// [`trimmed`] of a text.
pub fn trim(v: &Vec<char>) -> (r: Vec<char>)
    ensures
        r@ == trimmed(v@),
{
    assert(v@.skip(0) =~= v@);
    let from: usize = count_white(v, 0);
    let ghost t = v@.skip(from as int);
    let mut to: usize = v.len();
    assert(t =~= v@.subrange(from as int, to as int));
    while to > from && white(v[to - 1])
        invariant
            from <= to <= v.len(),
            trimmed_end(t) == trimmed_end(v@.subrange(from as int, to as int)),
        decreases to,
    {
        assert(v@.subrange(from as int, to as int).drop_last() =~= v@.subrange(
            from as int,
            to - 1,
        ));
        to = to - 1;
    }
    slice(v, from, to)
}

/// [`trimmed_end`] of a text.
pub fn trim_end(v: &Vec<char>) -> (r: Vec<char>)
    ensures
        r@ == trimmed_end(v@),
{
    let mut to: usize = v.len();
    assert(v@ =~= v@.subrange(0, to as int));
    while to > 0 && white(v[to - 1])
        invariant
            to <= v.len(),
            trimmed_end(v@) == trimmed_end(v@.subrange(0, to as int)),
        decreases to,
    {
        assert(v@.subrange(0, to as int).drop_last() =~= v@.subrange(0, to - 1));
        to = to - 1;
    }
    slice(v, 0, to)
}

/// [`first_word`] of a text.
pub fn word(v: &Vec<char>) -> (r: Vec<char>)
    ensures
        r@ == first_word(v@),
{
    assert(v@.skip(0) =~= v@);
    let from: usize = count_white(v, 0);
    let ghost t = v@.skip(from as int);
    let mut to: usize = from;
    while to < v.len() && !white(v[to])
        invariant
            from <= to <= v.len(),
            leading_black(t) == to - from + leading_black(v@.skip(to as int)),
            t == v@.skip(from as int),
        decreases v.len() - to,
    {
        assert(v@.skip(to as int).skip(1) =~= v@.skip(to + 1));
        to = to + 1;
    }
    assert(v@.subrange(from as int, to as int) =~= t.take(to - from));
    slice(v, from, to)
}

/// The views of a list of texts.
pub open spec fn views(v: Seq<Vec<char>>) -> Seq<Seq<char>> {
    Seq::new(v.len(), |i: int| v[i]@)
}

/// [`lines_of`] of a text.
pub fn lines(v: &Vec<char>) -> (r: Vec<Vec<char>>)
    ensures
        views(r@) == lines_of(v@),
{
    let mut r: Vec<Vec<char>> = Vec::new();
    let mut at: usize = 0;
    assert(v@.skip(0) =~= v@);
    assert(views(r@) + lines_of(v@.skip(0)) =~= lines_of(v@));
    while at < v.len()
        invariant
            at <= v.len(),
            views(r@) + lines_of(v@.skip(at as int)) == lines_of(v@),
        decreases v.len() - at,
    {
        let i: usize = find_char(v, '\n', at);
        let ghost rest = v@.skip(at as int);
        let ghost before = views(r@);
        proof {
            lemma_find_skip(v@, '\n', at as nat, at as nat);
        }
        if i < v.len() {
            let mut end: usize = i;
            if end > at && v[end - 1] == '\r' {
                end = end - 1;
            }
            let line = slice(v, at, end);
            assert(line@ =~= without_cr(rest.take(i - at)));
            assert(rest.skip(i - at + 1) =~= v@.skip(i + 1));
            r.push(line);
            assert(views(r@) =~= before.push(line@));
            assert(before.push(line@) + lines_of(v@.skip(i + 1)) =~= before + (seq![line@]
                + lines_of(v@.skip(i + 1))));
            at = i + 1;
        } else {
            let line = slice(v, at, v.len());
            assert(line@ =~= rest);
            r.push(line);
            assert(views(r@) =~= before + seq![rest]);
            assert(lines_of(v@.skip(v@.len() as int)) =~= Seq::empty());
            assert(views(r@) + Seq::<Seq<char>>::empty() =~= views(r@));
            at = v.len();
        }
    }
    assert(lines_of(v@.skip(at as int)) =~= Seq::empty());
    assert(views(r@) + Seq::<Seq<char>>::empty() =~= views(r@));
    r
}

/// Finding in what is left of a text is finding in the text.
proof fn lemma_find_skip(s: Seq<char>, c: char, base: nat, at: nat)
    requires
        base <= at <= s.len(),
    ensures
        find(s, c, at) == base + find(s.skip(base as int), c, (at - base) as nat),
    decreases s.len() - at,
{
    if at < s.len() && s[at as int] != c {
        lemma_find_skip(s, c, base, at + 1);
    }
}

/// Whether `v` ends in `suffix`.
pub fn ends_with(v: &Vec<char>, suffix: &Vec<char>) -> (r: bool)
    ensures
        r == suffix@.is_suffix_of(v@),
{
    if suffix.len() > v.len() {
        return false;
    }
    is_at(v, suffix, v.len() - suffix.len())
}

/// `s` without the `suffix`es that it ends in, however many.
pub open spec fn stripped_end(s: Seq<char>, suffix: Seq<char>) -> Seq<char>
    decreases s.len(),
{
    if suffix.len() > 0 && suffix.is_suffix_of(s) {
        stripped_end(s.take(s.len() - suffix.len()), suffix)
    } else {
        s
    }
}

/// [`stripped_end`] of a text.
pub fn strip_end(v: &Vec<char>, suffix: &Vec<char>) -> (r: Vec<char>)
    requires
        suffix.len() > 0,
    ensures
        r@ == stripped_end(v@, suffix@),
{
    let mut r: Vec<char> = slice(v, 0, v.len());
    assert(r@ =~= v@);
    while ends_with(&r, suffix)
        invariant
            suffix.len() > 0,
            stripped_end(v@, suffix@) == stripped_end(r@, suffix@),
        decreases r.len(),
    {
        let shorter: Vec<char> = slice(&r, 0, r.len() - suffix.len());
        assert(shorter@ =~= r@.take(r.len() - suffix.len()));
        r = shorter;
    }
    r
}

/// The index of the last `c` of `s`, if it has one.
pub open spec fn find_last(s: Seq<char>, c: char) -> Option<nat>
    decreases s.len(),
{
    if s.len() == 0 {
        None
    } else if s.last() == c {
        Some((s.len() - 1) as nat)
    } else {
        find_last(s.drop_last(), c)
    }
}

/// [`find_last`] in a text.
pub fn rfind_char(v: &Vec<char>, c: char) -> (r: Option<usize>)
    ensures
        match (r, find_last(v@, c)) {
            (Some(a), Some(b)) => a == b && a < v.len(),
            (None, None) => true,
            _ => false,
        },
        r is Some ==> v[r->0 as int] == c,
        r is Some ==> forall|i: int| r->0 < i < v.len() ==> v[i] != c,
        r is None ==> forall|i: int| 0 <= i < v.len() ==> v[i] != c,
{
    let mut to: usize = v.len();
    assert(v@.take(to as int) =~= v@);
    while to > 0
        invariant
            to <= v.len(),
            forall|i: int| to <= i < v.len() ==> v[i] != c,
            find_last(v@, c) == find_last(v@.take(to as int), c),
        decreases to,
    {
        assert(v@.take(to as int).drop_last() =~= v@.take(to - 1));
        if v[to - 1] == c {
            return Some(to - 1);
        }
        to = to - 1;
    }
    None
}

/// Whether `a` comes before `b`, character by character.
pub open spec fn before(a: Seq<char>, b: Seq<char>) -> bool
    decreases a.len(),
{
    if b.len() == 0 {
        false
    } else if a.len() == 0 {
        true
    } else if a[0] == b[0] {
        before(a.skip(1), b.skip(1))
    } else {
        (a[0] as int) < (b[0] as int)
    }
}

/// [`before`] of two texts.
pub fn comes_before(a: &Vec<char>, b: &Vec<char>) -> (r: bool)
    ensures
        r == before(a@, b@),
{
    let mut i: usize = 0;
    assert(a@.skip(0) =~= a@);
    assert(b@.skip(0) =~= b@);
    while i < a.len() && i < b.len() && a[i] == b[i]
        invariant
            i <= a.len(),
            i <= b.len(),
            before(a@, b@) == before(a@.skip(i as int), b@.skip(i as int)),
        decreases a.len() - i,
    {
        assert(a@.skip(i as int).skip(1) =~= a@.skip(i + 1));
        assert(b@.skip(i as int).skip(1) =~= b@.skip(i + 1));
        i = i + 1;
    }
    if i >= b.len() {
        false
    } else if i >= a.len() {
        true
    } else {
        let x: char = a[i];
        let y: char = b[i];
        x < y
    }
}

/// Whether `needle` occurs in `hay` at `at`.
fn is_at(hay: &Vec<char>, needle: &Vec<char>, at: usize) -> (r: bool)
    requires
        at + needle.len() <= hay.len(),
    ensures
        r == occurs_at(hay@, needle@, at as int),
{
    let ghost window = hay@.subrange(at as int, at + needle.len());
    let mut i: usize = 0;
    while i < needle.len()
        invariant
            i <= needle.len(),
            at + needle.len() <= hay.len(),
            window == hay@.subrange(at as int, at + needle.len()),
            forall|k: int| 0 <= k < i ==> window[k] == needle@[k],
        decreases needle.len() - i,
    {
        if hay[at + i] != needle[i] {
            assert(window[i as int] != needle@[i as int]);
            return false;
        }
        i = i + 1;
    }
    assert(window =~= needle@);
    true
}

/// Whether `needle` occurs in `hay`.
pub fn holds(hay: &Vec<char>, needle: &Vec<char>) -> (r: bool)
    ensures
        r == contains(hay@, needle@),
{
    if needle.len() > hay.len() {
        return false;
    }
    let last: usize = hay.len() - needle.len();
    let mut at: usize = 0;
    while at < last
        invariant
            at <= last,
            last == hay.len() - needle.len(),
            forall|k: int| 0 <= k < at ==> !occurs_at(hay@, needle@, k),
        decreases last - at,
    {
        if is_at(hay, needle, at) {
            return true;
        }
        at = at + 1;
    }
    is_at(hay, needle, last)
}

/// Whether `v` begins with `prefix`.
pub fn starts_with(v: &Vec<char>, prefix: &Vec<char>) -> (r: bool)
    ensures
        r == prefix@.is_prefix_of(v@),
{
    if prefix.len() > v.len() {
        return false;
    }
    let r: bool = is_at(v, prefix, 0);
    r
}

fn digit(c: char, radix: u64) -> (r: Option<u64>)
    requires
        radix <= 36,
    ensures
        match (r, digit_value(c, radix as nat)) {
            (Some(a), Some(b)) => a == b && a < radix,
            (None, None) => true,
            _ => false,
        },
{
    let n: u32 = c as u32;
    let v: u64 = if 0x30 <= n && n <= 0x39 {
        (n - 0x30) as u64
    } else if 0x61 <= n && n <= 0x7a {
        (n - 0x61 + 10) as u64
    } else if 0x41 <= n && n <= 0x5a {
        (n - 0x41 + 10) as u64
    } else {
        radix
    };
    if v < radix {
        Some(v)
    } else {
        None
    }
}

/// More digits never make a number smaller, nor a non-number a number.
proof fn lemma_digits_prefix(s: Seq<char>, radix: nat, k: int)
    requires
        0 <= k <= s.len(),
        radix >= 1,
    ensures
        digits_value(s.take(k), radix) is None ==> digits_value(s, radix) is None,
        digits_value(s, radix) is Some ==> digits_value(s.take(k), radix)->0 <= digits_value(
            s,
            radix,
        )->0,
    decreases s.len(),
{
    if k == s.len() {
        assert(s.take(k) =~= s);
    } else {
        assert(s.drop_last().take(k) =~= s.take(k));
        lemma_digits_prefix(s.drop_last(), radix, k);
        if digits_value(s, radix) is Some {
            let v = digits_value(s.drop_last(), radix)->0;
            assert(v <= v * radix) by (nonlinear_arith)
                requires
                    radix >= 1,
            ;
        }
    }
}

/// [`parsed`] of a text.
pub fn parse(v: &Vec<char>, radix: u64, limit: u64) -> (r: Option<u64>)
    requires
        2 <= radix <= 36,
    ensures
        match (r, parsed(v@, radix as nat, limit as nat)) {
            (Some(a), Some(b)) => a == b && a <= limit,
            (None, None) => true,
            _ => false,
        },
{
    let from: usize = if v.len() > 0 && v[0] == '+' { 1 } else { 0 };
    let ghost digits = v@.skip(from as int);
    assert(from == 0 ==> digits =~= v@);
    if from == v.len() {
        return None;
    }
    let mut n: u64 = 0;
    let mut i: usize = from;
    assert(digits.take(0) =~= Seq::empty());
    while i < v.len()
        invariant
            from <= i <= v.len(),
            2 <= radix <= 36,
            n <= limit,
            from < v.len(),
            from == if v@[0] == '+' { 1int } else { 0 },
            digits == v@.skip(from as int),
            from == 0 ==> digits == v@,
            digits_value(digits.take(i - from), radix as nat) == Some(n as nat),
        decreases v.len() - i,
    {
        let ghost k = i - from;
        assert(digits.take(k + 1).drop_last() =~= digits.take(k));
        proof {
            lemma_digits_prefix(digits, radix as nat, k + 1);
        }
        let d: u64 = match digit(v[i], radix) {
            Some(d) => d,
            None => {
                return None;
            },
        };
        assert(n * radix <= 0xffff_ffff_ffff_ffff * 36) by (nonlinear_arith)
            requires
                n <= 0xffff_ffff_ffff_ffff,
                radix <= 36,
        ;
        let wide: u128 = n as u128 * radix as u128;
        let wide: u128 = wide + d as u128;
        assert(wide == n * radix + d);
        if wide > limit as u128 {
            return None;
        }
        n = wide as u64;
        i = i + 1;
    }
    assert(digits.take(i - from) =~= digits);
    Some(n)
}

/// [`decimal`] of a number.
pub fn show(n: u64) -> (r: String)
    ensures
        r@ == decimal(n as nat),
    decreases n,
{
    let mut s: String = if n < 10 { String::new() } else { show(n / 10) };
    let d: u8 = 48 + (n % 10) as u8;
    push_char(&mut s, d as char);
    assert(n < 10 ==> s@ =~= seq![digit_char(n as nat)]);
    s
}

/// The character of a hexadecimal digit.
pub open spec fn hex_char(d: nat) -> char {
    if d < 10 {
        digit_char(d)
    } else {
        (87 + d) as u8 as char
    }
}

/// `n` in hexadecimal, lower case.
pub open spec fn hexadecimal(n: nat) -> Seq<char>
    decreases n,
{
    if n < 16 {
        seq![hex_char(n)]
    } else {
        hexadecimal(n / 16).push(hex_char(n % 16))
    }
}

/// [`hexadecimal`] of a number.
pub fn show_hex(n: u64) -> (r: String)
    ensures
        r@ == hexadecimal(n as nat),
    decreases n,
{
    let mut s: String = if n < 16 { String::new() } else { show_hex(n / 16) };
    let d: u8 = (n % 16) as u8;
    let code: u8 = if d < 10 { 48 + d } else { 87 + d };
    push_char(&mut s, code as char);
    assert(n < 16 ==> s@ =~= seq![hex_char(n as nat)]);
    s
}

/// [`padded`] of a text.
pub fn pad(s: &str, width: usize) -> (r: String)
    ensures
        r@ == padded(s@, width as nat),
        r@.len() >= width && r@.len() >= s@.len(),
        r@.len() == width || r@.len() == s@.len(),
        forall|i: int| 0 <= i < r@.len() - s@.len() ==> r@[i] == ' ',
        s@.is_suffix_of(r@),
{
    let have: usize = s.unicode_len();
    let mut r: String = String::new();
    let mut i: usize = have;
    assert(r@ =~= Seq::new(0, |k: int| ' '));
    while i < width
        invariant
            have <= i,
            i <= width || i == have,
            r@ == Seq::new((i - have) as nat, |k: int| ' '),
        decreases width - i,
    {
        push_char(&mut r, ' ');
        i = i + 1;
        assert(r@ =~= Seq::new((i - have) as nat, |k: int| ' '));
    }
    r.append(s);
    assert(r@ =~= padded(s@, width as nat));
    r
}

/// A number reads back as itself from its decimal form.
pub proof fn decimal_round_trips(n: nat)
    ensures
        digits_value(decimal(n), 10) == Some(n),
        decimal(n).len() > 0,
        decimal(n)[0] != '+',
        parsed(decimal(n), 10, n) == Some(n),
    decreases n,
{
    if n < 10 {
        assert(decimal(n).drop_last() =~= Seq::empty());
        assert(digits_value(Seq::<char>::empty(), 10) == Some(0nat));
    } else {
        decimal_round_trips(n / 10);
        assert(decimal(n).drop_last() =~= decimal(n / 10));
        assert(decimal(n)[0] == decimal(n / 10)[0]);
    }
}

/// No text comes before itself.
proof fn lemma_before_self(a: Seq<char>)
    ensures
        !before(a, a),
    decreases a.len(),
{
    if a.len() > 0 {
        lemma_before_self(a.skip(1));
    }
}

/// How [`before`] orders texts: strictly, totally and transitively.
pub proof fn lemma_before_order(a: Seq<char>, b: Seq<char>, c: Seq<char>)
    ensures
        !before(a, a),
        before(a, b) ==> !before(b, a),
        !before(a, b) && !before(b, a) ==> a == b,
        before(a, b) && before(b, c) ==> before(a, c),
    decreases a.len() + b.len() + c.len(),
{
    lemma_before_self(a);
    if a.len() > 0 && b.len() > 0 {
        if c.len() > 0 {
            lemma_before_order(a.skip(1), b.skip(1), c.skip(1));
        } else {
            lemma_before_order(a.skip(1), b.skip(1), c);
        }
        if !before(a, b) && !before(b, a) {
            assert(a =~= seq![a[0]] + a.skip(1));
            assert(b =~= seq![b[0]] + b.skip(1));
        }
    } else if a.len() == 0 && b.len() == 0 {
        assert(a =~= b);
    }
}

/// Trimming takes white space off both ends, all of it and nothing else.
pub proof fn trimming_takes_only_white(s: Seq<char>) -> (from: int)
    ensures
        0 <= from <= from + trimmed(s).len() <= s.len(),
        s.subrange(from, from + trimmed(s).len() as int) == trimmed(s),
        forall|i: int| 0 <= i < from ==> is_white(#[trigger] s[i]),
        forall|i: int| from + trimmed(s).len() <= i < s.len() ==> is_white(#[trigger] s[i]),
        trimmed(s).len() > 0 ==> !is_white(trimmed(s)[0]) && !is_white(trimmed(s).last()),
{
    let n = leading_white(s) as int;
    lemma_leading(s);
    let t = s.skip(n);
    lemma_trimmed_end(t);
    let r = trimmed_end(t);
    assert(s.subrange(n, n + r.len() as int) =~= r);
    assert forall|i: int| n + r.len() <= i < s.len() implies is_white(#[trigger] s[i]) by {
        assert(t[i - n] == s[i]);
    }
    if r.len() > 0 {
        assert(r[0] == t[0] && t[0] == s[n]);
    }
    n
}

proof fn lemma_leading(s: Seq<char>)
    ensures
        leading_white(s) <= s.len(),
        forall|i: int| 0 <= i < leading_white(s) ==> is_white(#[trigger] s[i]),
        leading_white(s) < s.len() ==> !is_white(s[leading_white(s) as int]),
        leading_black(s) <= s.len(),
        forall|i: int| 0 <= i < leading_black(s) ==> !is_white(#[trigger] s[i]),
        leading_black(s) < s.len() ==> is_white(s[leading_black(s) as int]),
    decreases s.len(),
{
    if s.len() > 0 {
        let t = s.skip(1);
        lemma_leading(t);
        assert(forall|i: int| 0 <= i < t.len() ==> #[trigger] t[i] == s[i + 1]);
        if is_white(s[0]) {
            assert forall|i: int| 0 <= i < leading_white(s) implies is_white(#[trigger] s[i]) by {
                if i > 0 {
                    assert(is_white(t[i - 1]));
                }
            }
        } else {
            assert forall|i: int| 0 <= i < leading_black(s) implies !is_white(#[trigger] s[i]) by {
                if i > 0 {
                    assert(!is_white(t[i - 1]));
                }
            }
        }
    }
}

proof fn lemma_trimmed_end(s: Seq<char>)
    ensures
        trimmed_end(s).len() <= s.len(),
        trimmed_end(s) == s.take(trimmed_end(s).len() as int),
        forall|i: int| trimmed_end(s).len() <= i < s.len() ==> is_white(#[trigger] s[i]),
        trimmed_end(s).len() > 0 ==> !is_white(trimmed_end(s).last()),
    decreases s.len(),
{
    if s.len() > 0 && is_white(s.last()) {
        let t = s.drop_last();
        lemma_trimmed_end(t);
        assert(s.take(trimmed_end(s).len() as int) =~= t.take(trimmed_end(t).len() as int));
        assert forall|i: int| trimmed_end(s).len() <= i < s.len() implies is_white(
            #[trigger] s[i],
        ) by {
            if i < t.len() {
                assert(t[i] == s[i]);
            }
        }
    } else {
        assert(s.take(s.len() as int) =~= s);
    }
}

/// Trimming the end takes white space off it, all of it and nothing else.
pub proof fn end_trimming_takes_only_white(s: Seq<char>)
    ensures
        trimmed_end(s).len() <= s.len(),
        trimmed_end(s) == s.take(trimmed_end(s).len() as int),
        forall|i: int| trimmed_end(s).len() <= i < s.len() ==> is_white(#[trigger] s[i]),
        trimmed_end(s).len() > 0 ==> !is_white(trimmed_end(s).last()),
{
    lemma_trimmed_end(s);
}

/// The first word has no white space in it, only white space before it, and
/// white space or nothing behind it. It is empty only where there is no word.
pub proof fn the_first_word_is_whole(s: Seq<char>) -> (from: int)
    ensures
        0 <= from <= from + first_word(s).len() <= s.len(),
        s.subrange(from, from + first_word(s).len() as int) == first_word(s),
        forall|i: int| 0 <= i < from ==> is_white(#[trigger] s[i]),
        forall|i: int| 0 <= i < first_word(s).len() ==> !is_white(#[trigger] first_word(s)[i]),
        from + first_word(s).len() < s.len() ==> is_white(s[from + first_word(s).len()]),
        first_word(s).len() == 0 ==> from == s.len(),
{
    let n = leading_white(s) as int;
    lemma_leading(s);
    let t = s.skip(n);
    lemma_leading(t);
    let w = first_word(s);
    assert(s.subrange(n, n + w.len() as int) =~= w);
    assert forall|i: int| 0 <= i < w.len() implies !is_white(#[trigger] w[i]) by {
        assert(w[i] == t[i]);
    }
    if n + w.len() < s.len() {
        assert(t[w.len() as int] == s[n + w.len()]);
    }
    if n < s.len() {
        assert(t[0] == s[n]);
    }
    n
}

/// A line feed ends a line and starts the next, and a carriage return right
/// before it belongs to neither. Text without one is one line, if it is any.
pub proof fn line_feeds_end_lines(a: Seq<char>, rest: Seq<char>)
    requires
        !a.contains('\n'),
    ensures
        lines_of(a + seq!['\n'] + rest).len() == 1 + lines_of(rest).len(),
        lines_of(a + seq!['\n'] + rest).skip(1) == lines_of(rest),
        a.len() > 0 && a.last() == '\r' ==> lines_of(a + seq!['\n'] + rest)[0] == a.drop_last(),
        a.len() == 0 || a.last() != '\r' ==> lines_of(a + seq!['\n'] + rest)[0] == a,
        a.len() > 0 ==> lines_of(a) == seq![a],
        lines_of(Seq::<char>::empty()).len() == 0,
{
    let s = a + seq!['\n'] + rest;
    lemma_find(s, '\n', 0);
    let i = find(s, '\n', 0) as int;
    assert(s[a.len() as int] == '\n');
    if i < a.len() {
        assert(a[i] == '\n');
    }
    assert(i == a.len());
    assert(s.take(i) =~= a);
    assert(s.skip(i + 1) =~= rest);
    assert(lines_of(s) == seq![without_cr(a)] + lines_of(rest));
    assert(lines_of(s).skip(1) =~= lines_of(rest));
    lemma_find(a, '\n', 0);
    if find(a, '\n', 0) < a.len() {
        assert(a[find(a, '\n', 0) as int] == '\n');
    }
}

/// A text is found wherever it stands in another, and only there.
pub proof fn texts_hold_their_parts(a: Seq<char>, needle: Seq<char>, b: Seq<char>, hay: Seq<char>)
    ensures
        contains(a + needle + b, needle),
        contains(hay, needle) ==> exists|at: int|
            0 <= at && at + needle.len() <= hay.len() && #[trigger] hay.subrange(
                at,
                at + needle.len(),
            ) == needle,
        needle.len() > hay.len() ==> !contains(hay, needle),
{
    let s = a + needle + b;
    let n = a.len() as int;
    assert(s.subrange(n, n + needle.len()) =~= needle);
    assert(occurs_at(s, needle, n));
    if contains(hay, needle) {
        let at = choose|at: int| occurs_at(hay, needle, at);
        assert(hay.subrange(at, at + needle.len()) == needle);
    }
}

/// Stripping a suffix takes off one after the other, until there is none.
pub proof fn stripping_leaves_no_suffix(s: Seq<char>, suffix: Seq<char>)
    requires
        suffix.len() > 0,
    ensures
        stripped_end(s + suffix, suffix) == stripped_end(s, suffix),
        !suffix.is_suffix_of(s) ==> stripped_end(s, suffix) == s,
        !suffix.is_suffix_of(stripped_end(s, suffix)),
    decreases s.len(),
{
    assert((s + suffix).take(s.len() as int) =~= s);
    assert((s + suffix).skip(s.len() as int) =~= suffix);
    assert(suffix.is_suffix_of(s + suffix));
    if suffix.is_suffix_of(s) {
        stripping_leaves_no_suffix(s.take(s.len() - suffix.len()), suffix);
    }
}

/// Texts are ordered by the first character in which they differ, and where
/// one begins the other the shorter one comes first.
pub proof fn texts_are_ordered_by_their_first_difference(
    p: Seq<char>,
    a: Seq<char>,
    b: Seq<char>,
)
    ensures
        before(p + a, p + b) == before(a, b),
        b.len() > 0 ==> before(p, p + b),
        a.len() > 0 && b.len() > 0 && (a[0] as int) < (b[0] as int) ==> before(p + a, p + b),
        a.len() > 0 && b.len() > 0 && (a[0] as int) > (b[0] as int) ==> !before(p + a, p + b),
    decreases p.len(),
{
    if p.len() == 0 {
        assert(p + a =~= a);
        assert(p + b =~= b);
    } else {
        texts_are_ordered_by_their_first_difference(p.skip(1), a, b);
        assert((p + a).skip(1) =~= p.skip(1) + a);
        assert((p + b).skip(1) =~= p.skip(1) + b);
    }
}

/// Digits are worth what they are worth in writing, letters in either case.
pub proof fn digits_are_worth_their_place(s: Seq<char>, c: char, radix: nat)
    requires
        2 <= radix <= 36,
    ensures
        0x30 <= c as u32 <= 0x39 && c as u32 - 0x30 < radix ==> digit_value(c, radix) == Some(
            (c as u32 - 0x30) as nat,
        ),
        0x61 <= c as u32 <= 0x7a && c as u32 - 0x57 < radix ==> digit_value(c, radix) == Some(
            (c as u32 - 0x57) as nat,
        ),
        0x41 <= c as u32 <= 0x5a && c as u32 - 0x37 < radix ==> digit_value(c, radix) == Some(
            (c as u32 - 0x37) as nat,
        ),
        (c as u32) < 0x30 || 0x39 < (c as u32) < 0x41 || 0x5a < (c as u32) < 0x61 || 0x7a < c as u32
            ==> digit_value(c, radix) is None,
        digit_value(c, radix) is Some ==> digit_value(c, radix)->0 < radix,
        digits_value(Seq::<char>::empty(), radix) == Some(0nat),
        digits_value(s, radix) is Some && digit_value(c, radix) is Some ==> digits_value(
            s.push(c),
            radix,
        ) == Some(digits_value(s, radix)->0 * radix + digit_value(c, radix)->0),
        digits_value(s, radix) is None || digit_value(c, radix) is None ==> digits_value(
            s.push(c),
            radix,
        ) is None,
{
    assert(s.push(c).drop_last() =~= s);
}

/// A number parses exactly if it is digits, at least one, that fit; a plus
/// sign in front changes nothing.
pub proof fn numbers_parse_by_their_digits(s: Seq<char>, radix: nat, limit: nat)
    requires
        2 <= radix <= 36,
        s.len() == 0 || s[0] != '+',
    ensures
        s.len() > 0 && digits_value(s, radix) is Some && digits_value(s, radix)->0 <= limit
            ==> parsed(s, radix, limit) == digits_value(s, radix),
        s.len() > 0 && digits_value(s, radix) is Some && digits_value(s, radix)->0 > limit
            ==> parsed(s, radix, limit) is None,
        s.len() == 0 || digits_value(s, radix) is None ==> parsed(s, radix, limit) is None,
        parsed(seq!['+'] + s, radix, limit) == parsed(s, radix, limit),
{
    assert((seq!['+'] + s).skip(1) =~= s);
}

/// Decimal numbers are written with decimal digits, the first of them zero
/// only for zero.
pub proof fn decimals_are_plain(n: nat, i: int)
    requires
        0 <= i < decimal(n).len(),
    ensures
        0x30 <= decimal(n)[i] as u32 <= 0x39,
        n > 0 ==> decimal(n)[0] != '0',
        n == 0 ==> decimal(n) == seq!['0'],
    decreases n,
{
    if n >= 10 {
        decimal_round_trips(n / 10);
        if i < decimal(n / 10).len() {
            decimals_are_plain(n / 10, i);
        } else {
            decimals_are_plain(n / 10, 0);
        }
        assert(decimal(n)[0] == decimal(n / 10)[0]);
    } else {
        assert(n == 0 ==> decimal(n) =~= seq!['0']);
    }
}

/// A number reads back from its hexadecimal form, which is in lower case and
/// starts with zero only for zero.
pub proof fn hexadecimals_round_trip(n: nat, i: int)
    requires
        0 <= i < hexadecimal(n).len(),
    ensures
        digits_value(hexadecimal(n), 16) == Some(n),
        0x30 <= hexadecimal(n)[i] as u32 <= 0x39 || 0x61 <= hexadecimal(n)[i] as u32 <= 0x66,
        n > 0 ==> hexadecimal(n)[0] != '0',
    decreases n,
{
    if n < 16 {
        assert(hexadecimal(n).drop_last() =~= Seq::empty());
        assert(digits_value(Seq::<char>::empty(), 16) == Some(0nat));
    } else {
        let h = hexadecimal(n / 16);
        assert(h.len() > 0);
        assert(hexadecimal(n).drop_last() =~= h);
        if i < h.len() {
            hexadecimals_round_trip(n / 16, i);
            assert(hexadecimal(n)[i] == h[i]);
        } else {
            hexadecimals_round_trip(n / 16, 0);
        }
        assert(hexadecimal(n)[0] == h[0]);
    }
}

/// White space is what Unicode calls white space, control characters are the
/// two ranges of them, and lowering moves the capitals of ASCII alone.
pub proof fn characters_are_classed_by_code(c: char)
    ensures
        is_white(c) <==> {
            let n = c as u32;
            n == 0x20 || n == 0x09 || n == 0x0a || n == 0x0b || n == 0x0c || n == 0x0d || n == 0x85
                || n == 0xa0 || n == 0x1680 || 0x2000 <= n <= 0x200a || n == 0x2028 || n == 0x2029
                || n == 0x202f || n == 0x205f || n == 0x3000
        },
        is_control(c) <==> (c as u32) < 0x20 || 0x7f <= (c as u32) < 0xa0,
        0x41 <= (c as u32) <= 0x5a ==> lower(c) as u32 == c as u32 + 0x20,
        (c as u32) < 0x41 || (c as u32) > 0x5a ==> lower(c) == c,
{
}

/// Replacing changes every occurrence in place and no other character;
/// lowering goes character by character.
pub proof fn texts_change_in_place(s: Seq<char>, from: char, to: char, i: int)
    requires
        0 <= i < s.len(),
    ensures
        replaced(s, from, to).len() == s.len(),
        s[i] == from ==> replaced(s, from, to)[i] == to,
        s[i] != from ==> replaced(s, from, to)[i] == s[i],
        lowered(s).len() == s.len(),
        lowered(s)[i] == lower(s[i]),
{
}

/// A text is split at the first occurrence, which belongs to neither part, and
/// not at all without one.
pub proof fn texts_split_at_the_first(a: Seq<char>, c: char, rest: Seq<char>)
    requires
        !a.contains(c),
    ensures
        split_at_first(a + seq![c] + rest, c) == Some((a, rest)),
        split_at_first(a, c) is None,
        find(a + seq![c] + rest, c, 0) == a.len(),
        find(a, c, 0) == a.len(),
{
    let s = a + seq![c] + rest;
    lemma_find(s, c, 0);
    lemma_find(a, c, 0);
    let i = find(s, c, 0) as int;
    assert(s[a.len() as int] == c);
    if i < a.len() {
        assert(a[i] == c);
    }
    assert(s.take(i) =~= a);
    assert(s.skip(i + 1) =~= rest);
    if find(a, c, 0) < a.len() {
        assert(a[find(a, c, 0) as int] == c);
    }
}

/// The last occurrence is the one that none follows.
pub proof fn the_last_occurrence_is_found(s: Seq<char>, c: char, i: int)
    requires
        0 <= i < s.len(),
        forall|k: int| i < k < s.len() ==> s[k] != c,
    ensures
        s[i] == c ==> find_last(s, c) == Some(i as nat),
        i == 0 && s[i] != c ==> find_last(s, c) is None,
        find_last(Seq::<char>::empty(), c) is None,
    decreases s.len(),
{
    if i < s.len() - 1 {
        assert(s[s.len() - 1] != c);
        let t = s.drop_last();
        assert forall|k: int| i < k < t.len() implies t[k] != c by {
            assert(s[k] != c);
        }
        the_last_occurrence_is_found(t, c, i);
    } else if s[i] != c {
        assert(i == 0 ==> s.drop_last() =~= Seq::<char>::empty());
        assert(find_last(Seq::<char>::empty(), c) is None);
    }
}

/// Padding puts blanks before a text until it is wide enough, and none before
/// one that is.
pub proof fn padding_goes_in_front(s: Seq<char>, width: nat, i: int)
    ensures
        s.len() >= width ==> padded(s, width) == s,
        s.len() < width ==> padded(s, width).len() == width,
        s.len() < width && 0 <= i < width - s.len() ==> padded(s, width)[i] == ' ',
        s.len() < width && 0 <= i < s.len() ==> padded(s, width)[width - s.len() + i] == s[i],
{
}

} // verus!
