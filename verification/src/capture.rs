//! Frame capture: which frames were asked for, where they go, and how the
//! presented image's pixels unpack into the picture that is written.

use crate::text::{chars, decimal, joined, show};
use vstd::prelude::*;
use vstd::string::*;

verus! {

/// Requested captures, oldest first, and the last capture's outcome. A queue
/// rather than a slot, so a burst asks for consecutive frames rather than
/// overwriting itself.
pub struct CaptureQueue {
    pub pending: Vec<String>,
    pub result: Option<Result<String, String>>,
}

/// The views of a list of texts.
pub open spec fn texts(v: Seq<String>) -> Seq<Seq<char>> {
    Seq::new(v.len(), |i: int| v[i]@)
}

/// An outcome, with its text as a sequence.
pub open spec fn outcome(r: Option<Result<String, String>>) -> Option<Result<Seq<char>, Seq<char>>> {
    match r {
        Some(Ok(s)) => Some(Ok(s@)),
        Some(Err(e)) => Some(Err(e@)),
        None => None,
    }
}

/// The file `name` in the directory `dir`.
pub open spec fn file_in(dir: Seq<char>, name: Seq<char>) -> Seq<char> {
    if dir.len() == 0 {
        name
    } else if dir.last() == '/' {
        dir + name
    } else {
        dir + "/"@ + name
    }
}

/// [`file_in`].
pub fn join_path(dir: &str, name: &str) -> (r: String)
    ensures
        r@ == file_in(dir@, name@),
{
    let d: Vec<char> = chars(dir);
    if d.len() == 0 {
        name.to_owned()
    } else if d[d.len() - 1] == '/' {
        joined(dir.to_owned(), name)
    } else {
        joined(joined(dir.to_owned(), "/"), name)
    }
}

/// Where captures go when no path is given: the directory that the environment
/// names, else one that version control ignores.
pub fn shot_dir(engine_shot_dir: Option<&str>) -> (r: String)
    ensures
        r@ == match engine_shot_dir {
            Some(d) => d@,
            None => "target/shots"@,
        },
{
    match engine_shot_dir {
        Some(d) => d.to_owned(),
        None => "target/shots".to_owned(),
    }
}

/// The path that a capture goes to: the one asked for, or one in `dir` named
/// after the time.
pub open spec fn shot_path(path: Option<&str>, dir: Seq<char>, millis: nat) -> Seq<char> {
    if path is Some && path->0@.len() > 0 {
        path->0@
    } else {
        file_in(dir, "shot-"@ + decimal(millis) + ".png"@)
    }
}

impl CaptureQueue {
    pub fn new() -> (r: Self)
        ensures
            r.pending@.len() == 0,
            r.result is None,
    {
        CaptureQueue { pending: Vec::new(), result: None }
    }

    /// Stores the outcome of a capture that the renderer finished.
    pub fn finish(&mut self, outcome: Result<String, String>)
        ensures
            final(self).result == Some(outcome),
            final(self).pending == old(self).pending,
    {
        self.result = Some(outcome);
    }
}

/// Ask for the next frame. The result is the path it will be written to.
pub fn request(
    queue: &mut CaptureQueue,
    path: Option<&str>,
    dir: &str,
    millis: u64,
) -> (r: String)
    ensures
        r@ == shot_path(path, dir@, millis as nat),
        texts(final(queue).pending@) == texts(old(queue).pending@).push(r@),
        final(queue).result is None,
{
    let fallback: bool = match path {
        Some(p) => p.is_empty(),
        None => true,
    };
    let to: String = if fallback {
        let name: String = joined(joined("shot-".to_owned(), show(millis).as_str()), ".png");
        join_path(dir, name.as_str())
    } else {
        match path {
            Some(p) => p.to_owned(),
            None => String::new(),
        }
    };
    let ghost before = texts(queue.pending@);
    queue.result = None;
    queue.pending.push(to.clone());
    assert(texts(queue.pending@) =~= before.push(to@));
    to
}

/// The outcome of the most recent capture, once the renderer has finished it.
pub fn result(queue: &CaptureQueue) -> (r: Option<Result<String, String>>)
    ensures
        outcome(r) == outcome(queue.result),
{
    match &queue.result {
        Some(Ok(s)) => Some(Ok(s.clone())),
        Some(Err(e)) => Some(Err(e.clone())),
        None => None,
    }
}

/// Takes the oldest request off the queue.
pub fn pending(queue: &mut CaptureQueue) -> (r: Option<String>)
    ensures
        final(queue).result == old(queue).result,
        old(queue).pending.len() == 0 ==> r is None && *final(queue) == *old(queue),
        old(queue).pending.len() > 0 ==> r == Some(old(queue).pending[0])
            && final(queue).pending@ == old(queue).pending@.skip(1),
{
    if queue.pending.len() == 0 {
        None
    } else {
        let ghost before = queue.pending@;
        let r: String = queue.pending.remove(0);
        assert(queue.pending@ =~= before.skip(1));
        Some(r)
    }
}

/// The bytes of a four-byte-per-pixel image.
pub fn image_bytes(width: u32, height: u32) -> (r: u64)
    requires
        width * height * 4 <= u32::MAX,
    ensures
        r == width * height * 4,
{
    assert(width as u64 * height as u64 <= u32::MAX) by (nonlinear_arith)
        requires
            width * height * 4 <= u32::MAX,
    ;
    width as u64 * height as u64 * 4
}

/// How a surface packs a pixel.
pub enum PixelFormat {
    /// Red, green, blue, alpha: a byte each.
    Rgba8,
    /// Blue, green, red, alpha: a byte each.
    Bgra8,
    /// Ten bits a channel, blue lowest, alpha in the top two.
    A2R10G10B10,
    /// Ten bits a channel, red lowest, alpha in the top two.
    A2B10G10R10,
    /// Any other, by its name.
    Other(String),
}

/// The nearest 8-bit level of a 10-bit channel.
pub open spec fn level(x: int) -> int {
    (x % 1024 * 255 + 511) / 1023
}

/// One 10-bit channel to 8, rounded. Truncating would bias every pixel down by
/// up to one level.
pub fn ten(x: u32) -> (r: u8)
    ensures
        r == level(x as int),
        x < 1024 ==> -511 <= r * 1023 - x * 255 <= 511,
{
    assert(x & 0x3ff == x % 1024) by (bit_vector);
    let c: u32 = x & 0x3ff;
    ((c * 255 + 511) / 1023) as u8
}

/// The four bytes of a pixel as one little-endian number.
pub open spec fn word_of(p: Seq<u8>) -> int {
    p[0] + p[1] * 0x100 + p[2] * 0x1_0000 + p[3] * 0x100_0000
}

/// Red, green and blue of a pixel.
pub open spec fn rgb(format: PixelFormat, p: Seq<u8>) -> Option<(int, int, int)> {
    let v = word_of(p);
    match format {
        PixelFormat::Rgba8 => Some((p[0] as int, p[1] as int, p[2] as int)),
        PixelFormat::Bgra8 => Some((p[2] as int, p[1] as int, p[0] as int)),
        PixelFormat::A2R10G10B10 => Some(
            (level(v / 0x10_0000), level(v / 0x400), level(v)),
        ),
        PixelFormat::A2B10G10R10 => Some(
            (level(v), level(v / 0x400), level(v / 0x10_0000)),
        ),
        PixelFormat::Other(_) => None,
    }
}

/// `out` is the opaque picture of the packed pixels `src`.
pub open spec fn is_picture(format: PixelFormat, src: Seq<u8>, out: Seq<u8>) -> bool {
    &&& out.len() == src.len()
    &&& forall|i: int|
        0 <= i < src.len() / 4 ==> rgb(format, src.subrange(4 * i, 4 * i + 4)) == Some(
            (#[trigger] out[4 * i] as int, out[4 * i + 1] as int, out[4 * i + 2] as int),
        ) && out[4 * i + 3] == 255
    &&& forall|j: int| src.len() / 4 * 4 <= j < src.len() ==> out[j] == 255
}

fn unpack(format: &PixelFormat, p0: u8, p1: u8, p2: u8, p3: u8) -> (r: (u8, u8, u8))
    requires
        !(format is Other),
    ensures
        rgb(*format, seq![p0, p1, p2, p3]) == Some((r.0 as int, r.1 as int, r.2 as int)),
{
    let v: u32 = p0 as u32 + p1 as u32 * 0x100 + p2 as u32 * 0x1_0000 + p3 as u32 * 0x100_0000;
    match format {
        PixelFormat::Rgba8 => (p0, p1, p2),
        PixelFormat::Bgra8 => (p2, p1, p0),
        PixelFormat::A2R10G10B10 => (ten(v / 0x10_0000), ten(v / 0x400), ten(v)),
        PixelFormat::A2B10G10R10 => (ten(v), ten(v / 0x400), ten(v / 0x10_0000)),
        PixelFormat::Other(_) => (0, 0, 0),
    }
}

/// Unpacks a captured image into the picture that is encoded. An unknown
/// format is an error rather than a guess: the wrong unpacking writes a
/// plausible picture with wrong colours.
pub fn write(format: &PixelFormat, src: &Vec<u8>) -> (r: Result<Vec<u8>, String>)
    ensures
        r is Err <==> format is Other,
        r is Ok ==> is_picture(*format, src@, r->Ok_0@),
        r is Err ==> r->Err_0@ == "unsupported swapchain format "@ + format->Other_0@,
{
    match format {
        PixelFormat::Other(name) => {
            return Err(joined("unsupported swapchain format ".to_owned(), name.as_str()));
        },
        _ => {},
    }
    let mut out: Vec<u8> = vec![255u8; src.len()];
    let pixels: usize = src.len() / 4;
    let mut i: usize = 0;
    while i < pixels
        invariant
            i <= pixels,
            pixels == src.len() / 4,
            !(format is Other),
            out.len() == src.len(),
            forall|k: int|
                0 <= k < i ==> rgb(*format, src@.subrange(4 * k, 4 * k + 4)) == Some(
                    (#[trigger] out[4 * k] as int, out[4 * k + 1] as int, out[4 * k + 2] as int),
                ) && out[4 * k + 3] == 255,
            forall|j: int| 4 * i <= j < src.len() ==> out[j] == 255,
        decreases pixels - i,
    {
        let at: usize = 4 * i;
        let c: (u8, u8, u8) = unpack(format, src[at], src[at + 1], src[at + 2], src[at + 3]);
        assert(src@.subrange(4 * i as int, 4 * i as int + 4) =~= seq![
            src[at as int],
            src[at + 1],
            src[at + 2],
            src[at + 3],
        ]);
        out.set(at, c.0);
        out.set(at + 1, c.1);
        out.set(at + 2, c.2);
        i = i + 1;
    }
    Ok(out)
}

/// Rounding a channel is exact at both ends, never off by more than half a
/// level, and keeps the order of brightness.
pub proof fn levels_are_nearest(x: int, y: int)
    requires
        0 <= x < 1024,
        0 <= y < 1024,
    ensures
        level(0) == 0,
        level(1023) == 255,
        -511 <= level(x) * 1023 - x * 255 <= 511,
        x <= y ==> level(x) <= level(y),
{
    assert(x % 1024 == x && y % 1024 == y);
}

/// Captures come off the queue in the order they were asked for.
pub proof fn captures_are_first_in_first_out(queue: Seq<String>, later: String)
    requires
        queue.len() > 0,
    ensures
        queue.push(later)[0] == queue[0],
        queue.push(later).skip(1) == queue.skip(1).push(later),
{
    assert(queue.push(later).skip(1) =~= queue.skip(1).push(later));
}

/// A file lies in its directory, one slash between the two, and beside
/// everything where there is no directory.
pub proof fn files_lie_in_their_directory(dir: Seq<char>, name: Seq<char>)
    ensures
        dir.len() == 0 ==> file_in(dir, name) == name,
        dir.len() > 0 && dir.last() != '/' ==> file_in(dir, name) == dir + seq!['/'] + name,
        dir.len() > 0 && dir.last() == '/' ==> file_in(dir, name) == dir + name,
{
    reveal_strlit("/");
    assert("/"@ =~= seq!['/']);
}

/// A capture goes where it was asked to, and into its directory under the time
/// where no place was given.
pub proof fn captures_go_where_they_were_asked(path: Option<&str>, dir: Seq<char>, millis: nat)
    ensures
        path is Some && path->0@.len() > 0 ==> shot_path(path, dir, millis) == path->0@,
        path is None || path->0@.len() == 0 ==> shot_path(path, dir, millis) == file_in(
            dir,
            "shot-"@ + decimal(millis) + ".png"@,
        ),
{
}

/// The byte formats hold their channels in the order of their name. The packed
/// ones hold ten bits of each channel, the last of the name lowest, and every
/// channel becomes its nearest level.
pub proof fn channels_unpack_by_their_place(p: Seq<u8>, low: int, mid: int, high: int, top: int)
    requires
        p.len() == 4,
        0 <= low < 1024,
        0 <= mid < 1024,
        0 <= high < 1024,
        0 <= top < 4,
    ensures
        rgb(PixelFormat::Rgba8, p) == Some((p[0] as int, p[1] as int, p[2] as int)),
        rgb(PixelFormat::Bgra8, p) == Some((p[2] as int, p[1] as int, p[0] as int)),
        p[0] + 0x100 * p[1] + 0x1_0000 * p[2] + 0x100_0000 * p[3] == low + 0x400 * mid + 0x10_0000
            * high + 0x4000_0000 * top ==> rgb(PixelFormat::A2R10G10B10, p) == Some(
            (level(high), level(mid), level(low)),
        ) && rgb(PixelFormat::A2B10G10R10, p) == Some((level(low), level(mid), level(high))),
{
    let v = word_of(p);
    if v == low + 0x400 * mid + 0x10_0000 * high + 0x4000_0000 * top {
        lemma_three_fields(v, low, mid, high, top);
        lemma_level_wraps(v, low);
        lemma_level_wraps(v / 0x400, mid);
        lemma_level_wraps(v / 0x10_0000, high);
    }
}

/// A level goes by the low ten bits alone.
proof fn lemma_level_wraps(x: int, low: int)
    requires
        x % 1024 == low,
    ensures
        level(x) == level(low),
{
    assert(low % 1024 == low);
}

/// What the three low fields of a number are, and the two above the lowest.
proof fn lemma_three_fields(v: int, low: int, mid: int, high: int, top: int)
    requires
        0 <= low < 1024,
        0 <= mid < 1024,
        0 <= high < 1024,
        0 <= top < 4,
        v == low + 0x400 * mid + 0x10_0000 * high + 0x4000_0000 * top,
    ensures
        v % 1024 == low,
        v / 0x400 % 1024 == mid,
        v / 0x10_0000 % 1024 == high,
{
    let a = mid + 1024 * high + 0x10_0000 * top;
    let b = high + 1024 * top;
    vstd::arithmetic::div_mod::lemma_fundamental_div_mod_converse(v, 1024, a, low);
    vstd::arithmetic::div_mod::lemma_fundamental_div_mod_converse(a, 1024, b, mid);
    vstd::arithmetic::div_mod::lemma_fundamental_div_mod_converse(b, 1024, top, high);
    vstd::arithmetic::div_mod::lemma_fundamental_div_mod_converse(
        v,
        0x10_0000,
        b,
        low + 1024 * mid,
    );
}

/// A picture has a pixel for every pixel of the image, opaque, with its
/// channels in the order red, green, blue.
pub proof fn pictures_keep_every_pixel(src: Seq<u8>, out: Seq<u8>, format: PixelFormat, i: int)
    requires
        is_picture(format, src, out),
        0 <= i < src.len() / 4,
    ensures
        out.len() == src.len(),
        out[4 * i + 3] == 255,
        format is Rgba8 ==> out[4 * i] == src[4 * i] && out[4 * i + 1] == src[4 * i + 1] && out[4
            * i + 2] == src[4 * i + 2],
        format is Bgra8 ==> out[4 * i] == src[4 * i + 2] && out[4 * i + 1] == src[4 * i + 1]
            && out[4 * i + 2] == src[4 * i],
        rgb(format, seq![src[4 * i], src[4 * i + 1], src[4 * i + 2], src[4 * i + 3]]) == Some(
            (out[4 * i] as int, out[4 * i + 1] as int, out[4 * i + 2] as int),
        ),
{
    let p = src.subrange(4 * i, 4 * i + 4);
    assert(p =~= seq![src[4 * i], src[4 * i + 1], src[4 * i + 2], src[4 * i + 3]]);
    assert(rgb(format, p) == Some(
        (out[4 * i] as int, out[4 * i + 1] as int, out[4 * i + 2] as int),
    ));
}

/// An outcome is told apart by whether there is one, whether it is a success,
/// and by its text; a list of texts by each of them.
pub proof fn outcomes_are_told_apart(s: String, v: Seq<String>, i: int)
    ensures
        outcome(Some(Ok(s))) == Some(Ok::<Seq<char>, Seq<char>>(s@)),
        outcome(Some(Err(s))) == Some(Err::<Seq<char>, Seq<char>>(s@)),
        outcome(None) is None,
        texts(v).len() == v.len(),
        0 <= i < v.len() ==> texts(v)[i] == v[i]@,
{
}

} // verus!
