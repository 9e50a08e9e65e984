//! GPU telemetry from the text files that the `amdgpu` driver exposes.
//!
//! Reading the files is the caller's; what they say, which card is the one to
//! watch, and the line that is printed are here. A file that could not be read
//! or parsed shows as `ERR` in the line rather than being hidden.

use crate::text::{
    before, chars, comes_before, decimal, ends_with, find, find_char, find_last, first_word,
    joined, lines, lines_of, lowered, pad, padded, parse, parsed, reads, rfind_char, show, slice,
    split_at_first, split_once, starts_with, strip_end, stripped_end, text, to_lowered, trim,
    trim_end, trimmed, trimmed_end, views, word, lemma_before_order, lemma_find,
};
use vstd::prelude::*;
use vstd::string::*;

verus! {

/// A number that a file holds, with white space around it.
pub open spec fn file_number(content: Option<Seq<char>>) -> Option<nat> {
    match content {
        Some(s) => parsed(trimmed(s), 10, u64::MAX as nat),
        None => None,
    }
}

/// The view of an optional text.
pub open spec fn opt_view(content: Option<String>) -> Option<Seq<char>> {
    match content {
        Some(s) => Some(s@),
        None => None,
    }
}

/// The view of an optional number.
pub open spec fn opt_nat(n: Option<u64>) -> Option<nat> {
    match n {
        Some(v) => Some(v as nat),
        None => None,
    }
}

/// Reads a file that holds one unsigned number. Nothing if the file could not
/// be read or does not parse.
pub fn read_u64(content: &Option<String>) -> (r: Option<u64>)
    ensures
        opt_nat(r) == file_number(opt_view(*content)),
{
    match content {
        Some(s) => parse(&trim(&chars(s.as_str())), 10, u64::MAX),
        None => None,
    }
}

/// The text `ERR` that stands for a value that is not there.
fn err() -> (r: String)
    ensures
        r@ == "ERR"@,
{
    "ERR".to_owned()
}

pub open spec fn pct_text(v: Option<nat>) -> Seq<char> {
    match v {
        Some(p) => padded(decimal(p), 3) + "%"@,
        None => "ERR"@,
    }
}

pub fn fmt_pct(v: Option<u64>) -> (r: String)
    ensures
        r@ == pct_text(opt_nat(v)),
{
    match v {
        Some(p) => joined(pad(show(p).as_str(), 3), "%"),
        None => err(),
    }
}

pub open spec fn mhz_text(hz: Option<nat>) -> Seq<char> {
    match hz {
        Some(h) => padded(decimal(h / 1_000_000), 4) + "MHz"@,
        None => "ERR"@,
    }
}

pub fn fmt_mhz(hz: Option<u64>) -> (r: String)
    ensures
        r@ == mhz_text(opt_nat(hz)),
{
    match hz {
        Some(h) => joined(pad(show(h / 1_000_000).as_str(), 4), "MHz"),
        None => err(),
    }
}

pub open spec fn watts_text(uw: Option<nat>) -> Seq<char> {
    match uw {
        Some(w) => padded(decimal(w / 1_000_000), 3) + "W"@,
        None => "ERR"@,
    }
}

pub fn fmt_watts(uw: Option<u64>) -> (r: String)
    ensures
        r@ == watts_text(opt_nat(uw)),
{
    match uw {
        Some(w) => joined(pad(show(w / 1_000_000).as_str(), 3), "W"),
        None => err(),
    }
}

pub open spec fn celsius_text(milli_c: Option<nat>) -> Seq<char> {
    match milli_c {
        Some(m) => decimal(m / 1000) + "C"@,
        None => "ERR"@,
    }
}

pub fn fmt_celsius(milli_c: Option<u64>) -> (r: String)
    ensures
        r@ == celsius_text(opt_nat(milli_c)),
{
    match milli_c {
        Some(m) => joined(show(m / 1000), "C"),
        None => err(),
    }
}

/// Two amounts as whole megabytes, `unit` of them to one.
pub open spec fn megabytes_text(a: Option<nat>, b: Option<nat>, unit: nat) -> Seq<char> {
    match (a, b) {
        (Some(u), Some(t)) => decimal(u / unit) + "/"@ + decimal(t / unit) + "MB"@,
        _ => "ERR"@,
    }
}

pub fn fmt_vram(used: Option<u64>, total: Option<u64>) -> (r: String)
    ensures
        r@ == megabytes_text(opt_nat(used), opt_nat(total), 1048576),
{
    match (used, total) {
        (Some(u), Some(t)) => joined(
            joined(joined(show(u / 1048576), "/"), show(t / 1048576).as_str()),
            "MB",
        ),
        _ => err(),
    }
}

pub fn fmt_residency(vram_kib: Option<u64>, gtt_kib: Option<u64>) -> (r: String)
    ensures
        r@ == megabytes_text(opt_nat(vram_kib), opt_nat(gtt_kib), 1024),
{
    match (vram_kib, gtt_kib) {
        (Some(v), Some(g)) => joined(
            joined(joined(show(v / 1024), "/"), show(g / 1024).as_str()),
            "MB",
        ),
        _ => err(),
    }
}

/// The number behind `key` in a line `<key> <n> KiB`, if the line is one.
pub open spec fn kib_of(line: Seq<char>, key: Seq<char>) -> Option<nat> {
    let t = trimmed(line);
    if key.is_prefix_of(t) {
        parsed(first_word(t.skip(key.len() as int)), 10, u64::MAX as nat)
    } else {
        None
    }
}

/// [`kib_of`] on texts already split up.
fn kib_in(line: &Vec<char>, key: &Vec<char>) -> (r: Option<u64>)
    ensures
        opt_nat(r) == kib_of(line@, key@),
{
    let t: Vec<char> = trim(line);
    if !starts_with(&t, key) {
        return None;
    }
    let rest: Vec<char> = slice(&t, key.len(), t.len());
    assert(rest@ =~= t@.skip(key@.len() as int));
    parse(&word(&rest), 10, u64::MAX)
}

/// Parse a `"<key>\t<n> KiB"` line.
pub fn parse_kib_line(line: &str, key: &str) -> (r: Option<u64>)
    ensures
        opt_nat(r) == kib_of(line@, key@),
{
    kib_in(&chars(line), &chars(key))
}

/// One open file of this process: its number as listed, what it points at,
/// and the text of its info file.
pub struct FdInfo {
    pub name: String,
    pub target: Option<String>,
    pub info: Option<String>,
}

impl FdInfo {
    /// Whether this is a DRM render node whose info could be read: only those
    /// carry the memory accounting.
    pub open spec fn is_render(&self) -> bool {
        &&& self.target is Some
        &&& "/dev/dri/renderD"@.is_prefix_of(self.target->0@)
        &&& parsed(self.name@, 10, u64::MAX as nat) is Some
        &&& self.info is Some
    }

    fn render(&self) -> (r: bool)
        ensures
            r == self.is_render(),
    {
        match &self.target {
            Some(t) => {
                if !starts_with(&chars(t.as_str()), &chars("/dev/dri/renderD")) {
                    return false;
                }
            },
            None => {
                return false;
            },
        }
        parse(&chars(self.name.as_str()), 10, u64::MAX).is_some() && self.info.is_some()
    }
}

/// What a line adds to the VRAM and to the GTT account. A line counts for one
/// of them at most.
pub open spec fn line_kib(line: Seq<char>) -> (nat, nat) {
    match kib_of(line, "drm-memory-vram:"@) {
        Some(v) => (v, 0),
        None => match kib_of(line, "drm-memory-gtt:"@) {
            Some(g) => (0, g),
            None => (0, 0),
        },
    }
}

/// Whether a line is of either account.
pub open spec fn line_counts(line: Seq<char>) -> bool {
    kib_of(line, "drm-memory-vram:"@) is Some || kib_of(line, "drm-memory-gtt:"@) is Some
}

/// The accounts over the first `n` lines.
pub open spec fn lines_kib(ls: Seq<Seq<char>>, n: nat) -> (nat, nat)
    decreases n,
{
    if n == 0 {
        (0, 0)
    } else {
        let a = lines_kib(ls, (n - 1) as nat);
        let b = line_kib(ls[n - 1]);
        (a.0 + b.0, a.1 + b.1)
    }
}

/// The accounts over the first `n` files.
pub open spec fn files_kib(fds: Seq<FdInfo>, n: nat) -> (nat, nat)
    decreases n,
{
    if n == 0 {
        (0, 0)
    } else {
        let a = files_kib(fds, (n - 1) as nat);
        if fds[n - 1].is_render() {
            let ls = lines_of(fds[n - 1].info->0@);
            let b = lines_kib(ls, ls.len());
            (a.0 + b.0, a.1 + b.1)
        } else {
            a
        }
    }
}

/// Whether file `i` has a line of either account.
pub open spec fn file_counts(fd: FdInfo) -> bool {
    fd.is_render() && exists|k: int|
        0 <= k < lines_of(fd.info->0@).len() && #[trigger] line_counts(lines_of(fd.info->0@)[k])
}

/// Whether any of the first `n` files has one.
pub open spec fn files_count(fds: Seq<FdInfo>, n: int) -> bool {
    exists|i: int| 0 <= i < n && #[trigger] file_counts(fds[i])
}

/// Both accounts, or nothing when no file has them.
pub open spec fn residency(fds: Seq<FdInfo>) -> (Option<nat>, Option<nat>) {
    if files_count(fds, fds.len() as int) {
        (Some(files_kib(fds, fds.len()).0), Some(files_kib(fds, fds.len()).1))
    } else {
        (None, None)
    }
}

/// The accounts fit a 64-bit count.
pub open spec fn accounts_fit(fds: Seq<FdInfo>) -> bool {
    files_kib(fds, fds.len()).0 <= u64::MAX && files_kib(fds, fds.len()).1 <= u64::MAX
}

proof fn lemma_lines_grow(ls: Seq<Seq<char>>, j: nat, n: nat)
    requires
        j <= n,
    ensures
        lines_kib(ls, j).0 <= lines_kib(ls, n).0,
        lines_kib(ls, j).1 <= lines_kib(ls, n).1,
    decreases n - j,
{
    if j < n {
        lemma_lines_grow(ls, j, (n - 1) as nat);
    }
}

proof fn lemma_files_grow(fds: Seq<FdInfo>, j: nat, n: nat)
    requires
        j <= n,
    ensures
        files_kib(fds, j).0 <= files_kib(fds, n).0,
        files_kib(fds, j).1 <= files_kib(fds, n).1,
    decreases n - j,
{
    if j < n {
        lemma_files_grow(fds, j, (n - 1) as nat);
    }
}

/// Sums this process's VRAM and GTT, in KiB, over its open render nodes: where
/// its GPU buffers physically live.
pub fn read_self_drm_residency(fds: &Vec<FdInfo>) -> (r: (Option<u64>, Option<u64>))
    requires
        accounts_fit(fds@),
    ensures
        (opt_nat(r.0), opt_nat(r.1)) == residency(fds@),
{
    let vram_key: Vec<char> = chars("drm-memory-vram:");
    let gtt_key: Vec<char> = chars("drm-memory-gtt:");
    let mut vram: u64 = 0;
    let mut gtt: u64 = 0;
    let mut found: bool = false;
    let mut i: usize = 0;
    while i < fds.len()
        invariant
            i <= fds.len(),
            accounts_fit(fds@),
            vram_key@ == "drm-memory-vram:"@,
            gtt_key@ == "drm-memory-gtt:"@,
            (vram as nat, gtt as nat) == files_kib(fds@, i as nat),
            found == files_count(fds@, i as int),
        decreases fds.len() - i,
    {
        let fd: &FdInfo = &fds[i];
        let ghost counts0 = found;
        proof {
            lemma_files_grow(fds@, (i + 1) as nat, fds@.len());
        }
        if fd.render() {
            let info: &String = match &fd.info {
                Some(s) => s,
                None => {
                    return (None, None);
                },
            };
            let ls: Vec<Vec<char>> = lines(&chars(info.as_str()));
            let ghost lv = lines_of(fd.info->0@);
            assert(views(ls@) == lv);
            assert(ls.len() == lv.len());
            let ghost base = (vram as nat, gtt as nat);
            let mut saw: bool = false;
            let mut k: usize = 0;
            while k < ls.len()
                invariant
                    k <= ls.len(),
                    views(ls@) == lv,
                    ls.len() == lv.len(),
                    vram_key@ == "drm-memory-vram:"@,
                    gtt_key@ == "drm-memory-gtt:"@,
                    base.0 + lines_kib(lv, lv.len()).0 <= u64::MAX,
                    base.1 + lines_kib(lv, lv.len()).1 <= u64::MAX,
                    vram == base.0 + lines_kib(lv, k as nat).0,
                    gtt == base.1 + lines_kib(lv, k as nat).1,
                    saw == exists|m: int| 0 <= m < k && #[trigger] line_counts(lv[m]),
                decreases ls.len() - k,
            {
                assert(lv[k as int] == ls[k as int]@);
                proof {
                    lemma_lines_grow(lv, (k + 1) as nat, lv.len());
                }
                let ghost saw0 = saw;
                match kib_in(&ls[k], &vram_key) {
                    Some(kib) => {
                        vram = vram + kib;
                        saw = true;
                    },
                    None => {
                        match kib_in(&ls[k], &gtt_key) {
                            Some(kib) => {
                                gtt = gtt + kib;
                                saw = true;
                            },
                            None => {},
                        }
                    },
                }
                proof {
                    if saw0 {
                        let m = choose|m: int| 0 <= m < k && #[trigger] line_counts(lv[m]);
                        assert(0 <= m < k + 1);
                    }
                    if line_counts(lv[k as int]) {
                        assert(0 <= k < k + 1);
                    }
                }
                k = k + 1;
            }
            found = found || saw;
            assert(saw == file_counts(fds@[i as int]));
        } else {
            assert(!file_counts(fds@[i as int]));
        }
        proof {
            if counts0 {
                let m = choose|m: int| 0 <= m < i && #[trigger] file_counts(fds@[m]);
                assert(0 <= m < i + 1);
            }
            assert(files_count(fds@, i + 1) == (counts0 || file_counts(fds@[i as int]))) by {
                if files_count(fds@, i + 1) {
                    let m = choose|m: int| 0 <= m < i + 1 && #[trigger] file_counts(fds@[m]);
                    assert(m < i || m == i);
                }
            }
        }
        i = i + 1;
    }
    if found {
        (Some(vram), Some(gtt))
    } else {
        (None, None)
    }
}

/// Whether a line of a DPM table is the current one.
pub open spec fn is_starred(line: Seq<char>) -> bool {
    let t = trimmed_end(line);
    t.len() > 0 && t.last() == '*'
}

/// What a current line says, without its index and its clock.
pub open spec fn starred_body(line: Seq<char>) -> Seq<char> {
    let after = match split_at_first(line, ':') {
        Some(p) => p.1,
        None => line,
    };
    let body = trimmed(stripped_end(after, seq!['*']));
    match find_last(body, ' ') {
        Some(i) => if "mhz"@.is_suffix_of(lowered(body.skip(i as int + 1))) {
            trimmed(body.take(i as int))
        } else {
            body
        },
        None => body,
    }
}

/// The first of `ls` that is current, from `at` on.
pub open spec fn first_starred(ls: Seq<Seq<char>>, at: nat) -> Option<Seq<char>>
    decreases ls.len() - at,
{
    if at >= ls.len() {
        None
    } else if is_starred(ls[at as int]) {
        Some(starred_body(ls[at as int]))
    } else {
        first_starred(ls, at + 1)
    }
}

/// What the line that a DPM table marks current says.
pub open spec fn starred(content: Option<Seq<char>>) -> Option<Seq<char>> {
    match content {
        Some(s) => first_starred(lines_of(s), 0),
        None => None,
    }
}

fn body_of(line: &Vec<char>) -> (r: Vec<char>)
    ensures
        r@ == starred_body(line@),
{
    let star: Vec<char> = vec!['*'];
    assert(star@ =~= seq!['*']);
    let after: Vec<char> = match split_once(line, ':') {
        Some(p) => p.1,
        None => slice(line, 0, line.len()),
    };
    assert(line@.subrange(0, line@.len() as int) =~= line@);
    let body: Vec<char> = trim(&strip_end(&after, &star));
    match rfind_char(&body, ' ') {
        Some(i) => {
            let last: Vec<char> = slice(&body, i + 1, body.len());
            assert(last@ =~= body@.skip(i as int + 1));
            if ends_with(&to_lowered(&last), &chars("mhz")) {
                let head: Vec<char> = slice(&body, 0, i);
                assert(head@ =~= body@.take(i as int));
                trim(&head)
            } else {
                body
            }
        },
        None => body,
    }
}

/// Returns the inner text of the DPM line marked current: of a table with the
/// line `2: 16.0GT/s, x16 623Mhz *`, the text `16.0GT/s, x16`.
pub fn read_starred(content: &Option<String>) -> (r: Option<String>)
    ensures
        opt_view(r) == starred(opt_view(*content)),
{
    let s: &String = match content {
        Some(s) => s,
        None => {
            return None;
        },
    };
    let ls: Vec<Vec<char>> = lines(&chars(s.as_str()));
    let ghost lv = lines_of(s@);
    assert(ls.len() == lv.len()) by {
        assert(views(ls@).len() == ls.len());
    }
    let mut i: usize = 0;
    while i < ls.len()
        invariant
            i <= ls.len(),
            views(ls@) == lv,
            ls.len() == lv.len(),
            starred(opt_view(*content)) == first_starred(lv, i as nat),
        decreases ls.len() - i,
    {
        assert(lv[i as int] == ls[i as int]@);
        let t: Vec<char> = trim_end(&ls[i]);
        if t.len() > 0 && t[t.len() - 1] == '*' {
            return Some(text(&body_of(&ls[i])));
        }
        i = i + 1;
    }
    None
}

/// The clock that a line of a DPM table lists, in MHz.
pub open spec fn listed_mhz(line: Seq<char>) -> Option<nat> {
    match split_at_first(line, ':') {
        Some(p) => {
            let field = p.1.take(find(p.1, ':', 0) as int);
            let bare = stripped_end(trimmed(field), " *"@);
            parsed(trimmed(stripped_end(bare, "Mhz"@)), 10, u64::MAX as nat)
        },
        None => None,
    }
}

/// The highest of the clocks that the first `n` lines list, zero if none does.
pub open spec fn highest_mhz(ls: Seq<Seq<char>>, n: nat) -> nat
    decreases n,
{
    if n == 0 {
        0
    } else {
        let before = highest_mhz(ls, (n - 1) as nat);
        match listed_mhz(ls[n - 1]) {
            Some(m) => if m >= before {
                m
            } else {
                before
            },
            None => before,
        }
    }
}

/// The highest clock that a DPM table lists, in Hz.
pub open spec fn table_max_hz(content: Option<Seq<char>>) -> nat {
    match content {
        Some(s) => highest_mhz(lines_of(s), lines_of(s).len()) * 1_000_000,
        None => 0,
    }
}

fn mhz_in(line: &Vec<char>) -> (r: Option<u64>)
    ensures
        opt_nat(r) == listed_mhz(line@),
{
    let rest: Vec<char> = match split_once(line, ':') {
        Some(p) => p.1,
        None => {
            return None;
        },
    };
    let field: Vec<char> = slice(&rest, 0, find_char(&rest, ':', 0));
    assert(field@ =~= rest@.take(find(rest@, ':', 0) as int));
    proof {
        reveal_strlit(" *");
        reveal_strlit("Mhz");
    }
    let bare: Vec<char> = strip_end(&trim(&field), &chars(" *"));
    parse(&trim(&strip_end(&bare, &chars("Mhz"))), 10, u64::MAX)
}

/// Highest clock listed in `pp_dpm_sclk`, in Hz; zero if it cannot be read.
pub fn dpm_sclk_max_hz(content: &Option<String>) -> (r: u64)
    requires
        table_max_hz(opt_view(*content)) <= u64::MAX,
    ensures
        r == table_max_hz(opt_view(*content)),
{
    let s: &String = match content {
        Some(s) => s,
        None => {
            return 0;
        },
    };
    let ls: Vec<Vec<char>> = lines(&chars(s.as_str()));
    let ghost lv = lines_of(s@);
    assert(ls.len() == lv.len()) by {
        assert(views(ls@).len() == ls.len());
    }
    let mut best: u64 = 0;
    let mut i: usize = 0;
    while i < ls.len()
        invariant
            i <= ls.len(),
            views(ls@) == lv,
            ls.len() == lv.len(),
            best == highest_mhz(lv, i as nat),
        decreases ls.len() - i,
    {
        assert(lv[i as int] == ls[i as int]@);
        match mhz_in(&ls[i]) {
            Some(m) => {
                if m >= best {
                    best = m;
                }
            },
            None => {},
        }
        i = i + 1;
    }
    best * 1_000_000
}

/// One entry of the DRM class directory, with what its files say.
pub struct CardNode {
    /// The entry's name, such as `card0`.
    pub name: String,
    pub vendor: Option<String>,
    pub device_id: Option<String>,
    /// Whether it exposes `gpu_busy_percent`.
    pub has_busy: bool,
    /// The names in its `hwmon` directory.
    pub hwmons: Vec<String>,
}

/// A card and not one of its connectors.
pub open spec fn is_card_name(name: Seq<char>) -> bool {
    "card"@.is_prefix_of(name) && find(name, '-', 0) == name.len()
}

impl CardNode {
    /// A card to watch: AMD's, with a busy counter and a sensor directory.
    pub open spec fn eligible(&self) -> bool {
        &&& is_card_name(self.name@)
        &&& self.vendor is Some
        &&& trimmed(self.vendor->0@) == "0x1002"@
        &&& self.has_busy
        &&& self.hwmons.len() > 0
    }

    fn is_eligible(&self) -> (r: bool)
        ensures
            r == self.eligible(),
    {
        let name: Vec<char> = chars(self.name.as_str());
        if !starts_with(&name, &chars("card")) || find_char(&name, '-', 0) != name.len() {
            return false;
        }
        match &self.vendor {
            Some(v) => reads(&trim(&chars(v.as_str())), "0x1002") && self.has_busy
                && self.hwmons.len() > 0,
            None => false,
        }
    }
}

/// `i` is the first in name order, and of equal names the first listed.
pub open spec fn is_first_name(names: Seq<String>, i: int) -> bool {
    &&& 0 <= i < names.len()
    &&& forall|j: int| 0 <= j < names.len() ==> !before((#[trigger] names[j])@, names[i]@)
    &&& forall|j: int| 0 <= j < i ==> before(names[i]@, (#[trigger] names[j])@)
}

/// `i` is the card that is watched: of the eligible ones the first in name
/// order, and of equal names the first listed.
pub open spec fn is_chosen(nodes: Seq<CardNode>, i: int) -> bool {
    &&& 0 <= i < nodes.len()
    &&& nodes[i].eligible()
    &&& forall|j: int|
        0 <= j < nodes.len() && (#[trigger] nodes[j]).eligible() ==> !before(
            nodes[j].name@,
            nodes[i].name@,
        )
    &&& forall|j: int|
        0 <= j < i && (#[trigger] nodes[j]).eligible() ==> before(nodes[i].name@, nodes[j].name@)
}

fn first_name(names: &Vec<String>) -> (r: usize)
    requires
        names.len() > 0,
    ensures
        is_first_name(names@, r as int),
{
    let mut best: usize = 0;
    let mut i: usize = 1;
    proof {
        lemma_before_order(names@[0]@, names@[0]@, names@[0]@);
    }
    while i < names.len()
        invariant
            best < i <= names.len(),
            forall|j: int| 0 <= j < i ==> !before((#[trigger] names[j])@, names[best as int]@),
            forall|j: int| 0 <= j < best ==> before(names[best as int]@, (#[trigger] names[j])@),
        decreases names.len() - i,
    {
        let ghost best0 = best;
        if comes_before(&chars(names[i].as_str()), &chars(names[best].as_str())) {
            best = i;
        }
        proof {
            assert forall|j: int| 0 <= j < i + 1 implies !before(
                (#[trigger] names[j])@,
                names[best as int]@,
            ) by {
                lemma_before_order(names[j]@, names[best as int]@, names[best0 as int]@);
                lemma_before_order(names[i as int]@, names[i as int]@, names[i as int]@);
            }
            assert forall|j: int| 0 <= j < best implies before(
                names[best as int]@,
                (#[trigger] names[j])@,
            ) by {
                lemma_before_order(names[best as int]@, names[best0 as int]@, names[j]@);
                lemma_before_order(names[j]@, names[best0 as int]@, names[best as int]@);
                lemma_before_order(names[best0 as int]@, names[j]@, names[best0 as int]@);
            }
        }
        i = i + 1;
    }
    best
}

/// What the driver's files said at one moment. Each is the text of a file, or
/// nothing where it could not be read.
pub struct SysfsSample {
    pub gpu_busy_percent: Option<String>,
    pub mem_busy_percent: Option<String>,
    pub freq1_input: Option<String>,
    pub freq2_input: Option<String>,
    pub power1_average: Option<String>,
    pub temp1_input: Option<String>,
    pub temp2_input: Option<String>,
    pub temp3_input: Option<String>,
    pub pp_dpm_pcie: Option<String>,
    pub mem_info_vis_vram_used: Option<String>,
    pub mem_info_vis_vram_total: Option<String>,
    /// The open files of this process.
    pub fds: Vec<FdInfo>,
}

/// The number in an optional file.
pub open spec fn num(content: Option<String>) -> Option<nat> {
    file_number(opt_view(content))
}

/// The line that is printed for a sample.
pub open spec fn sample_text(s: SysfsSample) -> Seq<char> {
    "  gpu: busy "@ + pct_text(num(s.gpu_busy_percent)) + " mem "@ + pct_text(
        num(s.mem_busy_percent),
    ) + " | sclk "@ + mhz_text(num(s.freq1_input)) + " mclk "@ + mhz_text(num(s.freq2_input))
        + " | pcie "@ + match starred(opt_view(s.pp_dpm_pcie)) {
        Some(t) => t,
        None => "ERR"@,
    } + " | PPT "@ + watts_text(num(s.power1_average)) + " | temp e/j/m "@ + celsius_text(
        num(s.temp1_input),
    ) + "/"@ + celsius_text(num(s.temp2_input)) + "/"@ + celsius_text(num(s.temp3_input))
        + " | visVRAM "@ + megabytes_text(
        num(s.mem_info_vis_vram_used),
        num(s.mem_info_vis_vram_total),
        1048576,
    ) + " | self vram/gtt "@ + megabytes_text(
        residency(s.fds@).0,
        residency(s.fds@).1,
        1024,
    )
}

/// A discovered `amdgpu` device.
pub struct GpuTelemetry {
    /// The device's directory.
    pub dev: String,
    /// Its sensor directory: clocks, power, temperatures.
    pub hwmon: String,
    /// Human label, such as `card2 (0x1002:0x744c)`.
    pub label: String,
}

/// How the card in `node`, with the sensor directory `hwmon`, is addressed.
pub open spec fn describes(t: GpuTelemetry, node: CardNode, hwmon: Seq<char>) -> bool {
    &&& t.dev@ == "/sys/class/drm/"@ + node.name@ + "/device"@
    &&& t.hwmon@ == t.dev@ + "/hwmon/"@ + hwmon
    &&& t.label@ == node.name@ + " (0x1002:"@ + match node.device_id {
        Some(d) => trimmed(d@),
        None => "?"@,
    } + ")"@
}

impl GpuTelemetry {
    /// The first AMD card, by name, that exposes a busy counter and a sensor
    /// directory. Nothing when there is none: the caller says so, so that this
    /// is never a silent no-op.
    pub fn discover(nodes: &Vec<CardNode>) -> (r: Option<Self>)
        ensures
            r is None <==> forall|i: int|
                0 <= i < nodes.len() ==> !(#[trigger] nodes[i]).eligible(),
            r is Some ==> exists|i: int, h: int|
                #[trigger] is_chosen(nodes@, i) && #[trigger] is_first_name(nodes[i].hwmons@, h)
                    && describes(r->0, nodes[i], nodes[i].hwmons[h]@),
    {
        let mut best: Option<usize> = None;
        let mut i: usize = 0;
        while i < nodes.len()
            invariant
                i <= nodes.len(),
                best is None ==> forall|j: int|
                    0 <= j < i ==> !(#[trigger] nodes[j]).eligible(),
                best is Some ==> is_chosen(nodes@.take(i as int), best->0 as int),
            decreases nodes.len() - i,
        {
            let ghost best0 = best;
            let ghost taken = nodes@.take(i as int);
            let ghost next = nodes@.take(i + 1);
            assert(forall|j: int| 0 <= j < i ==> next[j] == #[trigger] taken[j]);
            assert(next[i as int] == nodes[i as int]);
            if nodes[i].is_eligible() {
                match best {
                    None => {
                        best = Some(i);
                        proof {
                            let n = next[i as int].name@;
                            lemma_before_order(n, n, n);
                            assert forall|j: int|
                                0 <= j < next.len() && (#[trigger] next[j]).eligible() implies !before(
                                next[j].name@,
                                n,
                            ) by {
                                assert(j < i ==> !nodes[j].eligible());
                            }
                            assert forall|j: int|
                                0 <= j < i && (#[trigger] next[j]).eligible() implies before(
                                n,
                                next[j].name@,
                            ) by {
                                assert(!nodes[j].eligible());
                            }
                        }
                    },
                    Some(b) => {
                        if comes_before(
                            &chars(nodes[i].name.as_str()),
                            &chars(nodes[b].name.as_str()),
                        ) {
                            best = Some(i);
                        }
                        proof {
                            let c = best->0 as int;
                            let n0 = taken[b as int].name@;
                            let n1 = next[c].name@;
                            let ni = next[i as int].name@;
                            lemma_before_order(ni, ni, ni);
                            assert forall|j: int|
                                0 <= j < next.len() && (#[trigger] next[j]).eligible() implies !before(
                                next[j].name@,
                                n1,
                            ) by {
                                if j < i {
                                    assert(taken[j].eligible());
                                    lemma_before_order(next[j].name@, n1, n0);
                                }
                            }
                            assert forall|j: int|
                                0 <= j < c && (#[trigger] next[j]).eligible() implies before(
                                n1,
                                next[j].name@,
                            ) by {
                                assert(taken[j].eligible());
                                let nj = next[j].name@;
                                lemma_before_order(n1, n0, nj);
                                lemma_before_order(nj, n0, n1);
                                lemma_before_order(n0, nj, n0);
                            }
                        }
                    },
                }
            } else {
                proof {
                    if best is Some {
                        let c = best->0 as int;
                        assert forall|j: int|
                            0 <= j < next.len() && (#[trigger] next[j]).eligible() implies !before(
                            next[j].name@,
                            next[c].name@,
                        ) by {
                            assert(taken[j].eligible());
                        }
                        assert forall|j: int|
                            0 <= j < c && (#[trigger] next[j]).eligible() implies before(
                            next[c].name@,
                            next[j].name@,
                        ) by {
                            assert(taken[j].eligible());
                        }
                        assert(taken[c].eligible());
                    }
                }
            }
            i = i + 1;
        }
        assert(nodes@.take(i as int) =~= nodes@);
        let b: usize = match best {
            Some(b) => b,
            None => {
                return None;
            },
        };
        let node: &CardNode = &nodes[b];
        let h: usize = first_name(&node.hwmons);
        let dev: String = joined(
            joined("/sys/class/drm/".to_owned(), node.name.as_str()),
            "/device",
        );
        let hwmon: String = joined(joined(dev.clone(), "/hwmon/"), node.hwmons[h].as_str());
        let id: String = match &node.device_id {
            Some(d) => text(&trim(&chars(d.as_str()))),
            None => "?".to_owned(),
        };
        let label: String = joined(
            joined(joined(node.name.clone(), " (0x1002:"), id.as_str()),
            ")",
        );
        let r = GpuTelemetry { dev, hwmon, label };
        assert(describes(r, *node, node.hwmons[h as int]@));
        assert(is_chosen(nodes@, b as int));
        Some(r)
    }

    /// Short identifier printed in the one-time status line.
    pub fn label(&self) -> (r: &str)
        ensures
            r@ == self.label@,
    {
        self.label.as_str()
    }

    /// Formats the current state as a single compact line.
    pub fn sample_line(&self, s: &SysfsSample) -> (r: String)
        requires
            accounts_fit(s.fds@),
        ensures
            r@ == sample_text(*s),
    {
        let own: (Option<u64>, Option<u64>) = read_self_drm_residency(&s.fds);
        let pcie: String = match read_starred(&s.pp_dpm_pcie) {
            Some(t) => t,
            None => err(),
        };
        let l: String = "  gpu: busy ".to_owned();
        let l: String = joined(l, fmt_pct(read_u64(&s.gpu_busy_percent)).as_str());
        let l: String = joined(l, " mem ");
        let l: String = joined(l, fmt_pct(read_u64(&s.mem_busy_percent)).as_str());
        let l: String = joined(l, " | sclk ");
        let l: String = joined(l, fmt_mhz(read_u64(&s.freq1_input)).as_str());
        let l: String = joined(l, " mclk ");
        let l: String = joined(l, fmt_mhz(read_u64(&s.freq2_input)).as_str());
        let l: String = joined(l, " | pcie ");
        let l: String = joined(l, pcie.as_str());
        let l: String = joined(l, " | PPT ");
        let l: String = joined(l, fmt_watts(read_u64(&s.power1_average)).as_str());
        let l: String = joined(l, " | temp e/j/m ");
        let l: String = joined(l, fmt_celsius(read_u64(&s.temp1_input)).as_str());
        let l: String = joined(l, "/");
        let l: String = joined(l, fmt_celsius(read_u64(&s.temp2_input)).as_str());
        let l: String = joined(l, "/");
        let l: String = joined(l, fmt_celsius(read_u64(&s.temp3_input)).as_str());
        let l: String = joined(l, " | visVRAM ");
        let used: Option<u64> = read_u64(&s.mem_info_vis_vram_used);
        let total: Option<u64> = read_u64(&s.mem_info_vis_vram_total);
        let l: String = joined(l, fmt_vram(used, total).as_str());
        let l: String = joined(l, " | self vram/gtt ");
        joined(l, fmt_residency(own.0, own.1).as_str())
    }

    /// A monitor of the shader clock, seeded with the clock that was just read
    /// and with the highest one that the DPM table lists. The sampler feeds it
    /// through [`SclkMonitor::publish`].
    pub fn spawn_sclk_monitor(
        &self,
        freq1_input: &Option<String>,
        pp_dpm_sclk: &Option<String>,
    ) -> (r: SclkMonitor)
        requires
            table_max_hz(opt_view(*pp_dpm_sclk)) <= u64::MAX,
        ensures
            r.now == match num(*freq1_input) {
                Some(hz) => hz,
                None => 0,
            },
            r.reference == table_max_hz(opt_view(*pp_dpm_sclk)),
    {
        let now: u64 = match read_u64(freq1_input) {
            Some(hz) => hz,
            None => 0,
        };
        SclkMonitor { now, reference: dpm_sclk_max_hz(pp_dpm_sclk) }
    }
}

/// Live shader clock, and the clock the GPU reaches when it is the one holding
/// the frame up.
pub struct SclkMonitor {
    pub now: u64,
    pub reference: u64,
}

impl SclkMonitor {
    /// The monitor after a reading of `hz`.
    pub open spec fn read(self, hz: u64) -> SclkMonitor {
        SclkMonitor { now: hz, ..self }
    }

    /// The monitor once the reference was asked for: it never lags the clock.
    pub open spec fn raised(self) -> SclkMonitor {
        SclkMonitor {
            reference: if self.reference >= self.now {
                self.reference
            } else {
                self.now
            },
            ..self
        }
    }

    /// Takes over a fresh reading; one that does not parse leaves the clock.
    pub fn publish(&mut self, freq1_input: &Option<String>)
        ensures
            *final(self) == match num(*freq1_input) {
                Some(hz) => old(self).read(hz as u64),
                None => *old(self),
            },
    {
        match read_u64(freq1_input) {
            Some(hz) => {
                self.now = hz;
            },
            None => {},
        }
    }

    /// Instantaneous shader clock in Hz.
    pub fn now_hz(&self) -> (r: u64)
        ensures
            r == self.now,
    {
        self.now
    }

    /// Clock to normalise against: the fastest this card has been seen to run.
    pub fn reference_hz(&mut self) -> (r: u64)
        ensures
            *final(self) == old(self).raised(),
            r == final(self).reference,
    {
        if self.now > self.reference {
            self.reference = self.now;
        }
        self.reference
    }

    /// The clock now and the clock to normalise against: the factor that turns
    /// a measured GPU duration into what it would have cost at the reference
    /// is the quotient of the two. Nothing when the clock is unreadable.
    pub fn normalise(&mut self) -> (r: Option<(u64, u64)>)
        ensures
            *final(self) == old(self).raised(),
            r == if old(self).now > 0 {
                Some((old(self).now, final(self).reference))
            } else {
                None
            },
    {
        let now: u64 = self.now_hz();
        let reference: u64 = self.reference_hz();
        if now > 0 && reference > 0 {
            Some((now, reference))
        } else {
            None
        }
    }
}

/// The monitor after readings, with the reference asked for after each.
pub open spec fn observed(m: SclkMonitor, readings: Seq<u64>) -> SclkMonitor
    decreases readings.len(),
{
    if readings.len() == 0 {
        m
    } else {
        observed(m, readings.drop_last()).read(readings.last()).raised()
    }
}

/// Whatever clocks are read, the reference only ever rises, is one of the
/// clocks or what it started from, and is never below the clock of the moment.
pub proof fn reference_is_a_running_maximum(m: SclkMonitor, readings: Seq<u64>)
    ensures
        observed(m, readings).reference >= m.reference,
        forall|i: int|
            0 <= i < readings.len() ==> #[trigger] readings[i] <= observed(m, readings).reference,
        observed(m, readings).reference == m.reference || readings.contains(
            observed(m, readings).reference,
        ),
    decreases readings.len(),
{
    if readings.len() > 0 {
        let rest = readings.drop_last();
        reference_is_a_running_maximum(m, rest);
        assert forall|i: int| 0 <= i < readings.len() implies #[trigger] readings[i] <= observed(
            m,
            readings,
        ).reference by {
            if i < rest.len() {
                assert(rest[i] == readings[i]);
            }
        }
        let r = observed(m, readings).reference;
        if r == readings.last() {
            assert(readings[readings.len() - 1] == r);
        } else if r != m.reference {
            let k = choose|k: int| 0 <= k < rest.len() && rest[k] == r;
            assert(readings[k] == r);
        }
    }
}

/// Figures are printed in whole units, the rest cut off: percents as they are,
/// clocks in megahertz of a million, power in watts of a million, temperatures
/// in degrees of a thousand. What is not there says so.
pub proof fn figures_are_whole_units(n: nat, rest: nat)
    ensures
        pct_text(Some(n)) == padded(decimal(n), 3) + "%"@,
        rest < 1_000_000 ==> mhz_text(Some(n * 1_000_000 + rest)) == padded(decimal(n), 4)
            + "MHz"@,
        rest < 1_000_000 ==> watts_text(Some(n * 1_000_000 + rest)) == padded(decimal(n), 3)
            + "W"@,
        rest < 1000 ==> celsius_text(Some(n * 1000 + rest)) == decimal(n) + "C"@,
        pct_text(None) == "ERR"@,
        mhz_text(None) == "ERR"@,
        watts_text(None) == "ERR"@,
        celsius_text(None) == "ERR"@,
{
    if rest < 1_000_000 {
        vstd::arithmetic::div_mod::lemma_fundamental_div_mod_converse(
            (n * 1_000_000 + rest) as int,
            1_000_000,
            n as int,
            rest as int,
        );
    }
    if rest < 1000 {
        vstd::arithmetic::div_mod::lemma_fundamental_div_mod_converse(
            (n * 1000 + rest) as int,
            1000,
            n as int,
            rest as int,
        );
    }
}

/// Two amounts are printed in whole megabytes, the used one first, and only if
/// both are there.
pub proof fn amounts_are_whole_megabytes(u: nat, t: nat, a: nat, b: nat, unit: nat)
    requires
        unit > 0,
        a < unit,
        b < unit,
    ensures
        megabytes_text(Some(u * unit + a), Some(t * unit + b), unit) == decimal(u) + "/"@
            + decimal(t) + "MB"@,
        megabytes_text(None, Some(t), unit) == "ERR"@,
        megabytes_text(Some(u), None, unit) == "ERR"@,
        megabytes_text(None, None, unit) == "ERR"@,
{
    vstd::arithmetic::div_mod::lemma_fundamental_div_mod_converse(
        (u * unit + a) as int,
        unit as int,
        u as int,
        a as int,
    );
    vstd::arithmetic::div_mod::lemma_fundamental_div_mod_converse(
        (t * unit + b) as int,
        unit as int,
        t as int,
        b as int,
    );
}

/// A file's number is what it parses to without the white space around it.
pub proof fn files_hold_one_number(s: Seq<char>)
    ensures
        file_number(Some(s)) == parsed(trimmed(s), 10, u64::MAX as nat),
        file_number(None) is None,
{
}

/// A line's amount is the word behind its key, and none without the key. A
/// line counts for the account whose key it has.
pub proof fn lines_count_for_their_account(line: Seq<char>, key: Seq<char>)
    ensures
        key.is_prefix_of(trimmed(line)) ==> kib_of(line, key) == parsed(
            first_word(trimmed(line).skip(key.len() as int)),
            10,
            u64::MAX as nat,
        ),
        !key.is_prefix_of(trimmed(line)) ==> kib_of(line, key) is None,
        kib_of(line, "drm-memory-vram:"@) is Some ==> line_kib(line).0 == kib_of(
            line,
            "drm-memory-vram:"@,
        )->0 && line_kib(line).1 == 0 && line_counts(line),
        kib_of(line, "drm-memory-gtt:"@) is Some ==> line_kib(line).1 == kib_of(
            line,
            "drm-memory-gtt:"@,
        )->0 && line_kib(line).0 == 0 && line_counts(line),
        kib_of(line, "drm-memory-vram:"@) is None && kib_of(line, "drm-memory-gtt:"@) is None
            ==> line_kib(line).0 == 0 && line_kib(line).1 == 0 && !line_counts(line),
{
    reveal_strlit("drm-memory-vram:");
    reveal_strlit("drm-memory-gtt:");
    let t = trimmed(line);
    if "drm-memory-vram:"@.is_prefix_of(t) && "drm-memory-gtt:"@.is_prefix_of(t) {
        assert("drm-memory-vram:"@[11] == 'v' && "drm-memory-gtt:"@[11] == 'g');
        assert("drm-memory-vram:"@.len() == 16 && "drm-memory-gtt:"@.len() == 15);
        assert(t.subrange(0, 16)[11] == t[11]);
        assert(t.subrange(0, 15)[11] == t[11]);
    }
}

/// Every line of every open render node is added once, and nothing of any
/// other file. Both accounts are reported if any line counts, and neither
/// otherwise.
pub proof fn residency_adds_up(fds: Seq<FdInfo>, ls: Seq<Seq<char>>, n: nat, k: nat, i: int)
    requires
        n < fds.len(),
        k < ls.len(),
        0 <= i < fds.len(),
    ensures
        lines_kib(ls, 0) == (0nat, 0nat),
        lines_kib(ls, k + 1).0 == lines_kib(ls, k).0 + line_kib(ls[k as int]).0,
        lines_kib(ls, k + 1).1 == lines_kib(ls, k).1 + line_kib(ls[k as int]).1,
        files_kib(fds, 0) == (0nat, 0nat),
        !fds[n as int].is_render() ==> files_kib(fds, n + 1) == files_kib(fds, n),
        fds[n as int].is_render() ==> {
            let own = lines_of(fds[n as int].info->0@);
            &&& files_kib(fds, n + 1).0 == files_kib(fds, n).0 + lines_kib(own, own.len()).0
            &&& files_kib(fds, n + 1).1 == files_kib(fds, n).1 + lines_kib(own, own.len()).1
        },
        residency(fds).0 is Some <==> residency(fds).1 is Some,
        residency(fds).0 is Some ==> residency(fds).0 == Some(files_kib(fds, fds.len()).0),
        residency(fds).1 is Some ==> residency(fds).1 == Some(files_kib(fds, fds.len()).1),
        fds[i].is_render() && 0 <= k < lines_of(fds[i].info->0@).len() && line_counts(
            lines_of(fds[i].info->0@)[k as int],
        ) ==> residency(fds).0 is Some,
        (forall|j: int| 0 <= j < fds.len() ==> !(#[trigger] fds[j]).is_render()) ==> residency(
            fds,
        ).0 is None,
{
    if fds[i].is_render() && 0 <= k < lines_of(fds[i].info->0@).len() && line_counts(
        lines_of(fds[i].info->0@)[k as int],
    ) {
        assert(file_counts(fds[i]));
    }
    if files_count(fds, fds.len() as int) {
        let j = choose|j: int| 0 <= j < fds.len() && #[trigger] file_counts(fds[j]);
        assert(fds[j].is_render());
    }
}

/// Only a readable render node of the system's device directory is accounted.
pub proof fn render_nodes_are_accounted(fd: FdInfo)
    ensures
        fd.is_render() ==> fd.target is Some && fd.info is Some
            && "/dev/dri/renderD"@.is_prefix_of(fd.target->0@) && parsed(
            fd.name@,
            10,
            u64::MAX as nat,
        ) is Some,
        fd.target is Some && fd.info is Some && "/dev/dri/renderD"@.is_prefix_of(fd.target->0@)
            && parsed(fd.name@, 10, u64::MAX as nat) is Some ==> fd.is_render(),
{
}

/// The current line of a table is the first that ends in a star, white space
/// behind it or not, and none is current without one.
pub proof fn the_first_starred_line_is_current(ls: Seq<Seq<char>>, i: int, s: Seq<char>)
    requires
        0 <= i < ls.len(),
        forall|k: int| 0 <= k < i ==> !is_starred(#[trigger] ls[k]),
    ensures
        is_starred(ls[i]) <==> trimmed_end(ls[i]).len() > 0 && trimmed_end(ls[i]).last() == '*',
        is_starred(ls[i]) ==> first_starred(ls, 0) == Some(starred_body(ls[i])),
        i == ls.len() - 1 && !is_starred(ls[i]) ==> first_starred(ls, 0) is None,
        starred(None) is None,
        starred(Some(s)) == first_starred(lines_of(s), 0),
{
    lemma_first_starred(ls, 0, i);
}

proof fn lemma_first_starred(ls: Seq<Seq<char>>, at: nat, i: int)
    requires
        at <= i < ls.len(),
        forall|k: int| at <= k < i ==> !is_starred(#[trigger] ls[k]),
    ensures
        is_starred(ls[i]) ==> first_starred(ls, at) == Some(starred_body(ls[i])),
        i == ls.len() - 1 && !is_starred(ls[i]) ==> first_starred(ls, at) is None,
    decreases ls.len() - at,
{
    if at < i {
        lemma_first_starred(ls, at + 1, i);
    } else if i == ls.len() - 1 {
        assert(first_starred(ls, at + 1) is None);
    }
}

/// Of a current line what stands between its index and its star is said,
/// without a clock where the last word is one.
pub proof fn current_lines_say_their_middle(
    index: Seq<char>,
    rest: Seq<char>,
    head: Seq<char>,
    last: Seq<char>,
)
    requires
        !index.contains(':'),
        !last.contains(' '),
        trimmed(stripped_end(rest, seq!['*'])) == head + seq![' '] + last,
    ensures
        "mhz"@.is_suffix_of(lowered(last)) ==> starred_body(index + seq![':'] + rest) == trimmed(
            head,
        ),
        !"mhz"@.is_suffix_of(lowered(last)) ==> starred_body(index + seq![':'] + rest) == head
            + seq![' '] + last,
{
    lemma_split(index, ':', rest);
    let body = head + seq![' '] + last;
    lemma_last_blank(head, last);
    let i = head.len() as int;
    assert(body.take(i) =~= head);
    assert(body.skip(i + 1) =~= last);
}

proof fn lemma_last_blank(head: Seq<char>, last: Seq<char>)
    requires
        !last.contains(' '),
    ensures
        find_last(head + seq![' '] + last, ' ') == Some(head.len()),
    decreases last.len(),
{
    let s = head + seq![' '] + last;
    if last.len() == 0 {
        assert(s.last() == ' ');
    } else {
        let front = last.drop_last();
        assert(s.last() == last.last());
        assert(last[last.len() - 1] == last.last());
        assert(s.drop_last() =~= head + seq![' '] + front);
        assert(!front.contains(' ')) by {
            if front.contains(' ') {
                let k = choose|k: int| 0 <= k < front.len() && front[k] == ' ';
                assert(last[k] == ' ');
            }
        }
        lemma_last_blank(head, front);
    }
}

proof fn lemma_split(a: Seq<char>, c: char, rest: Seq<char>)
    requires
        !a.contains(c),
    ensures
        split_at_first(a + seq![c] + rest, c) == Some((a, rest)),
        split_at_first(a, c) is None,
        find(a, c, 0) == a.len(),
{
    let s = a + seq![c] + rest;
    lemma_find(s, c, 0);
    lemma_find(a, c, 0);
    let i = find(s, c, 0) as int;
    assert(s[a.len() as int] == c);
    if i < a.len() {
        assert(a[i] == c);
    }
    assert(s.take(i) =~= a);
    assert(s.skip(i + 1) =~= rest);
    if find(a, c, 0) < a.len() {
        assert(a[find(a, c, 0) as int] == c);
    }
}

/// A line lists the clock behind its index, without the star and the unit. The
/// highest clock of a table is one that it lists, and no listed one is higher.
pub proof fn tables_list_their_clocks(
    index: Seq<char>,
    field: Seq<char>,
    more: Seq<char>,
    ls: Seq<Seq<char>>,
    n: nat,
)
    requires
        !index.contains(':'),
        !field.contains(':'),
        n < ls.len(),
    ensures
        listed_mhz(index + seq![':'] + field) == parsed(
            trimmed(stripped_end(stripped_end(trimmed(field), " *"@), "Mhz"@)),
            10,
            u64::MAX as nat,
        ),
        listed_mhz(index + seq![':'] + (field + seq![':'] + more)) == listed_mhz(
            index + seq![':'] + field,
        ),
        listed_mhz(index) is None,
        highest_mhz(ls, 0) == 0,
        highest_mhz(ls, n + 1) >= highest_mhz(ls, n),
        listed_mhz(ls[n as int]) is Some ==> highest_mhz(ls, n + 1) >= listed_mhz(
            ls[n as int],
        )->0,
        highest_mhz(ls, n + 1) == highest_mhz(ls, n) || listed_mhz(ls[n as int]) == Some(
            highest_mhz(ls, n + 1),
        ),
        table_max_hz(None) == 0,
{
    lemma_split(index, ':', field);
    let longer = field + seq![':'] + more;
    lemma_split(field, ':', more);
    lemma_split(index, ':', longer);
    lemma_find(longer, ':', 0);
    assert(longer[field.len() as int] == ':');
    let i = find(longer, ':', 0) as int;
    if i < field.len() {
        assert(field[i] == ':');
    }
    assert(longer.take(i) =~= field);
    assert(field.take(field.len() as int) =~= field);
}

/// A table's clock is in hertz, a million to each that it lists.
pub proof fn table_clocks_are_in_hertz(s: Seq<char>)
    ensures
        table_max_hz(Some(s)) == 1_000_000 * highest_mhz(lines_of(s), lines_of(s).len()),
{
}

/// A card is watched only if it is one, of the vendor, with a busy counter and
/// a sensor directory; connectors, whose names have a dash, are none.
pub proof fn only_cards_are_watched(node: CardNode)
    ensures
        node.eligible() ==> "card"@.is_prefix_of(node.name@) && !node.name@.contains('-')
            && node.vendor is Some && trimmed(node.vendor->0@) == "0x1002"@ && node.has_busy
            && node.hwmons.len() > 0,
        "card"@.is_prefix_of(node.name@) && !node.name@.contains('-') && node.vendor is Some
            && trimmed(node.vendor->0@) == "0x1002"@ && node.has_busy && node.hwmons.len() > 0
            ==> node.eligible(),
{
    lemma_find(node.name@, '-', 0);
    if node.name@.contains('-') {
        let i = choose|i: int| 0 <= i < node.name@.len() && node.name@[i] == '-';
        assert(find(node.name@, '-', 0) <= i);
    } else if find(node.name@, '-', 0) < node.name@.len() {
        assert(node.name@[find(node.name@, '-', 0) as int] == '-');
    }
}

/// The card that is watched, and its sensor directory, come first in the order
/// of names.
pub proof fn the_first_card_by_name_is_watched(
    nodes: Seq<CardNode>,
    i: int,
    j: int,
    names: Seq<String>,
    h: int,
    k: int,
)
    requires
        is_chosen(nodes, i),
        is_first_name(names, h),
        0 <= j < nodes.len(),
        0 <= k < names.len(),
    ensures
        nodes[i].eligible(),
        nodes[j].eligible() && j != i && nodes[j].name@ != nodes[i].name@ ==> before(
            nodes[i].name@,
            nodes[j].name@,
        ),
        nodes[j].eligible() && nodes[j].name@ == nodes[i].name@ ==> i <= j,
        names[k]@ != names[h]@ ==> before(names[h]@, names[k]@),
        names[k]@ == names[h]@ ==> h <= k,
{
    lemma_before_order(nodes[i].name@, nodes[j].name@, nodes[i].name@);
    lemma_before_order(names[h]@, names[k]@, names[h]@);
    assert(!before(names[k]@, names[h]@));
    if nodes[j].eligible() {
        assert(!before(nodes[j].name@, nodes[i].name@));
        if j < i {
            assert(before(nodes[i].name@, nodes[j].name@));
        }
    }
    if k < h {
        assert(before(names[h]@, names[k]@));
    }
}

/// A watched card is addressed by its name, in the system's class directory.
pub proof fn cards_are_addressed_by_name(t: GpuTelemetry, node: CardNode, hwmon: Seq<char>)
    requires
        describes(t, node, hwmon),
    ensures
        t.dev@ == "/sys/class/drm/"@ + node.name@ + "/device"@,
        t.hwmon@ == "/sys/class/drm/"@ + node.name@ + "/device"@ + "/hwmon/"@ + hwmon,
        node.device_id is Some ==> t.label@ == node.name@ + " (0x1002:"@ + trimmed(
            node.device_id->0@,
        ) + ")"@,
        node.device_id is None ==> t.label@ == node.name@ + " (0x1002:"@ + "?"@ + ")"@,
{
}

/// Every figure of a sample's line is the one of its label.
pub proof fn samples_print_each_figure_once(s: SysfsSample)
    ensures
        ({
            let pcie = starred(opt_view(s.pp_dpm_pcie));
            let shown = if pcie is Some {
                pcie->0
            } else {
                "ERR"@
            };
            let head = "  gpu: busy "@ + pct_text(num(s.gpu_busy_percent)) + " mem "@ + pct_text(
                num(s.mem_busy_percent),
            );
            let clocks = head + " | sclk "@ + mhz_text(num(s.freq1_input)) + " mclk "@ + mhz_text(
                num(s.freq2_input),
            ) + " | pcie "@ + shown;
            let heat = clocks + " | PPT "@ + watts_text(num(s.power1_average)) + " | temp e/j/m "@
                + celsius_text(num(s.temp1_input)) + "/"@ + celsius_text(num(s.temp2_input))
                + "/"@ + celsius_text(num(s.temp3_input));
            sample_text(s) == heat + " | visVRAM "@ + megabytes_text(
                num(s.mem_info_vis_vram_used),
                num(s.mem_info_vis_vram_total),
                1048576,
            ) + " | self vram/gtt "@ + megabytes_text(
                residency(s.fds@).0,
                residency(s.fds@).1,
                1024,
            )
        }),
        num(s.gpu_busy_percent) == file_number(opt_view(s.gpu_busy_percent)),
{
}

/// A reading replaces the clock and leaves the reference; asking for the
/// reference raises it to the clock if that is higher, and leaves the clock.
pub proof fn references_follow_the_clock(m: SclkMonitor, hz: u64)
    ensures
        m.read(hz).now == hz,
        m.read(hz).reference == m.reference,
        m.raised().now == m.now,
        m.raised().reference >= m.now,
        m.raised().reference >= m.reference,
        m.raised().reference == m.now || m.raised().reference == m.reference,
{
}

} // verus!
