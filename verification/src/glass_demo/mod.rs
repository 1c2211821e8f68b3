//! The liquid-glass demo: its shapes, its keys, its capture runs and its
//! arguments.

use vstd::prelude::*;
use vstd::string::*;
use crate::text::{
    chars_of, concat2, concat3, lowercase, matches_at, occurs_at, parse_signed, same, signed_number,
    string_of, text_of, texts, to_lower,
};

pub mod panel;
pub mod probe;

verus! {

pub const MAX_SHAPES: usize = 8;

pub const MAX_RIPPLES: usize = 4;

/// How many presets there are.
pub const PRESETS: usize = 6;

/// How long a ripple lasts, in microseconds.
pub const RIPPLE_US: u64 = 2_600_000;

/// The longest step of the clock, in microseconds.
pub const STEP_US: i64 = 250_000;

/// Where the shapes of a preset stand.
#[derive(Debug, Clone, Copy, PartialEq, Eq, Structural)]
pub enum Layout {
    /// One large card, centred.
    Card,
    /// Three pills close enough to fuse.
    Blobs,
    /// A row of chips.
    Chips,
}

/// The name of a preset.
pub open spec fn preset_name(i: int) -> &'static str {
    if i == 0 {
        "Regular"
    } else if i == 1 {
        "Clear"
    } else if i == 2 {
        "Prism"
    } else if i == 3 {
        "Liquid"
    } else if i == 4 {
        "Concave"
    } else {
        "Bar chips"
    }
}

/// The layout of a preset.
pub open spec fn preset_layout(i: int) -> Layout {
    if i == 3 {
        Layout::Blobs
    } else if i >= 5 {
        Layout::Chips
    } else {
        Layout::Card
    }
}

/// The preset with an index; the last for all that are larger.
pub fn preset_index(i: usize) -> (r: usize)
    ensures
        r == if i < PRESETS {
            i as int
        } else {
            PRESETS - 1
        },
{
    if i < PRESETS {
        i
    } else {
        PRESETS - 1
    }
}

/// The name and the layout of a preset.
pub fn preset(i: usize) -> (r: (&'static str, Layout))
    ensures
        r.0 == preset_name(i as int),
        r.1 == preset_layout(i as int),
{
    match i {
        0 => ("Regular", Layout::Card),
        1 => ("Clear", Layout::Card),
        2 => ("Prism", Layout::Card),
        3 => ("Liquid", Layout::Blobs),
        4 => ("Concave", Layout::Card),
        _ => ("Bar chips", Layout::Chips),
    }
}

// ── Shapes and ripples ─────────────────────────────────────────────────

/// A list with one more, the oldest leaving so that no more than `max` are
/// left.
pub open spec fn bounded<T>(list: Seq<T>, item: T, max: int) -> Seq<T> {
    if list.len() >= max {
        list.skip(list.len() - max + 1).push(item)
    } else {
        list.push(item)
    }
}

/// Starts a ripple; the oldest give way.
pub fn push_ripple<T>(ripples: &mut Vec<T>, ripple: T)
    ensures
        final(ripples)@ == bounded(old(ripples)@, ripple, MAX_RIPPLES as int),
{
    let ghost all = ripples@;
    assert(all.skip(0) =~= all);
    while ripples.len() >= MAX_RIPPLES
        invariant
            ripples@.len() <= all.len(),
            ripples@ == all.skip(all.len() - ripples@.len()),
            all.len() >= MAX_RIPPLES ==> ripples@.len() >= MAX_RIPPLES - 1,
            all.len() < MAX_RIPPLES ==> ripples@.len() == all.len(),
        decreases ripples@.len(),
    {
        let ghost before = ripples@;
        ripples.remove(0);
        assert(ripples@ =~= before.skip(1));
        assert(ripples@ =~= all.skip(all.len() - ripples@.len()));
    }
    ripples.push(ripple);
    assert(ripples@ =~= bounded(all, ripple, MAX_RIPPLES as int));
}

/// Adds a shape; the oldest gives way where there are as many as the shader
/// takes.
pub fn add_shape<T>(shapes: &mut Vec<T>, shape: T)
    requires
        old(shapes)@.len() <= MAX_SHAPES,
    ensures
        final(shapes)@ == bounded(old(shapes)@, shape, MAX_SHAPES as int),
{
    let ghost all = shapes@;
    if shapes.len() >= MAX_SHAPES {
        shapes.remove(0);
        assert(shapes@ =~= all.skip(1));
    }
    shapes.push(shape);
    assert(shapes@ =~= bounded(all, shape, MAX_SHAPES as int));
}

/// There are never more shapes or ripples than the shader takes, and the
/// newest is always among them.
pub proof fn law_lists_stay_bounded<T>(list: Seq<T>, item: T, max: int)
    requires
        max > 0,
    ensures
        bounded(list, item, max).len() <= max,
        bounded(list, item, max).last() == item,
{
}

/// The topmost of the shapes that a point lies in; `inside` says of each
/// shape, the lowest first, whether it does.
pub fn pick(inside: &Vec<bool>) -> (r: Option<usize>)
    ensures
        match r {
            Some(i) => {
                &&& i < inside@.len()
                &&& inside@[i as int]
                &&& forall|j: int| i < j < inside@.len() ==> !#[trigger] inside@[j]
            },
            None => forall|j: int| 0 <= j < inside@.len() ==> !#[trigger] inside@[j],
        },
{
    let mut n: usize = inside.len();
    while n > 0
        invariant
            n <= inside@.len(),
            forall|j: int| n <= j < inside@.len() ==> !#[trigger] inside@[j],
        decreases n,
    {
        if inside[n - 1] {
            return Some(n - 1);
        }
        n -= 1;
    }
    None
}

/// Whether a ripple still runs.
pub fn ripple_runs(born: u64, now: u64) -> (r: bool)
    requires
        born <= now,
    ensures
        r == (now - born < RIPPLE_US),
{
    now - born < RIPPLE_US
}

/// The clock of the demo after a frame.
pub open spec fn ticked(time: u64, step: i64, paused: bool) -> int {
    if paused || step < 0 {
        time as int
    } else if step > STEP_US {
        time + STEP_US
    } else {
        time + step
    }
}

/// The clock of the demo after a frame. Time is added up rather than read, so
/// that the backdrop does not jump after a pause.
pub fn clock_after(time: u64, step: i64, paused: bool) -> (r: u64)
    requires
        time <= u64::MAX - 250_000,
    ensures
        r == ticked(time, step, paused),
{
    if paused || step < 0 {
        time
    } else if step > STEP_US {
        time + STEP_US as u64
    } else {
        time + step as u64
    }
}

// ── Keys ───────────────────────────────────────────────────────────────

/// A key of the demo.
#[derive(Debug, Clone, Copy, PartialEq, Eq, Structural)]
pub enum Key {
    /// One of the digits from one to six.
    Digit(u8),
    D,
    T,
    P,
    N,
    R,
    Tab,
    Q,
    Escape,
    Other,
}

/// What a key takes, beyond the state of the demo.
#[derive(Debug, Clone, Copy, PartialEq, Eq, Structural)]
pub enum Press {
    /// Apply this preset; where `sync`, move the sliders too.
    Preset { index: usize, sync: bool },
    /// Add a shape under the pointer.
    AddShape,
    Close,
    Nothing,
    /// The key means nothing here.
    Pass,
}

/// The demo: what its keys change.
#[derive(Debug, Clone, Copy, PartialEq, Eq, Structural)]
pub struct Demo {
    pub preset: usize,
    /// Which debug view is on; none at zero.
    pub debug: i32,
    /// How much of the test card is mixed in, in thousandths.
    pub test_card: u32,
    pub paused: bool,
    /// The parameter panel shows.
    pub panel: bool,
}

/// The test card after another: off, on, mixed, off.
pub open spec fn next_card(card: u32) -> u32 {
    if card > 900 {
        450
    } else if card > 200 {
        0
    } else {
        1000
    }
}

/// The debug view after another. A view below zero, which only the environment
/// can ask for, steps up towards zero.
pub open spec fn next_debug(d: i32) -> i32 {
    if d < -1 {
        (-((-(d + 1)) % 5)) as i32
    } else {
        ((d + 1) % 5) as i32
    }
}

/// The preset of a digit.
pub open spec fn digit_preset(d: u8) -> usize {
    if d <= 1 {
        0
    } else if d > PRESETS {
        (PRESETS - 1) as usize
    } else {
        (d - 1) as usize
    }
}

/// The demo after a key.
pub open spec fn pressed(d: Demo, key: Key) -> (Demo, Press) {
    match key {
        Key::Digit(n) => (
            Demo { preset: digit_preset(n), ..d },
            Press::Preset { index: digit_preset(n), sync: true },
        ),
        Key::D => (Demo { debug: next_debug(d.debug), ..d }, Press::Nothing),
        Key::T => (Demo { test_card: next_card(d.test_card), ..d }, Press::Nothing),
        Key::P => (Demo { paused: !d.paused, ..d }, Press::Nothing),
        Key::N => (d, Press::AddShape),
        Key::R => (d, Press::Preset { index: d.preset, sync: false }),
        Key::Tab => (Demo { panel: !d.panel, ..d }, Press::Nothing),
        Key::Q | Key::Escape => (d, Press::Close),
        Key::Other => (d, Press::Pass),
    }
}

impl Demo {
    /// The first preset. The environment may name a debug view, and say how
    /// much of the test card is mixed in; nearly half of it where it does not.
    pub fn new(debug: Option<&str>, test_card: Option<u32>) -> (r: Demo)
        ensures
            r.preset == 0,
            r.debug == match debug {
                Some(s) => match signed_number(s@) {
                    Some(n) => n,
                    None => 0,
                },
                None => 0,
            },
            r.test_card == match test_card {
                Some(t) => t,
                None => 450,
            },
            !r.paused,
            r.panel,
    {
        let debug: i32 = match debug {
            Some(s) => {
                let v = chars_of(s);
                match parse_signed(v.as_slice()) {
                    Some(n) => n,
                    None => 0,
                }
            },
            None => 0,
        };
        let test_card: u32 = match test_card {
            Some(t) => t,
            None => 450,
        };
        Demo { preset: 0, debug, test_card, paused: false, panel: true }
    }

    /// Takes a key.
    pub fn press(&mut self, key: Key) -> (r: Press)
        requires
            key is D ==> old(self).debug < i32::MAX,
        ensures
            (*final(self), r) == pressed(*old(self), key),
    {
        match key {
            Key::Digit(n) => {
                let index: usize = if n <= 1 {
                    0
                } else {
                    preset_index(n as usize - 1)
                };
                self.preset = index;
                Press::Preset { index, sync: true }
            },
            Key::D => {
                let next: i32 = self.debug + 1;
                self.debug = if next < 0 {
                    let below: u32 = (-(next as i64)) as u32 % 5;
                    -(below as i32)
                } else {
                    (next as u32 % 5) as i32
                };
                Press::Nothing
            },
            Key::T => {
                self.test_card = if self.test_card > 900 {
                    450
                } else if self.test_card > 200 {
                    0
                } else {
                    1000
                };
                Press::Nothing
            },
            Key::P => {
                self.paused = !self.paused;
                Press::Nothing
            },
            Key::N => Press::AddShape,
            Key::R => Press::Preset { index: self.preset, sync: false },
            Key::Tab => {
                self.panel = !self.panel;
                Press::Nothing
            },
            Key::Q | Key::Escape => Press::Close,
            Key::Other => Press::Pass,
        }
    }

    /// What the corner of the screen says of the debug view.
    pub fn debug_label(&self) -> (r: &'static str)
        ensures
            r == if self.debug == 1 {
                "debug: surface normals"
            } else if self.debug == 2 {
                "debug: height field"
            } else if self.debug == 3 {
                "debug: merged SDF"
            } else if self.debug == 4 {
                "debug: light concentration (red gain, blue loss)"
            } else {
                "Tab for parameters, 1-6 for presets, d for debug views"
            },
    {
        match self.debug {
            1 => "debug: surface normals",
            2 => "debug: height field",
            3 => "debug: merged SDF",
            4 => "debug: light concentration (red gain, blue loss)",
            _ => "Tab for parameters, 1-6 for presets, d for debug views",
        }
    }
}

/// The backdrop key goes round the test card, the mix and the wallpaper.
pub proof fn law_the_backdrop_key_goes_round(d: Demo)
    requires
        d.test_card == 1000 || d.test_card == 450 || d.test_card == 0,
    ensures
        pressed(pressed(pressed(d, Key::T).0, Key::T).0, Key::T).0 == d,
{
}

// ── Capture runs ───────────────────────────────────────────────────────

/// What a frame of a capture run takes.
#[derive(Debug, Clone, Copy, PartialEq, Eq, Structural)]
pub enum Capture {
    Nothing,
    /// Write this preset, and go on with the next.
    Write { index: usize, next: usize },
    /// Write this preset, the last one, and close.
    Last { index: usize },
}

/// What frame `n` of a capture run takes.
pub open spec fn captured(n: u32) -> Capture {
    if n < 2 || (n - 2) % 3 != 2 || (n - 2) / 3 >= PRESETS {
        Capture::Nothing
    } else if (n - 2) / 3 == PRESETS - 1 {
        Capture::Last { index: (PRESETS - 1) as usize }
    } else {
        Capture::Write { index: ((n - 2) / 3) as usize, next: ((n - 2) / 3 + 1) as usize }
    }
}

/// What frame `n` of a capture run takes: after two warm-up frames each preset
/// has three, and its last is written.
pub fn capture(n: u32) -> (r: Capture)
    ensures
        r == captured(n),
{
    if n < 2 || (n - 2) % 3 != 2 {
        return Capture::Nothing;
    }
    let index: usize = ((n - 2) / 3) as usize;
    if index >= PRESETS {
        Capture::Nothing
    } else if index == PRESETS - 1 {
        Capture::Last { index }
    } else {
        Capture::Write { index, next: index + 1 }
    }
}

/// Whether a character stands in a file name as it is.
pub open spec fn plain(c: char) -> bool {
    ('a' <= c <= 'z') || ('A' <= c <= 'Z') || ('0' <= c <= '9')
}

/// A text with a dash for all that is no letter or digit of ASCII.
pub open spec fn dashed(s: Seq<char>) -> Seq<char> {
    s.map_values(
        |c: char|
            if plain(c) {
                c
            } else {
                '-'
            },
    )
}

/// A text with a dash for all that is no letter or digit of ASCII.
pub fn dash(s: &str) -> (r: String)
    ensures
        r@ == dashed(s@),
{
    let v = chars_of(s);
    let mut out: Vec<char> = Vec::new();
    let mut i: usize = 0;
    assert(out@ =~= dashed(s@).take(0));
    while i < v.len()
        invariant
            i <= v@.len(),
            v@ == s@,
            out@ == dashed(s@).take(i as int),
        decreases v@.len() - i,
    {
        let c: char = v[i];
        if (c >= 'a' && c <= 'z') || (c >= 'A' && c <= 'Z') || (c >= '0' && c <= '9') {
            out.push(c);
        } else {
            out.push('-');
        }
        assert(out@ =~= dashed(s@).take(i + 1));
        i += 1;
    }
    assert(out@ =~= dashed(s@));
    string_of(out.as_slice())
}

/// The file that a capture is written to.
pub fn capture_path(dir: &str, name: &str) -> (r: String)
    ensures
        r@ == dir@ + "/"@ + dashed(lowercase(name@)) + ".png"@,
{
    let low = to_lower(name);
    let slug = dash(low.as_str());
    let head = concat3(dir, "/", slug.as_str());
    concat2(head.as_str(), ".png")
}

/// A picture upside down: the rows of `stride` bytes in reverse.
pub open spec fn flipped(buf: Seq<u8>, stride: int) -> Seq<u8> {
    Seq::new(buf.len(), |i: int| buf[buf.len() - stride - (i - i % stride) + i % stride])
}

/// Turns a picture upside down.
pub fn flip_rows(buf: &Vec<u8>, stride: usize) -> (r: Vec<u8>)
    requires
        stride > 0,
        buf@.len() % (stride as nat) == 0,
    ensures
        r@ == flipped(buf@, stride as int),
{
    let mut out: Vec<u8> = Vec::new();
    let n: usize = buf.len();
    let mut i: usize = 0;
    while i < n
        invariant
            i <= n,
            n == buf@.len(),
            stride > 0,
            n as int % stride as int == 0,
            out@.len() == i,
            forall|j: int| 0 <= j < i ==> #[trigger] out@[j] == flipped(buf@, stride as int)[j],
        decreases n - i,
    {
        proof {
            lemma_row_fits(n as int, stride as int, i as int);
        }
        let col: usize = i % stride;
        let row: usize = i - col;
        let at: usize = n - stride - row + col;
        out.push(buf[at]);
        i += 1;
    }
    assert(out@ =~= flipped(buf@, stride as int));
    out
}

proof fn lemma_row_fits(n: int, stride: int, i: int)
    requires
        stride > 0,
        n % stride == 0,
        0 <= i < n,
    ensures
        0 <= i % stride < stride,
        i % stride <= i,
        i - i % stride + stride <= n,
{
    let q = i / stride;
    let rows = n / stride;
    vstd::arithmetic::div_mod::lemma_fundamental_div_mod(i, stride);
    vstd::arithmetic::div_mod::lemma_fundamental_div_mod(n, stride);
    vstd::arithmetic::div_mod::lemma_mod_bound(i, stride);
    assert(i == stride * q + i % stride);
    assert(n == stride * rows);
    assert(q < rows) by (nonlinear_arith)
        requires
            stride > 0,
            i == stride * q + i % stride,
            0 <= i % stride,
            n == stride * rows,
            i < n,
    ;
    assert(q >= 0) by {
        vstd::arithmetic::div_mod::lemma_div_pos_is_pos(i, stride);
    }
    assert(stride * q >= 0) by (nonlinear_arith)
        requires
            stride > 0,
            q >= 0,
    ;
    assert(stride * q + stride <= stride * rows) by (nonlinear_arith)
        requires
            stride > 0,
            q < rows,
    ;
}

/// The bytes in a row of four-byte pixels, and in the whole picture; none
/// where there is nothing to see.
pub fn picture_size(w: i32, h: i32) -> (r: Option<(u64, u64)>)
    ensures
        r is None <==> w <= 0 || h <= 0,
        r is Some ==> (r->0).0 == w * 4 && (r->0).1 == w * 4 * h,
{
    if w <= 0 || h <= 0 {
        return None;
    }
    let stride: u64 = w as u64 * 4;
    let rows: u64 = h as u64;
    assert(stride * rows <= u64::MAX) by (nonlinear_arith)
        requires
            0 <= stride <= 0x1_ffff_fffc,
            0 <= rows <= 0x7fff_ffff,
    ;
    Some((stride, stride * rows))
}

/// A picture that is turned upside down twice is the picture.
pub proof fn law_flipping_twice_changes_nothing(buf: Seq<u8>, stride: int)
    requires
        stride > 0,
        buf.len() % (stride as nat) == 0,
    ensures
        flipped(flipped(buf, stride), stride) == buf,
{
    let once = flipped(buf, stride);
    let n = buf.len() as int;
    assert forall|i: int| 0 <= i < n implies flipped(once, stride)[i] == buf[i] by {
        lemma_row_fits(n, stride, i);
        let col = i % stride;
        let j = n - stride - (i - col) + col;
        vstd::arithmetic::div_mod::lemma_fundamental_div_mod(i, stride);
        vstd::arithmetic::div_mod::lemma_fundamental_div_mod(n, stride);
        let q = n / stride - 1 - i / stride;
        assert(j == q * stride + col) by (nonlinear_arith)
            requires
                j == n - stride - (i - col) + col,
                n == stride * (n / stride),
                i == stride * (i / stride) + col,
                q == n / stride - 1 - i / stride,
        ;
        vstd::arithmetic::div_mod::lemma_fundamental_div_mod_converse(j, stride, q, col);
        assert(j % stride == col);
        assert(0 <= j < n);
        assert(once[j] == buf[i]);
    }
    assert(flipped(once, stride) =~= buf);
}

// ── Arguments ──────────────────────────────────────────────────────────

/// What the arguments of the demo say.
#[derive(Debug, PartialEq, Eq)]
pub struct Args {
    pub wallpaper: Option<String>,
    pub shot_dir: Option<String>,
}

/// What arguments say, given what was said before them: the last word for each
/// wins.
pub open spec fn read_args(
    args: Seq<Seq<char>>,
    wallpaper: Option<Seq<char>>,
    shot_dir: Option<Seq<char>>,
) -> (Option<Seq<char>>, Option<Seq<char>>)
    decreases args.len(),
{
    if args.len() == 0 {
        (wallpaper, shot_dir)
    } else if args[0] == "--lock"@ {
        read_args(args.skip(1), wallpaper, shot_dir)
    } else if args[0] == "--shot"@ && args.len() > 1 {
        read_args(args.skip(2), wallpaper, Some(args[1]))
    } else {
        read_args(args.skip(1), Some(args[0]), shot_dir)
    }
}

/// Reads the arguments behind the program: `--shot` and a directory, else the
/// path of a wallpaper.
pub fn parse_args(args: &Vec<String>) -> (r: Args)
    ensures
        (text_of(r.wallpaper), text_of(r.shot_dir)) == read_args(texts(args@), None, None),
{
    let mut wallpaper: Option<String> = None;
    let mut shot_dir: Option<String> = None;
    let ghost all = texts(args@);
    let mut i: usize = 0;
    assert(all.skip(0) =~= all);
    while i < args.len()
        invariant
            i <= args@.len(),
            all == texts(args@),
            read_args(all, None, None) == read_args(
                all.skip(i as int),
                text_of(wallpaper),
                text_of(shot_dir),
            ),
        decreases args@.len() - i,
    {
        let ghost rest = all.skip(i as int);
        assert(rest[0] == args@[i as int]@);
        assert(rest.skip(1) =~= all.skip(i + 1));
        if same(args[i].as_str(), "--lock") {
            i += 1;
        } else if same(args[i].as_str(), "--shot") && args.len() - i > 1 {
            assert(rest[1] == args@[i + 1]@);
            assert(rest.skip(2) =~= all.skip(i + 2));
            shot_dir = Some(args[i + 1].clone());
            i += 2;
        } else {
            wallpaper = Some(args[i].clone());
            i += 1;
        }
    }
    Args { wallpaper, shot_dir }
}

/// The wallpaper: the one that an argument names, else the one of the
/// environment. An empty path is none.
pub fn wallpaper_path<'a>(arg: Option<&'a str>, env: Option<&'a str>) -> (r: Option<&'a str>)
    ensures
        r == match if arg is Some {
            arg
        } else {
            env
        } {
            Some(p) => if p@.len() > 0 {
                Some(p)
            } else {
                None
            },
            None => None,
        },
{
    let path = match arg {
        Some(p) => Some(p),
        None => env,
    };
    match path {
        Some(p) => {
            proof {
                reveal_strlit("");
                if p@.len() == 0 {
                    assert(p@ =~= ""@);
                }
            }
            if same(p, "") {
                None
            } else {
                Some(p)
            }
        },
        None => None,
    }
}

/// The directory behind the first `--shot`.
pub open spec fn first_shot(args: Seq<Seq<char>>) -> Option<Seq<char>>
    decreases args.len(),
{
    if args.len() == 0 {
        None
    } else if args[0] == "--shot"@ {
        if args.len() > 1 {
            Some(args[1])
        } else {
            None
        }
    } else {
        first_shot(args.skip(1))
    }
}

/// The first word that is neither an option nor the directory of captures.
pub open spec fn first_path(args: Seq<Seq<char>>, shot: Option<Seq<char>>) -> Option<Seq<char>>
    decreases args.len(),
{
    if args.len() == 0 {
        None
    } else if !occurs_at(args[0], "--"@, 0) && Some(args[0]) != shot {
        Some(args[0])
    } else {
        first_path(args.skip(1), shot)
    }
}

/// Reads the arguments of the lock probe, the program among them.
pub fn parse_lock_args(args: &Vec<String>) -> (r: Args)
    requires
        args@.len() > 0,
    ensures
        text_of(r.shot_dir) == first_shot(texts(args@)),
        text_of(r.wallpaper) == first_path(texts(args@).skip(1), first_shot(texts(args@))),
{
    let ghost all = texts(args@);
    let mut shot: Option<String> = None;
    let mut i: usize = 0;
    let mut found = false;
    assert(all.skip(0) =~= all);
    while i < args.len() && !found
        invariant
            i <= args@.len(),
            all == texts(args@),
            !found ==> shot is None && first_shot(all) == first_shot(all.skip(i as int)),
            found ==> text_of(shot) == first_shot(all),
        decreases args@.len() - i,
    {
        let ghost rest = all.skip(i as int);
        assert(rest[0] == args@[i as int]@);
        assert(rest.skip(1) =~= all.skip(i + 1));
        if same(args[i].as_str(), "--shot") {
            found = true;
            if args.len() - i > 1 {
                assert(rest[1] == args@[i + 1]@);
                shot = Some(args[i + 1].clone());
            }
        }
        i += 1;
    }
    let dashes = chars_of("--");
    let mut wallpaper: Option<String> = None;
    let mut k: usize = 1;
    let ghost want = first_path(all.skip(1), text_of(shot));
    while k < args.len()
        invariant
            1 <= k <= args@.len(),
            all == texts(args@),
            dashes@ == "--"@,
            text_of(shot) == first_shot(all),
            wallpaper is None,
            want == first_path(all.skip(1), text_of(shot)),
            want == first_path(all.skip(k as int), text_of(shot)),
        decreases args@.len() - k,
    {
        let ghost rest = all.skip(k as int);
        assert(rest[0] == args@[k as int]@);
        assert(rest.skip(1) =~= all.skip(k + 1));
        let v = chars_of(args[k].as_str());
        let is_shot = match &shot {
            Some(s) => same(s.as_str(), args[k].as_str()),
            None => false,
        };
        if !matches_at(v.as_slice(), dashes.as_slice(), 0) && !is_shot {
            return Args { wallpaper: Some(args[k].clone()), shot_dir: shot };
        }
        k += 1;
    }
    Args { wallpaper, shot_dir: shot }
}

/// The presets, in order, with where their shapes stand.
pub proof fn law_the_presets_in_order(i: int)
    requires
        0 <= i < 6,
    ensures
        PRESETS == 6,
        preset_name(i) == seq!["Regular", "Clear", "Prism", "Liquid", "Concave", "Bar chips"][i],
        preset_layout(i) is Blobs <==> i == 3,
        preset_layout(i) is Chips <==> i == 5,
        preset_layout(i) is Card <==> i != 3 && i != 5,
{
}

/// What is kept of a list and one more are the newest, in their order, and as
/// many of them as may be.
pub proof fn law_the_newest_are_kept<T>(list: Seq<T>, item: T, max: int, k: int)
    requires
        max > 0,
    ensures
        ({
            let all = list.push(item);
            let kept = bounded(list, item, max);
            &&& all.len() <= max ==> kept == all
            &&& all.len() > max ==> kept.len() == max
            &&& 0 <= k < kept.len() ==> kept[k] == all[all.len() - kept.len() + k]
        }),
        MAX_SHAPES == 8,
        MAX_RIPPLES == 4,
        RIPPLE_US == 2_600_000,
        STEP_US == 250_000,
{
}

/// A digit chooses the preset that it counts, and the sliders move along.
pub proof fn law_a_digit_chooses_its_preset(d: Demo, n: u8)
    requires
        1 <= n <= 6,
    ensures
        pressed(d, Key::Digit(n)).0 == (Demo { preset: (n - 1) as usize, ..d }),
        pressed(d, Key::Digit(n)).1 == (Press::Preset { index: (n - 1) as usize, sync: true }),
{
}

/// The debug key goes through four views and comes round to none; a view below
/// zero comes closer to zero.
pub proof fn law_the_debug_key_goes_round(d: Demo)
    requires
        d.debug < i32::MAX,
    ensures
        0 <= d.debug < 4 ==> pressed(d, Key::D).0.debug == d.debug + 1,
        d.debug == 4 || d.debug == -1 ==> pressed(d, Key::D).0.debug == 0,
        -5 <= d.debug < 0 ==> pressed(d, Key::D).0.debug == d.debug + 1,
        -5 < pressed(d, Key::D).0.debug < 5,
        d.debug >= 0 ==> (pressed(d, Key::D).0.debug - d.debug - 1) % 5 == 0,
        pressed(d, Key::D).0 == (Demo { debug: pressed(d, Key::D).0.debug, ..d }),
        pressed(d, Key::D).1 is Nothing,
{
    if d.debug < -1 {
        let m = -(d.debug + 1);
        assert(0 <= m % 5 < 5);
        if -5 <= d.debug {
            assert(m % 5 == m);
        }
    }
}

/// Each other key changes what it is for and nothing else: the backdrop goes
/// from off to on to mixed, pausing and the panel turn around, and the rest
/// leaves the demo as it is.
pub proof fn law_what_each_key_does(d: Demo)
    ensures
        pressed(d, Key::T).0 == (Demo {
            test_card: if d.test_card > 900 {
                450
            } else if d.test_card > 200 {
                0
            } else {
                1000
            },
            ..d
        }),
        pressed(d, Key::T).1 is Nothing,
        pressed(d, Key::P) == (Demo { paused: !d.paused, ..d }, Press::Nothing),
        pressed(d, Key::Tab) == (Demo { panel: !d.panel, ..d }, Press::Nothing),
        pressed(d, Key::N) == (d, Press::AddShape),
        pressed(d, Key::R) == (d, Press::Preset { index: d.preset, sync: false }),
        pressed(d, Key::Q) == (d, Press::Close),
        pressed(d, Key::Escape) == (d, Press::Close),
        pressed(d, Key::Other) == (d, Press::Pass),
{
}

/// The name of a capture is as long as that of its preset; letters and digits
/// of ASCII stand in it as they are, and a dash for everything else.
pub proof fn law_only_letters_digits_and_dashes(s: Seq<char>, i: int)
    requires
        0 <= i < s.len(),
    ensures
        dashed(s).len() == s.len(),
        ({
            let kept = ('a' <= s[i] <= 'z') || ('A' <= s[i] <= 'Z') || ('0' <= s[i] <= '9');
            dashed(s)[i] == if kept {
                s[i]
            } else {
                '-'
            }
        }),
{
}

/// The byte at a place in a row comes from the same place in the row that is as
/// far from the other end.
pub proof fn law_rows_change_places(buf: Seq<u8>, stride: int, rows: int, r: int, c: int)
    requires
        stride > 0,
        buf.len() == rows * stride,
        0 <= r < rows,
        0 <= c < stride,
    ensures
        flipped(buf, stride).len() == buf.len(),
        flipped(buf, stride)[r * stride + c] == buf[(rows - 1 - r) * stride + c],
{
    let i = r * stride + c;
    vstd::arithmetic::div_mod::lemma_fundamental_div_mod_converse(i, stride, r, c);
    assert(0 <= i < rows * stride) by (nonlinear_arith)
        requires
            i == r * stride + c,
            0 <= r < rows,
            0 <= c < stride,
    ;
    assert(rows * stride - stride - r * stride == (rows - 1 - r) * stride) by (nonlinear_arith);
}

/// Options aside, the last argument is the wallpaper.
pub proof fn law_the_last_path_is_the_wallpaper(
    args: Seq<Seq<char>>,
    wallpaper: Option<Seq<char>>,
    shot: Option<Seq<char>>,
)
    requires
        forall|i: int|
            0 <= i < args.len() ==> #[trigger] args[i] != "--lock"@ && args[i] != "--shot"@,
    ensures
        read_args(args, wallpaper, shot) == (
            if args.len() > 0 {
                Some(args.last())
            } else {
                wallpaper
            },
            shot,
        ),
    decreases args.len(),
{
    if args.len() > 0 {
        let rest = args.skip(1);
        assert forall|i: int| 0 <= i < rest.len() implies #[trigger] rest[i] != "--lock"@
            && rest[i] != "--shot"@ by {
            assert(rest[i] == args[i + 1]);
        }
        assert(args[0] != "--lock"@ && args[0] != "--shot"@);
        law_the_last_path_is_the_wallpaper(rest, Some(args[0]), shot);
    }
}

/// `--lock` in front says nothing, and `--shot` takes the argument behind it
/// for the directory; without one it is a path like any other.
pub proof fn law_what_the_options_take(
    rest: Seq<Seq<char>>,
    dir: Seq<char>,
    wallpaper: Option<Seq<char>>,
    shot: Option<Seq<char>>,
)
    ensures
        read_args(seq!["--lock"@] + rest, wallpaper, shot) == read_args(rest, wallpaper, shot),
        read_args(seq!["--shot"@, dir] + rest, wallpaper, shot) == read_args(
            rest,
            wallpaper,
            Some(dir),
        ),
        read_args(seq!["--shot"@], wallpaper, shot) == (Some("--shot"@), shot),
        read_args(Seq::empty(), wallpaper, shot) == (wallpaper, shot),
{
    reveal_strlit("--shot");
    reveal_strlit("--lock");
    assert("--shot"@[2] != "--lock"@[2]);
    assert((seq!["--lock"@] + rest).skip(1) =~= rest);
    assert((seq!["--shot"@, dir] + rest).skip(2) =~= rest);
    assert(seq!["--shot"@].skip(1) =~= Seq::<Seq<char>>::empty());
    assert(read_args(Seq::empty(), Some("--shot"@), shot) == (Some("--shot"@), shot));
}

/// The captures of the lock probe go behind the first `--shot`; where nothing
/// stands behind it, or there is none, nothing is captured.
pub proof fn law_the_first_shot_counts(args: Seq<Seq<char>>, k: int)
    ensures
        0 <= k < args.len() - 1 && args[k] == "--shot"@ && (forall|j: int|
            0 <= j < k ==> #[trigger] args[j] != "--shot"@) ==> first_shot(args) == Some(
            args[k + 1],
        ),
        (forall|j: int| 0 <= j < args.len() - 1 ==> #[trigger] args[j] != "--shot"@) ==> first_shot(
            args,
        ) is None,
    decreases args.len(),
{
    if args.len() > 0 {
        let rest = args.skip(1);
        assert(forall|j: int| 0 <= j < rest.len() ==> #[trigger] rest[j] == args[j + 1]);
        law_the_first_shot_counts(rest, k - 1);
        if 0 < k < args.len() - 1 {
            assert(rest[k - 1] == args[k] && rest[k] == args[k + 1]);
        }
    }
}

/// The wallpaper of the lock probe is the first argument that does not start
/// with two dashes and is not the directory of the captures.
pub proof fn law_the_first_path_counts(args: Seq<Seq<char>>, shot: Option<Seq<char>>, k: int)
    ensures
        ({
            let path = |a: Seq<char>|
                !(a.len() >= 2 && a[0] == '-' && a[1] == '-') && shot != Some(a);
            &&& 0 <= k < args.len() && path(args[k]) && (forall|j: int|
                0 <= j < k ==> !path(#[trigger] args[j])) ==> first_path(args, shot) == Some(
                args[k],
            )
            &&& (forall|j: int| 0 <= j < args.len() ==> !path(#[trigger] args[j])) ==> first_path(
                args,
                shot,
            ) is None
        }),
    decreases args.len(),
{
    if args.len() > 0 {
        let a = args[0];
        reveal_strlit("--");
        if a.len() >= 2 && a[0] == '-' && a[1] == '-' {
            assert(a.subrange(0, 2) =~= "--"@);
        }
        if occurs_at(a, "--"@, 0) {
            assert(a.subrange(0, 2)[0] == '-' && a.subrange(0, 2)[1] == '-');
        }
        let rest = args.skip(1);
        assert(forall|j: int| 0 <= j < rest.len() ==> #[trigger] rest[j] == args[j + 1]);
        law_the_first_path_counts(rest, shot, k - 1);
        if 0 < k < args.len() {
            assert(rest[k - 1] == args[k]);
        }
    }
}

/// Every preset is written once, with its third frame after the two to warm up,
/// and the run goes on with the next; the last ends it. No other frame is
/// written.
pub proof fn law_each_preset_is_written_once(n: u32, i: int)
    requires
        0 <= i < 6,
    ensures
        n == 4 + 3 * i && i < 5 ==> captured(n) == (Capture::Write {
            index: i as usize,
            next: (i + 1) as usize,
        }),
        n == 19 ==> captured(n) == (Capture::Last { index: 5 }),
        n < 4 || n > 19 || n % 3 != 1 ==> captured(n) is Nothing,
{
}

/// The clock stands still while paused, never goes back, and makes at most a
/// quarter of a second in a frame; a shorter step counts as it is.
pub proof fn law_the_clock_goes_on_in_small_steps(time: u64, step: i64, paused: bool)
    ensures
        paused ==> ticked(time, step, paused) == time,
        time <= ticked(time, step, paused) <= time + 250_000,
        !paused && 0 <= step <= 250_000 ==> ticked(time, step, paused) == time + step,
        !paused && step > 250_000 ==> ticked(time, step, paused) == time + 250_000,
{
}

} // verus!
