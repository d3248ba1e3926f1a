//! Toast notifications: short messages that stack in a corner and expire.
//!
//! Times are milliseconds on the caller's clock: every operation that reads
//! the time takes the current reading as `now`.

use vstd::prelude::*;
use crate::components::style::{split_words, words_of};
use crate::text::{chars_of, string_from_chars, utf8_len, utf8_len_of};
use crate::tui::{Color, Rect};

verus! {

/// How serious a toast is.
#[derive(Debug, Clone, Copy, PartialEq, Eq, Structural)]
pub enum ToastLevel {
    Info,
    Warn,
    Error,
}

impl ToastLevel {
    /// The level's colour.
    pub fn color(self) -> (c: Color)
        ensures
            c == match self {
                ToastLevel::Info => Color::Cyan,
                ToastLevel::Warn => Color::Yellow,
                ToastLevel::Error => Color::Red,
            },
    {
        match self {
            ToastLevel::Info => Color::Cyan,
            ToastLevel::Warn => Color::Yellow,
            ToastLevel::Error => Color::Red,
        }
    }

    /// The level's one-character mark.
    pub fn glyph(self) -> (g: &'static str)
        ensures
            g@ == match self {
                ToastLevel::Info => seq!['i'],
                ToastLevel::Warn => seq!['!'],
                ToastLevel::Error => seq!['x'],
            },
    {
        proof {
            reveal_strlit("i");
            reveal_strlit("!");
            reveal_strlit("x");
        }
        match self {
            ToastLevel::Info => "i",
            ToastLevel::Warn => "!",
            ToastLevel::Error => "x",
        }
    }

    /// How long a toast of this level stays, in milliseconds: three seconds
    /// for information, five for a warning, eight for an error.
    pub fn default_duration(self) -> (ms: u64)
        ensures
            ms == match self {
                ToastLevel::Info => 3000u64,
                ToastLevel::Warn => 5000u64,
                ToastLevel::Error => 8000u64,
            },
    {
        match self {
            ToastLevel::Info => 3000,
            ToastLevel::Warn => 5000,
            ToastLevel::Error => 8000,
        }
    }
}

/// A notification: its level, message, when it was shown and for how long.
#[derive(Debug)]
pub struct Toast {
    pub level: ToastLevel,
    pub message: String,
    pub created_ms: u64,
    pub duration_ms: u64,
}

/// The abstract value of a toast.
pub open spec fn toast_view(t: Toast) -> (ToastLevel, Seq<char>, u64, u64) {
    (t.level, t.message@, t.created_ms, t.duration_ms)
}

/// The abstract values of a sequence of toasts.
pub open spec fn toasts_view(ts: Seq<Toast>) -> Seq<(ToastLevel, Seq<char>, u64, u64)> {
    ts.map_values(|t: Toast| toast_view(t))
}

impl Clone for Toast {
    fn clone(&self) -> (t: Toast)
        ensures
            toast_view(t) == toast_view(*self),
    {
        Toast {
            level: self.level,
            message: self.message.clone(),
            created_ms: self.created_ms,
            duration_ms: self.duration_ms,
        }
    }
}

/// Greedy wrapping of whole words: lines so far and the line being filled.
/// A word joins the line while the line, a space and the word take at most
/// `width` bytes; a word longer than that gets a line of its own.
pub open spec fn toast_fold(words: Seq<Seq<char>>, width: nat) -> (Seq<Seq<char>>, Seq<char>)
    decreases words.len(),
{
    if words.len() == 0 {
        (seq![], seq![])
    } else {
        let (ls, cur) = toast_fold(words.drop_last(), width);
        let w = words.last();
        if cur.len() == 0 {
            (ls, w)
        } else if utf8_len(cur) + 1 + utf8_len(w) <= width {
            (ls, cur + seq![' '] + w)
        } else {
            (ls.push(cur), w)
        }
    }
}

/// A toast's message wrapped to `width` bytes (see [`toast_fold`]); the
/// whole message on one line for width 0, and one empty line for a message
/// without words.
pub open spec fn toast_wrap(text: Seq<char>, width: nat) -> Seq<Seq<char>> {
    if width == 0 {
        seq![text]
    } else {
        let (ls, cur) = toast_fold(words_of(text), width);
        if cur.len() > 0 || ls.len() == 0 {
            ls.push(cur)
        } else {
            ls
        }
    }
}

/// Wraps `text` to lines of at most `width` bytes where its words allow
/// (see [`toast_wrap`]).
pub fn wrap(text: &str, width: usize) -> (out: Vec<String>)
    ensures
        out@.map_values(|s: String| s@) == toast_wrap(text@, width as nat),
{
    if width == 0 {
        let mut out: Vec<String> = Vec::new();
        out.push(text.to_owned());
        assert(out@.map_values(|s: String| s@) =~= seq![text@]);
        return out;
    }
    let chars = chars_of(text);
    let words = split_words(&chars);
    let ghost ws = words@.map_values(|w: Vec<char>| w@);
    let mut lines: Vec<String> = Vec::new();
    let mut cur: Vec<char> = Vec::new();
    let mut i: usize = 0;
    while i < words.len()
        invariant
            i <= words@.len(),
            ws == words@.map_values(|w: Vec<char>| w@),
            ws == words_of(text@),
            width > 0,
            (lines@.map_values(|s: String| s@), cur@) == toast_fold(ws.take(i as int), width as nat),
        decreases words@.len() - i,
    {
        let w = &words[i];
        proof {
            assert(ws.take(i + 1).drop_last() =~= ws.take(i as int));
            assert(ws.take(i + 1).last() == w@);
        }
        if cur.len() == 0 {
            cur = w.clone();
        } else {
            let fits = utf8_len_of(&cur) + 1 + utf8_len_of(w) <= width as u128;
            if fits {
                cur.push(' ');
                let mut k: usize = 0;
                let ghost base = cur@;
                while k < w.len()
                    invariant
                        k <= w@.len(),
                        cur@ == base + w@.subrange(0, k as int),
                    decreases w@.len() - k,
                {
                    cur.push(w[k]);
                    assert(w@.subrange(0, k + 1) =~= w@.subrange(0, k as int).push(w@[k as int]));
                    k = k + 1;
                }
                assert(w@.subrange(0, w@.len() as int) =~= w@);
            } else {
                let ghost prev = lines@;
                let line = string_from_chars(cur.as_slice());
                lines.push(line);
                proof {
                    crate::surface::lemma_map_push(prev, line, |s: String| s@);
                }
                cur = w.clone();
            }
        }
        i = i + 1;
    }
    proof {
        assert(ws.take(words@.len() as int) =~= ws);
    }
    if cur.len() > 0 || lines.len() == 0 {
        let ghost prev = lines@;
        let line = string_from_chars(cur.as_slice());
        lines.push(line);
        proof {
            crate::surface::lemma_map_push(prev, line, |s: String| s@);
        }
    }
    lines
}

/// A stack of toasts, newest last, showing at most `max_visible`.
pub struct Toaster {
    pub queue: Vec<Toast>,
    pub max_visible: usize,
}

/// `now - since`, or 0 where `since` is later.
pub open spec fn age(now: u64, created: u64) -> nat {
    if now > created { (now - created) as nat } else { 0 }
}

/// The toasts still alive at `now`, in order.
pub open spec fn alive(q: Seq<Toast>, now: u64) -> Seq<Toast>
    decreases q.len(),
{
    if q.len() == 0 {
        seq![]
    } else {
        let rest = alive(q.drop_last(), now);
        if age(now, q.last().created_ms) < q.last().duration_ms {
            rest.push(q.last())
        } else {
            rest
        }
    }
}

/// The toasts shown: the newest first, at most `max`.
pub open spec fn shown(q: Seq<Toast>, max: nat) -> Seq<Toast> {
    let r = q.reverse();
    if r.len() <= max {
        r
    } else {
        r.take(max as int)
    }
}

/// Where toasts are stacked in `area`, from the top right corner down, each
/// as wide as the area (at most 40) and as high as its wrapped message plus
/// its border, until one would pass the bottom edge.
pub open spec fn stacked(ts: Seq<Toast>, area: Rect, y: nat) -> Seq<Rect>
    decreases ts.len(),
{
    if ts.len() == 0 {
        seq![]
    } else {
        let width: nat = if area.width < 40 { area.width as nat } else { 40 };
        let lines = toast_wrap(ts[0].message@, if width > 4 { (width - 4) as nat } else { 0 });
        let want: nat = ((lines.len() as u16) + 2) as nat;
        let room: nat = if area.height > y { (area.height - y) as nat } else { 0 };
        let height: nat = if want < room { want } else { room };
        if y + height > area.spec_bottom() {
            seq![]
        } else {
            let right = area.spec_right();
            let rect = Rect {
                x: if right > width { (right - width) as u16 } else { 0 },
                y: y as u16,
                width: width as u16,
                height: height as u16,
            };
            seq![rect] + stacked(ts.drop_first(), area, y + height)
        }
    }
}

/// Every toast's wrapped message, counted in `u16`, leaves room for its
/// border.
pub open spec fn heights_fit(ts: Seq<Toast>, width: nat) -> bool {
    forall|i: int| 0 <= i < ts.len() ==> ((toast_wrap(#[trigger] ts[i].message@, width).len() as u16) + 2 <= u16::MAX)
}

impl Toaster {
    /// An empty toaster showing at most `max_visible` toasts.
    pub fn new(max_visible: usize) -> (t: Toaster)
        ensures
            t.queue@.len() == 0,
            t.max_visible == max_visible,
    {
        Toaster { queue: Vec::new(), max_visible }
    }

    /// Adds a toast of `level` shown at `now` for the level's default
    /// duration.
    pub fn push(&mut self, level: ToastLevel, message: &str, now: u64)
        ensures
            final(self).max_visible == old(self).max_visible,
            final(self).queue@.len() == old(self).queue@.len() + 1,
            final(self).queue@.drop_last() == old(self).queue@,
            ({
                let t = final(self).queue@.last();
                &&& t.level == level
                &&& t.message@ == message@
                &&& t.created_ms == now
                &&& t.duration_ms == level.default_duration_spec()
            }),
    {
        let duration_ms = level.default_duration();
        self.queue.push(Toast { level, message: message.to_owned(), created_ms: now, duration_ms });
        assert(self.queue@.drop_last() =~= old(self).queue@);
    }

    /// Adds an information toast.
    pub fn info(&mut self, message: &str, now: u64)
        ensures
            final(self).max_visible == old(self).max_visible,
            final(self).queue@.drop_last() == old(self).queue@,
            final(self).queue@.len() == old(self).queue@.len() + 1,
            final(self).queue@.last().level == ToastLevel::Info,
            final(self).queue@.last().message@ == message@,
            final(self).queue@.last().created_ms == now,
            final(self).queue@.last().duration_ms == 3000,
    {
        self.push(ToastLevel::Info, message, now);
    }

    /// Adds a warning toast.
    pub fn warn(&mut self, message: &str, now: u64)
        ensures
            final(self).max_visible == old(self).max_visible,
            final(self).queue@.drop_last() == old(self).queue@,
            final(self).queue@.len() == old(self).queue@.len() + 1,
            final(self).queue@.last().level == ToastLevel::Warn,
            final(self).queue@.last().message@ == message@,
            final(self).queue@.last().created_ms == now,
            final(self).queue@.last().duration_ms == 5000,
    {
        self.push(ToastLevel::Warn, message, now);
    }

    /// Adds an error toast.
    pub fn error(&mut self, message: &str, now: u64)
        ensures
            final(self).max_visible == old(self).max_visible,
            final(self).queue@.drop_last() == old(self).queue@,
            final(self).queue@.len() == old(self).queue@.len() + 1,
            final(self).queue@.last().level == ToastLevel::Error,
            final(self).queue@.last().message@ == message@,
            final(self).queue@.last().created_ms == now,
            final(self).queue@.last().duration_ms == 8000,
    {
        self.push(ToastLevel::Error, message, now);
    }

    /// Removes the toast at `idx`.
    pub fn dismiss(&mut self, idx: usize)
        requires
            idx < old(self).queue@.len(),
        ensures
            final(self).queue@ == old(self).queue@.remove(idx as int),
            final(self).max_visible == old(self).max_visible,
    {
        self.queue.remove(idx);
    }

    /// Removes every toast.
    pub fn clear(&mut self)
        ensures
            final(self).queue@.len() == 0,
            final(self).max_visible == old(self).max_visible,
    {
        self.queue.clear();
    }

    /// Drops the toasts that have expired by `now` (see [`alive`]).
    pub fn gc(&mut self, now: u64)
        ensures
            final(self).queue@ == alive(old(self).queue@, now),
            final(self).max_visible == old(self).max_visible,
    {
        let mut q: Vec<Toast> = Vec::new();
        std::mem::swap(&mut q, &mut self.queue);
        let ghost orig = q@;
        let mut kept: Vec<Toast> = Vec::new();
        while q.len() > 0
            invariant
                orig == old(self).queue@,
                q@.len() <= orig.len(),
                q@ == orig.subrange(orig.len() - q@.len(), orig.len() as int),
                kept@ == alive(orig.take(orig.len() - q@.len()), now),
                self.max_visible == old(self).max_visible,
            decreases q@.len(),
        {
            let ghost k = orig.len() - q@.len();
            let t = q.remove(0);
            proof {
                assert(t == orig[k]);
                assert(orig.take(k + 1).drop_last() =~= orig.take(k));
                assert(q@ =~= orig.subrange(orig.len() - q@.len(), orig.len() as int));
            }
            if now.saturating_sub(t.created_ms) < t.duration_ms {
                kept.push(t);
            }
        }
        assert(orig.take(orig.len() as int) =~= orig);
        self.queue = kept;
    }

    /// The toasts shown, newest first (see [`shown`]).
    pub fn visible(&self) -> (v: Vec<Toast>)
        ensures
            toasts_view(v@) == toasts_view(shown(self.queue@, self.max_visible as nat)),
    {
        let mut v: Vec<Toast> = Vec::new();
        let n = self.queue.len();
        let mut i: usize = 0;
        while i < n && i < self.max_visible
            invariant
                n == self.queue@.len(),
                i <= n,
                i <= self.max_visible,
                toasts_view(v@) == toasts_view(self.queue@.reverse().take(i as int)),
            decreases n - i,
        {
            let t = self.queue[n - 1 - i].clone();
            let ghost prev = v@;
            v.push(t);
            proof {
                crate::surface::lemma_map_push(prev, t, |t: Toast| toast_view(t));
                assert(self.queue@.reverse().take(i + 1) =~= self.queue@.reverse().take(i as int).push(
                    self.queue@[n - 1 - i],
                ));
                crate::surface::lemma_map_push(
                    self.queue@.reverse().take(i as int),
                    self.queue@[n - 1 - i],
                    |t: Toast| toast_view(t),
                );
            }
            i = i + 1;
        }
        proof {
            if n <= self.max_visible {
                assert(self.queue@.reverse().take(n as int) =~= self.queue@.reverse());
            }
        }
        v
    }

    /// Drops expired toasts at `now`, then says where each shown toast goes
    /// in `area` (see [`stacked`]), paired with it.
    pub fn layout(&mut self, area: Rect, now: u64) -> (out: Vec<(Rect, Toast)>)
        requires
            heights_fit(
                shown(alive(old(self).queue@, now), old(self).max_visible as nat),
                if area.width < 40 && area.width > 4 {
                    (area.width - 4) as nat
                } else if area.width >= 40 {
                    36
                } else {
                    0
                },
            ),
        ensures
            final(self).queue@ == alive(old(self).queue@, now),
            final(self).max_visible == old(self).max_visible,
            ({
                let vis = shown(final(self).queue@, final(self).max_visible as nat);
                let rects = stacked(vis, area, area.y as nat);
                &&& out@.len() == rects.len()
                &&& forall|i: int|
                    0 <= i < out@.len() ==> (#[trigger] out@[i]).0 == rects[i] && toast_view(out@[i].1) == toast_view(
                        vis[i],
                    )
            }),
    {
        self.gc(now);
        let vis = self.visible();
        let width: u16 = if area.width < 40 {
            area.width
        } else {
            40
        };
        let inner_w: usize = width.saturating_sub(4) as usize;
        let bottom = area.bottom();
        let right = area.right();
        let mut out: Vec<(Rect, Toast)> = Vec::new();
        let mut y: u16 = area.y;
        let mut i: usize = 0;
        let ghost all = stacked(vis@, area, area.y as nat);
        let ghost sh = shown(self.queue@, self.max_visible as nat);
        proof {
            lemma_same_toasts(vis@, sh, area, area.y as nat, inner_w as nat);
        }
        assert(vis@.subrange(0, vis@.len() as int) =~= vis@);
        while i < vis.len()
            invariant
                i <= vis@.len(),
                toasts_view(vis@) == toasts_view(sh),
                all == stacked(vis@, area, area.y as nat),
                bottom == area.spec_bottom(),
                right == area.spec_right(),
                width as nat == if area.width < 40 { area.width as nat } else { 40 },
                inner_w as nat == if width > 4 { (width - 4) as nat } else { 0 },
                heights_fit(vis@, inner_w as nat),
                out@.len() == i,
                all == out@.map_values(|p: (Rect, Toast)| p.0) + stacked(
                    vis@.subrange(i as int, vis@.len() as int),
                    area,
                    y as nat,
                ),
                forall|k: int| 0 <= k < i ==> toast_view((#[trigger] out@[k]).1) == toast_view(vis@[k]),
            ensures
                all == out@.map_values(|p: (Rect, Toast)| p.0),
                out@.len() <= vis@.len(),
                forall|k: int| 0 <= k < out@.len() ==> toast_view((#[trigger] out@[k]).1) == toast_view(vis@[k]),
            decreases vis@.len() - i,
        {
            let t = &vis[i];
            let lines = wrap(t.message.as_str(), inner_w);
            let ghost rest = vis@.subrange(i as int, vis@.len() as int);
            proof {
                assert(rest[0] == vis@[i as int]);
                assert(lines@.len() == lines@.map_values(|s: String| s@).len());
                assert(((toast_wrap(vis@[i as int].message@, inner_w as nat).len() as u16) + 2 <= u16::MAX));
            }
            let want: u16 = (#[verifier::truncate] (lines.len() as u16)) + 2;
            let room: u16 = area.height.saturating_sub(y);
            let height: u16 = if want < room {
                want
            } else {
                room
            };
            if y as u32 + height as u32 > bottom as u32 {
                proof {
                    assert(stacked(rest, area, y as nat) =~= seq![]);
                    assert(all =~= out@.map_values(|p: (Rect, Toast)| p.0));
                }
                break;
            }
            let rect = Rect { x: right.saturating_sub(width), y, width, height };
            let ghost prev = out@;
            let copy = t.clone();
            out.push((rect, copy));
            proof {
                crate::surface::lemma_map_push(prev, (rect, copy), |p: (Rect, Toast)| p.0);
                assert(rest.drop_first() =~= vis@.subrange(i + 1, vis@.len() as int));
                assert(stacked(rest, area, y as nat) == seq![rect] + stacked(rest.drop_first(), area, (y + height) as nat));
                assert(all =~= out@.map_values(|p: (Rect, Toast)| p.0) + stacked(
                    vis@.subrange(i + 1, vis@.len() as int),
                    area,
                    (y + height) as nat,
                ));
            }
            y = y + height;
            i = i + 1;
        }
        proof {
            assert(vis@.len() == toasts_view(vis@).len());
            assert(sh.len() == toasts_view(sh).len());
            assert forall|k: int| 0 <= k < out@.len() implies toast_view((#[trigger] out@[k]).1) == toast_view(
                sh[k],
            ) by {
                assert(toasts_view(vis@)[k] == toasts_view(sh)[k]);
            }
        }
        out
    }
}

/// Toasts with the same abstract values stack alike and wrap alike.
pub proof fn lemma_same_toasts(a: Seq<Toast>, b: Seq<Toast>, area: Rect, y: nat, width: nat)
    requires
        toasts_view(a) == toasts_view(b),
    ensures
        stacked(a, area, y) == stacked(b, area, y),
        heights_fit(a, width) == heights_fit(b, width),
    decreases a.len(),
{
    assert(a.len() == toasts_view(a).len());
    assert(b.len() == toasts_view(b).len());
    assert forall|i: int| 0 <= i < a.len() implies a[i].message@ == b[i].message@ by {
        assert(toasts_view(a)[i] == toasts_view(b)[i]);
    }
    if a.len() > 0 {
        assert(toasts_view(a.drop_first()) =~= toasts_view(a).drop_first());
        assert(toasts_view(b.drop_first()) =~= toasts_view(b).drop_first());
        let width0: nat = if area.width < 40 { area.width as nat } else { 40 };
        let lines = toast_wrap(a[0].message@, if width0 > 4 { (width0 - 4) as nat } else { 0 });
        let want: nat = ((lines.len() as u16) + 2) as nat;
        let room: nat = if area.height > y { (area.height - y) as nat } else { 0 };
        let height: nat = if want < room { want } else { room };
        lemma_same_toasts(a.drop_first(), b.drop_first(), area, y + height, width);
    }
    if heights_fit(a, width) {
        assert forall|i: int| 0 <= i < b.len() implies ((toast_wrap(#[trigger] b[i].message@, width).len() as u16) + 2
            <= u16::MAX) by {
            assert(a[i].message@ == b[i].message@);
        }
    }
    if heights_fit(b, width) {
        assert forall|i: int| 0 <= i < a.len() implies ((toast_wrap(#[trigger] a[i].message@, width).len() as u16) + 2
            <= u16::MAX) by {
            assert(a[i].message@ == b[i].message@);
        }
    }
}

impl ToastLevel {
    /// The level's default duration, in milliseconds.
    pub open spec fn default_duration_spec(self) -> u64 {
        match self {
            ToastLevel::Info => 3000u64,
            ToastLevel::Warn => 5000u64,
            ToastLevel::Error => 8000u64,
        }
    }
}

impl Clone for Toaster {
    /// An independent copy of the toaster as it is now.
    fn clone(&self) -> (t: Toaster)
        ensures
            toasts_view(t.queue@) == toasts_view(self.queue@),
            t.max_visible == self.max_visible,
    {
        let mut queue: Vec<Toast> = Vec::new();
        let mut i: usize = 0;
        while i < self.queue.len()
            invariant
                i <= self.queue@.len(),
                toasts_view(queue@) == toasts_view(self.queue@).take(i as int),
            decreases self.queue@.len() - i,
        {
            let c = self.queue[i].clone();
            let ghost prev = queue@;
            queue.push(c);
            proof {
                crate::surface::lemma_map_push(prev, c, |t: Toast| toast_view(t));
                assert(toasts_view(self.queue@).take(i + 1) =~= toasts_view(self.queue@).take(i as int).push(
                    toast_view(self.queue@[i as int]),
                ));
            }
            i = i + 1;
        }
        assert(toasts_view(self.queue@).take(self.queue@.len() as int) =~= toasts_view(self.queue@));
        Toaster { queue, max_visible: self.max_visible }
    }
}

} // verus!
