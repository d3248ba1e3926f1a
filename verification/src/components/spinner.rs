//! A loading spinner that cycles through frames as time passes.
//!
//! Times are milliseconds since the spinner started, on the caller's clock.

use vstd::prelude::*;
use crate::text::concat;

verus! {

/// A spinner animation: its frames and how long each is shown.
pub struct SpinnerAnim {
    pub frames: Vec<&'static str>,
    pub interval_ms: u64,
}

/// The characters of each frame.
pub open spec fn frame_views(f: Seq<&'static str>) -> Seq<Seq<char>> {
    f.map_values(|s: &'static str| s@)
}

/// The frame shown `elapsed` milliseconds after the start.
pub open spec fn frame_index(elapsed: u64, interval: u64, count: nat) -> int {
    (((elapsed / interval) as usize) as nat % count) as int
}

impl SpinnerAnim {
    /// Braille dots, 80 ms a frame.
    pub fn dots() -> (a: SpinnerAnim)
        ensures
            frame_views(a.frames@) == seq!["⠋"@, "⠙"@, "⠹"@, "⠸"@, "⠼"@, "⠴"@, "⠦"@, "⠧"@, "⠇"@, "⠏"@],
            a.interval_ms == 80,
    {
        let mut frames: Vec<&'static str> = Vec::new();
        frames.push("⠋");
        frames.push("⠙");
        frames.push("⠹");
        frames.push("⠸");
        frames.push("⠼");
        frames.push("⠴");
        frames.push("⠦");
        frames.push("⠧");
        frames.push("⠇");
        frames.push("⠏");
        assert(frame_views(frames@) =~= seq!["⠋"@, "⠙"@, "⠹"@, "⠸"@, "⠼"@, "⠴"@, "⠦"@, "⠧"@, "⠇"@, "⠏"@]);
        SpinnerAnim { frames, interval_ms: 80 }
    }

    /// A turning line, 120 ms a frame.
    pub fn line() -> (a: SpinnerAnim)
        ensures
            frame_views(a.frames@) == seq!["-"@, "\\"@, "|"@, "/"@],
            a.interval_ms == 120,
    {
        let mut frames: Vec<&'static str> = Vec::new();
        frames.push("-");
        frames.push("\\");
        frames.push("|");
        frames.push("/");
        assert(frame_views(frames@) =~= seq!["-"@, "\\"@, "|"@, "/"@]);
        SpinnerAnim { frames, interval_ms: 120 }
    }

    /// Small braille dots, 100 ms a frame.
    pub fn mini() -> (a: SpinnerAnim)
        ensures
            frame_views(a.frames@) == seq!["⠋"@, "⠙"@, "⠚"@, "⠞"@, "⠖"@, "⠦"@, "⠴"@, "⠲"@, "⠐"@],
            a.interval_ms == 100,
    {
        let mut frames: Vec<&'static str> = Vec::new();
        frames.push("⠋");
        frames.push("⠙");
        frames.push("⠚");
        frames.push("⠞");
        frames.push("⠖");
        frames.push("⠦");
        frames.push("⠴");
        frames.push("⠲");
        frames.push("⠐");
        assert(frame_views(frames@) =~= seq!["⠋"@, "⠙"@, "⠚"@, "⠞"@, "⠖"@, "⠦"@, "⠴"@, "⠲"@, "⠐"@]);
        SpinnerAnim { frames, interval_ms: 100 }
    }

    /// The frame shown `elapsed` milliseconds after the start: one frame per
    /// interval, round and round.
    pub fn frame(&self, elapsed: u64) -> (f: &'static str)
        requires
            self.interval_ms > 0,
            self.frames@.len() > 0,
        ensures
            f == self.frames@[frame_index(elapsed, self.interval_ms, self.frames@.len())],
    {
        let ticks: usize = #[verifier::truncate] ((elapsed / self.interval_ms) as usize);
        self.frames[ticks % self.frames.len()]
    }
}

/// A spinner with an optional label.
pub struct Spinner {
    pub anim: SpinnerAnim,
    pub label: Option<String>,
}

impl Spinner {
    /// A spinner of braille dots.
    pub fn dots() -> (s: Spinner)
        ensures
            frame_views(s.anim.frames@) == seq!["⠋"@, "⠙"@, "⠹"@, "⠸"@, "⠼"@, "⠴"@, "⠦"@, "⠧"@, "⠇"@, "⠏"@],
            s.anim.interval_ms == 80,
            s.label is None,
    {
        Spinner { anim: SpinnerAnim::dots(), label: None }
    }

    /// A spinner of a turning line.
    pub fn line() -> (s: Spinner)
        ensures
            frame_views(s.anim.frames@) == seq!["-"@, "\\"@, "|"@, "/"@],
            s.anim.interval_ms == 120,
            s.label is None,
    {
        Spinner { anim: SpinnerAnim::line(), label: None }
    }

    /// A spinner of small braille dots.
    pub fn mini() -> (s: Spinner)
        ensures
            frame_views(s.anim.frames@) == seq!["⠋"@, "⠙"@, "⠚"@, "⠞"@, "⠖"@, "⠦"@, "⠴"@, "⠲"@, "⠐"@],
            s.anim.interval_ms == 100,
            s.label is None,
    {
        Spinner { anim: SpinnerAnim::mini(), label: None }
    }

    /// This spinner with a label.
    pub fn with_label(self, label: &str) -> (s: Spinner)
        ensures
            s.anim == self.anim,
            s.label matches Some(l) && l@ == label@,
    {
        Spinner { label: Some(label.to_owned()), ..self }
    }

    /// Sets the label.
    pub fn set_label(&mut self, label: &str)
        ensures
            final(self).anim == old(self).anim,
            final(self).label matches Some(l) && l@ == label@,
    {
        self.label = Some(label.to_owned());
    }

    /// The text shown `elapsed` milliseconds after the start: the frame, then
    /// a space and the label where there is one.
    pub fn text(&self, elapsed: u64) -> (s: String)
        requires
            self.anim.interval_ms > 0,
            self.anim.frames@.len() > 0,
        ensures
            ({
                let f = self.anim.frames@[frame_index(elapsed, self.anim.interval_ms, self.anim.frames@.len())]@;
                s@ == match self.label {
                    Some(l) => f + seq![' '] + l@,
                    None => f,
                }
            }),
    {
        let frame = self.anim.frame(elapsed);
        match &self.label {
            Some(l) => {
                proof {
                    reveal_strlit(" ");
                }
                let a = concat(frame, " ");
                concat(a.as_str(), l.as_str())
            },
            None => frame.to_owned(),
        }
    }
}

/// A spinner's frames repeat: the frame shown is the same one interval times
/// the number of frames later.
pub proof fn lemma_frames_repeat(elapsed: u64, interval: u64, count: nat)
    requires
        interval > 0,
        count > 0,
        elapsed + interval * count <= u64::MAX,
        (elapsed / interval) + count <= usize::MAX,
    ensures
        frame_index(elapsed, interval, count) == frame_index((elapsed + interval * count) as u64, interval, count),
{
    let later = (elapsed + interval * count) as u64;
    let q: int = (elapsed / interval) as int;
    let c: int = count as int;
    vstd::arithmetic::div_mod::lemma_hoist_over_denominator(elapsed as int, c, interval as nat);
    assert(c * interval == interval * count) by (nonlinear_arith)
        requires
            c == count,
    ;
    assert(later / interval == q + c);
    vstd::arithmetic::div_mod::lemma_mod_add_multiples_vanish(q, c);
    assert((c + q) % c == q % c);
}

} // verus!
