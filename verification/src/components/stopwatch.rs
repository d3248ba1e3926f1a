//! A stopwatch that shows elapsed time.
//!
//! Times are milliseconds on the caller's clock: every operation that reads
//! the time takes the current reading as `now`.

use vstd::prelude::*;
use crate::text::{concat, decimal, zero_padded};
use crate::tui::KeyCode;

verus! {

/// Whether the stopwatch is counting.
#[derive(Debug, Clone, Copy, PartialEq, Eq, Structural)]
pub enum StopwatchState {
    Idle,
    Running,
    Paused,
}

/// A stopwatch: its state, the time counted before the current run, when
/// the current run started, and a label.
pub struct Stopwatch {
    pub state: StopwatchState,
    pub elapsed_ms: u64,
    pub last_tick: Option<u64>,
    pub label: String,
}

/// `now - since`, or 0 where `since` is later.
pub open spec fn since(now: u64, since: u64) -> nat {
    if now > since { (now - since) as nat } else { 0 }
}

/// The time shown: the counted time plus, while running, the time since the
/// current run started.
pub open spec fn elapsed_at(st: StopwatchState, elapsed: u64, last: Option<u64>, now: u64) -> nat {
    if st == StopwatchState::Running {
        match last {
            Some(l) => elapsed as nat + since(now, l),
            None => elapsed as nat,
        }
    } else {
        elapsed as nat
    }
}

/// A time as the stopwatch shows it: minutes and seconds of two digits or
/// more, a dot and three digits of milliseconds.
pub open spec fn clock_text(ms: nat) -> Seq<char> {
    let secs = ms / 1000;
    zero_padded(secs / 60, 2) + seq![':'] + zero_padded(secs % 60, 2) + seq!['.'] + zero_padded(ms % 1000, 3)
}

impl Stopwatch {
    /// An idle stopwatch at zero, without a label.
    pub fn new() -> (s: Stopwatch)
        ensures
            s.state == StopwatchState::Idle,
            s.elapsed_ms == 0,
            s.last_tick is None,
            s.label@.len() == 0,
    {
        Stopwatch { state: StopwatchState::Idle, elapsed_ms: 0, last_tick: None, label: String::new() }
    }

    /// This stopwatch with a label.
    pub fn with_label(self, label: &str) -> (s: Stopwatch)
        ensures
            s.label@ == label@,
            s.state == self.state,
            s.elapsed_ms == self.elapsed_ms,
            s.last_tick == self.last_tick,
    {
        Stopwatch { label: label.to_owned(), ..self }
    }

    /// Starts counting from `now` unless already running.
    pub fn start(&mut self, now: u64)
        ensures
            old(self).state != StopwatchState::Running ==> final(self).state == StopwatchState::Running
                && final(self).last_tick == Some(now) && final(self).elapsed_ms == old(self).elapsed_ms,
            old(self).state == StopwatchState::Running ==> *final(self) == *old(self),
            final(self).label == old(self).label,
    {
        if self.state != StopwatchState::Running {
            self.state = StopwatchState::Running;
            self.last_tick = Some(now);
        }
    }

    /// Stops a running stopwatch at `now`, adding the current run to the
    /// counted time.
    pub fn stop(&mut self, now: u64)
        requires
            elapsed_at(old(self).state, old(self).elapsed_ms, old(self).last_tick, now) <= u64::MAX,
        ensures
            old(self).state == StopwatchState::Running ==> {
                &&& final(self).state == StopwatchState::Paused
                &&& final(self).elapsed_ms == elapsed_at(
                    old(self).state,
                    old(self).elapsed_ms,
                    old(self).last_tick,
                    now,
                )
                &&& final(self).last_tick is None
            },
            old(self).state != StopwatchState::Running ==> *final(self) == *old(self),
            final(self).label == old(self).label,
    {
        if self.state == StopwatchState::Running {
            if let Some(last) = self.last_tick {
                let additional = now.saturating_sub(last);
                self.elapsed_ms = self.elapsed_ms + additional;
            }
            self.state = StopwatchState::Paused;
            self.last_tick = None;
        }
    }

    /// Back to idle at zero.
    pub fn reset(&mut self)
        ensures
            final(self).state == StopwatchState::Idle,
            final(self).elapsed_ms == 0,
            final(self).last_tick is None,
            final(self).label == old(self).label,
    {
        self.state = StopwatchState::Idle;
        self.elapsed_ms = 0;
        self.last_tick = None;
    }

    /// Starts an idle or paused stopwatch, stops a running one.
    pub fn toggle(&mut self, now: u64)
        requires
            elapsed_at(old(self).state, old(self).elapsed_ms, old(self).last_tick, now) <= u64::MAX,
        ensures
            old(self).state != StopwatchState::Running ==> final(self).state == StopwatchState::Running
                && final(self).last_tick == Some(now) && final(self).elapsed_ms == old(self).elapsed_ms,
            old(self).state == StopwatchState::Running ==> final(self).state == StopwatchState::Paused
                && final(self).elapsed_ms == elapsed_at(
                old(self).state,
                old(self).elapsed_ms,
                old(self).last_tick,
                now,
            ) && final(self).last_tick is None,
            final(self).label == old(self).label,
    {
        match self.state {
            StopwatchState::Idle | StopwatchState::Paused => self.start(now),
            StopwatchState::Running => self.stop(now),
        }
    }

    /// The time shown at `now` (see [`elapsed_at`]).
    pub fn current_elapsed(&self, now: u64) -> (ms: u64)
        requires
            elapsed_at(self.state, self.elapsed_ms, self.last_tick, now) <= u64::MAX,
        ensures
            ms == elapsed_at(self.state, self.elapsed_ms, self.last_tick, now),
    {
        if self.state == StopwatchState::Running {
            match self.last_tick {
                Some(last) => self.elapsed_ms + now.saturating_sub(last),
                None => self.elapsed_ms,
            }
        } else {
            self.elapsed_ms
        }
    }

    /// Handles a key at `now`: Enter and space toggle, `r` resets.
    pub fn on_key(&mut self, code: KeyCode, now: u64)
        requires
            elapsed_at(old(self).state, old(self).elapsed_ms, old(self).last_tick, now) <= u64::MAX,
        ensures
            final(self).label == old(self).label,
            code == KeyCode::Enter || code == KeyCode::Char(' ') ==> {
                &&& old(self).state != StopwatchState::Running ==> final(self).state == StopwatchState::Running
                    && final(self).last_tick == Some(now) && final(self).elapsed_ms == old(self).elapsed_ms
                &&& old(self).state == StopwatchState::Running ==> final(self).state == StopwatchState::Paused
                    && final(self).elapsed_ms == elapsed_at(
                    old(self).state,
                    old(self).elapsed_ms,
                    old(self).last_tick,
                    now,
                ) && final(self).last_tick is None
            },
            code == KeyCode::Char('r') ==> final(self).state == StopwatchState::Idle && final(self).elapsed_ms == 0
                && final(self).last_tick is None,
            !(code == KeyCode::Enter || code == KeyCode::Char(' ') || code == KeyCode::Char('r')) ==> *final(self)
                == *old(self),
    {
        match code {
            KeyCode::Enter => self.toggle(now),
            KeyCode::Char(c) => {
                if c == ' ' {
                    self.toggle(now);
                } else if c == 'r' {
                    self.reset();
                }
            },
            _ => {},
        }
    }

    /// Marks the start of the current run at `now` where a running stopwatch
    /// has none.
    pub fn tick(&mut self, now: u64)
        ensures
            old(self).state == StopwatchState::Running && old(self).last_tick is None ==> *final(self) == (Stopwatch {
                last_tick: Some(now),
                ..*old(self)
            }),
            !(old(self).state == StopwatchState::Running && old(self).last_tick is None) ==> *final(self) == *old(
                self,
            ),
    {
        if self.state == StopwatchState::Running && self.last_tick.is_none() {
            self.last_tick = Some(now);
        }
    }

    /// The text shown at `now`: the time (see [`clock_text`]), then a space
    /// and the label where there is one.
    pub fn display(&self, now: u64) -> (s: String)
        requires
            elapsed_at(self.state, self.elapsed_ms, self.last_tick, now) <= u64::MAX,
        ensures
            ({
                let t = clock_text(elapsed_at(self.state, self.elapsed_ms, self.last_tick, now));
                s@ == if self.label@.len() == 0 { t } else { t + seq![' '] + self.label@ }
            }),
    {
        let ms = self.current_elapsed(now);
        let secs = ms / 1000;
        proof {
            reveal_strlit(":");
            reveal_strlit(".");
            reveal_strlit(" ");
        }
        let a = concat(decimal(secs / 60, 2).as_str(), ":");
        let b = concat(a.as_str(), decimal(secs % 60, 2).as_str());
        let c = concat(b.as_str(), ".");
        let text = concat(c.as_str(), decimal(ms % 1000, 3).as_str());
        if self.label.as_str().is_empty() {
            text
        } else {
            let d = concat(text.as_str(), " ");
            concat(d.as_str(), self.label.as_str())
        }
    }
}

impl Default for Stopwatch {
    fn default() -> (s: Stopwatch)
        ensures
            s.state == StopwatchState::Idle,
            s.elapsed_ms == 0,
            s.last_tick is None,
            s.label@.len() == 0,
    {
        Stopwatch::new()
    }
}

/// Stopping a running stopwatch and starting it again later counts the time
/// before the stop and after the restart, not the pause: at any `now` after
/// the restart the shown time is the first run plus the time since restart.
pub proof fn lemma_pause_is_not_counted(elapsed: u64, start: u64, stop: u64, restart: u64, now: u64)
    requires
        start <= stop,
        stop <= restart,
        restart <= now,
        elapsed + (stop - start) <= u64::MAX,
    ensures
        ({
            let after_stop = elapsed_at(StopwatchState::Running, elapsed, Some(start), stop);
            elapsed_at(StopwatchState::Running, after_stop as u64, Some(restart), now) == elapsed + (stop - start) + (
            now - restart)
        }),
{
}

} // verus!
