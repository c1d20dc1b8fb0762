use vstd::prelude::*;
use std::collections::VecDeque;
use crate::text::{chars_of, decimal, decimal_chars, append_chars, string_from_chars};

verus! {

/// Most lines the rolling audio stats log keeps.
pub const MAX_AUDIO_STATS_LOG_LINES: usize = 120;

/// The log after `line` is appended: the oldest line goes when the log is full.
pub open spec fn log_push(lines: Seq<Seq<char>>, line: Seq<char>) -> Seq<Seq<char>> {
    if lines.len() >= MAX_AUDIO_STATS_LOG_LINES {
        lines.drop_first().push(line)
    } else {
        lines.push(line)
    }
}

/// The log after each of `pushed` is appended in turn to an empty log.
pub open spec fn log_after(pushed: Seq<Seq<char>>) -> Seq<Seq<char>>
    decreases pushed.len(),
{
    if pushed.len() == 0 {
        Seq::empty()
    } else {
        log_push(log_after(pushed.drop_last()), pushed.last())
    }
}

/// The newest `MAX_AUDIO_STATS_LOG_LINES` of `pushed`, oldest first.
pub open spec fn latest_lines(pushed: Seq<Seq<char>>) -> Seq<Seq<char>> {
    if pushed.len() <= MAX_AUDIO_STATS_LOG_LINES {
        pushed
    } else {
        pushed.skip(pushed.len() - MAX_AUDIO_STATS_LOG_LINES)
    }
}

/// A small rolling log of command-line-style lines about the audio engine.
pub struct AudioStatsLog {
    lines: VecDeque<String>,
}

impl View for AudioStatsLog {
    type V = Seq<Seq<char>>;

    closed spec fn view(&self) -> Seq<Seq<char>> {
        self.lines@.map_values(|s: String| s@)
    }
}

impl AudioStatsLog {
    /// The log never holds more than `MAX_AUDIO_STATS_LOG_LINES` lines.
    #[verifier::type_invariant]
    closed spec fn bounded(self) -> bool {
        self.lines@.len() <= MAX_AUDIO_STATS_LOG_LINES
    }

    /// An empty log.
    pub fn new() -> (log: Self)
        ensures
            log@ == Seq::<Seq<char>>::empty(),
    {
        let log = AudioStatsLog { lines: VecDeque::with_capacity(MAX_AUDIO_STATS_LOG_LINES) };
        assert(log@ =~= Seq::<Seq<char>>::empty());
        log
    }

    /// Appends `line`, dropping the oldest line when the log is full.
    pub fn push(&mut self, line: String)
        ensures
            final(self)@ == log_push(old(self)@, line@),
            old(self)@.len() <= MAX_AUDIO_STATS_LOG_LINES,
            final(self)@.len() <= MAX_AUDIO_STATS_LOG_LINES,
    {
        proof {
            use_type_invariant(&*self);
        }
        let mut lines: VecDeque<String> = VecDeque::new();
        std::mem::swap(&mut lines, &mut self.lines);
        let ghost before = lines@;
        if lines.len() >= MAX_AUDIO_STATS_LOG_LINES {
            lines.pop_front();
        }
        let ghost mid = lines@;
        lines.push_back(line);
        self.lines = lines;
        proof {
            if before.len() >= MAX_AUDIO_STATS_LOG_LINES {
                assert(mid =~= before.drop_first());
                assert(self@ =~= before.map_values(|s: String| s@).drop_first().push(line@));
            } else {
                assert(self@ =~= before.map_values(|s: String| s@).push(line@));
            }
        }
    }

    /// The kept lines, oldest first.
    pub fn lines(&self) -> (r: Vec<String>)
        ensures
            r@.map_values(|s: String| s@) == self@,
            self@.len() <= MAX_AUDIO_STATS_LOG_LINES,
    {
        proof {
            use_type_invariant(self);
        }
        let mut r: Vec<String> = Vec::new();
        let mut i: usize = 0;
        while i < self.lines.len()
            invariant
                i <= self.lines@.len(),
                r@.map_values(|s: String| s@) == self@.take(i as int),
            decreases self.lines@.len() - i,
        {
            let line = self.lines[i].clone();
            assert(line@ == self@[i as int]);
            let ghost before = r@;
            r.push(line);
            assert(r@ == before.push(line));
            assert(r@.map_values(|s: String| s@) =~= before.map_values(|s: String| s@).push(line@));
            assert(self@.take(i + 1 as int) =~= self@.take(i as int).push(self@[i as int]));
            i = i + 1;
            assert(r@.map_values(|s: String| s@) =~= self@.take(i as int));
        }
        assert(self@.take(self.lines@.len() as int) =~= self@);
        r
    }

    /// Whether no line was kept.
    pub fn is_empty(&self) -> (r: bool)
        ensures
            r == (self@.len() == 0),
            self@.len() <= MAX_AUDIO_STATS_LOG_LINES,
    {
        proof {
            use_type_invariant(self);
        }
        self.lines.len() == 0
    }
}

/// A log that receives the lines `pushed`, one by one, keeps exactly the newest
/// `MAX_AUDIO_STATS_LOG_LINES` of them, oldest first.
pub proof fn lemma_log_keeps_latest_lines(pushed: Seq<Seq<char>>)
    ensures
        log_after(pushed) == latest_lines(pushed),
        log_after(pushed).len() <= MAX_AUDIO_STATS_LOG_LINES,
    decreases pushed.len(),
{
    if pushed.len() > 0 {
        let prev = pushed.drop_last();
        lemma_log_keeps_latest_lines(prev);
        if prev.len() >= MAX_AUDIO_STATS_LOG_LINES {
            assert(latest_lines(prev).drop_first().push(pushed.last()) =~= latest_lines(pushed));
        } else {
            assert(prev.push(pushed.last()) =~= pushed);
        }
    }
}

proof fn lemma_log_push_latest(s: Seq<Seq<char>>, x: Seq<char>)
    ensures
        log_push(latest_lines(s), x) == latest_lines(s.push(x)),
{
    if s.len() > MAX_AUDIO_STATS_LOG_LINES {
        assert(latest_lines(s).drop_first().push(x) =~= latest_lines(s.push(x)));
    } else if s.len() == MAX_AUDIO_STATS_LOG_LINES {
        assert(s.drop_first().push(x) =~= latest_lines(s.push(x)));
    }
}

/// Appending lines to a log of at most `MAX_AUDIO_STATS_LOG_LINES` lines keeps
/// exactly the newest `MAX_AUDIO_STATS_LOG_LINES` of the old and the new lines, in
/// order: nothing but the oldest lines is ever lost, and the log is empty only when
/// both were.
pub proof fn lemma_log_push_all_latest(log: Seq<Seq<char>>, lines: Seq<Seq<char>>)
    requires
        log.len() <= MAX_AUDIO_STATS_LOG_LINES,
    ensures
        log_push_all(log, lines) == latest_lines(log + lines),
        log_push_all(log, lines).len() <= MAX_AUDIO_STATS_LOG_LINES,
        log_push_all(log, lines).len() == 0 <==> (log.len() == 0 && lines.len() == 0),
    decreases lines.len(),
{
    if lines.len() == 0 {
        assert(log + lines =~= log);
    } else {
        lemma_log_push_all_latest(log, lines.drop_last());
        lemma_log_push_latest(log + lines.drop_last(), lines.last());
        assert((log + lines.drop_last()).push(lines.last()) =~= log + lines);
    }
}

/// The line logged when input frames were dropped.
pub open spec fn dropped_input_line(count: nat) -> Seq<char> {
    "$ warning dropped_input_frames="@ + decimal(count)
}

/// The line logged when output frames had to be filled with silence.
pub open spec fn missing_output_line(count: nat) -> Seq<char> {
    "$ warning missing_output_frames="@ + decimal(count)
}

/// The console warning for dropped input frames.
pub open spec fn dropped_input_warning(count: nat) -> Seq<char> {
    "Dropped "@ + decimal(count) + " input frames. Try increasing LATENCY_MS."@
}

/// The console warning for missing output frames.
pub open spec fn missing_output_warning(count: nat) -> Seq<char> {
    "Output needed "@ + decimal(count) + " missing frames. Try increasing LATENCY_MS."@
}

/// The log lines one stats period adds, for the counts it saw.
pub open spec fn stats_log_lines(dropped: nat, missing: nat) -> Seq<Seq<char>> {
    (if dropped > 0 { seq![dropped_input_line(dropped)] } else { Seq::empty() }) + (if missing > 0 {
        seq![missing_output_line(missing)]
    } else {
        Seq::empty()
    })
}

/// The console warnings one stats period prints, for the counts it saw.
pub open spec fn stats_warnings(dropped: nat, missing: nat) -> Seq<Seq<char>> {
    (if dropped > 0 { seq![dropped_input_warning(dropped)] } else { Seq::empty() }) + (if missing > 0 {
        seq![missing_output_warning(missing)]
    } else {
        Seq::empty()
    })
}

/// Counts of dropped input frames and of output frames filled with silence, since
/// the last report, with the log the reports go to.
pub struct AudioStats {
    pub dropped_input_frames: usize,
    pub missing_output_frames: usize,
    pub log: AudioStatsLog,
}

/// The counter after `n` more events: the count wraps as an atomic `fetch_add` does.
pub open spec fn counter_add(count: usize, n: usize) -> usize {
    if count + n > usize::MAX {
        (count + n - (usize::MAX + 1)) as usize
    } else {
        (count + n) as usize
    }
}

fn text_line(prefix: &str, count: usize, suffix: &str) -> (r: String)
    ensures
        r@ == prefix@ + decimal(count as nat) + suffix@,
{
    let mut cs = chars_of(prefix);
    let digits = decimal_chars(count as u128);
    append_chars(&mut cs, digits.as_slice());
    let tail = chars_of(suffix);
    append_chars(&mut cs, tail.as_slice());
    string_from_chars(cs.as_slice())
}

impl AudioStats {
    /// Zero counts, reporting into `log`.
    pub fn new(log: AudioStatsLog) -> (s: Self)
        ensures
            s.dropped_input_frames == 0,
            s.missing_output_frames == 0,
            s.log@ == log@,
    {
        AudioStats { dropped_input_frames: 0, missing_output_frames: 0, log }
    }

    /// Counts `n` more input frames that did not fit into the mic buffer.
    pub fn add_dropped_input_frames(&mut self, n: usize)
        ensures
            final(self).dropped_input_frames == counter_add(old(self).dropped_input_frames, n),
            final(self).missing_output_frames == old(self).missing_output_frames,
            final(self).log@ == old(self).log@,
    {
        self.dropped_input_frames = self.dropped_input_frames.wrapping_add(n);
    }

    /// Counts `n` more output frames for which no mic sample was ready.
    pub fn add_missing_output_frames(&mut self, n: usize)
        ensures
            final(self).missing_output_frames == counter_add(old(self).missing_output_frames, n),
            final(self).dropped_input_frames == old(self).dropped_input_frames,
            final(self).log@ == old(self).log@,
    {
        self.missing_output_frames = self.missing_output_frames.wrapping_add(n);
    }

    /// Closes one stats period: logs a warning line for each non-zero count,
    /// resets both counts, and returns the console warnings to print.
    pub fn report(&mut self) -> (warnings: Vec<String>)
        ensures
            final(self).dropped_input_frames == 0,
            final(self).missing_output_frames == 0,
            old(self).log@.len() <= MAX_AUDIO_STATS_LOG_LINES,
            final(self).log@ == log_push_all(
                old(self).log@,
                stats_log_lines(
                    old(self).dropped_input_frames as nat,
                    old(self).missing_output_frames as nat,
                ),
            ),
            warnings@.map_values(|s: String| s@) == stats_warnings(
                old(self).dropped_input_frames as nat,
                old(self).missing_output_frames as nat,
            ),
    {
        proof {
            use_type_invariant(&self.log);
        }
        let dropped = self.dropped_input_frames;
        let missing = self.missing_output_frames;
        self.dropped_input_frames = 0;
        self.missing_output_frames = 0;
        let mut warnings: Vec<String> = Vec::new();
        let ghost log0 = self.log@;
        proof {
            reveal_strlit("$ warning dropped_input_frames=");
            reveal_strlit("$ warning missing_output_frames=");
            reveal_strlit("Dropped ");
            reveal_strlit(" input frames. Try increasing LATENCY_MS.");
            reveal_strlit("Output needed ");
            reveal_strlit(" missing frames. Try increasing LATENCY_MS.");
            reveal_strlit("");
        }
        if dropped > 0 {
            let line = text_line("$ warning dropped_input_frames=", dropped, "");
            self.log.push(line);
            let warning = text_line("Dropped ", dropped, " input frames. Try increasing LATENCY_MS.");
            warnings.push(warning);
        }
        let ghost log1 = self.log@;
        let ghost w1 = warnings@.map_values(|s: String| s@);
        if missing > 0 {
            let line = text_line("$ warning missing_output_frames=", missing, "");
            self.log.push(line);
            let warning = text_line(
                "Output needed ",
                missing,
                " missing frames. Try increasing LATENCY_MS.",
            );
            warnings.push(warning);
        }
        proof {
            let d = dropped as nat;
            let m = missing as nat;
            let first = if d > 0 { seq![dropped_input_line(d)] } else { Seq::<Seq<char>>::empty() };
            let second = if m > 0 { seq![missing_output_line(m)] } else { Seq::<Seq<char>>::empty() };
            lemma_log_push_all_append(log0, first, second);
            assert(dropped_input_line(d) =~= "$ warning dropped_input_frames="@ + decimal(d) + ""@);
            assert(missing_output_line(m) =~= "$ warning missing_output_frames="@ + decimal(m) + ""@);
            if d > 0 {
                assert(log_push_all(log0, first) == log_push(log_push_all(log0, Seq::empty()), dropped_input_line(d))) by {
                    assert(first.drop_last() =~= Seq::<Seq<char>>::empty());
                }
            } else {
                assert(first =~= Seq::<Seq<char>>::empty());
            }
            assert(log1 == log_push_all(log0, first));
            if m > 0 {
                assert(second.drop_last() =~= Seq::<Seq<char>>::empty());
                assert(log_push_all(log1, second) == log_push(log_push_all(log1, Seq::empty()), missing_output_line(m)));
            } else {
                assert(second =~= Seq::<Seq<char>>::empty());
            }
            assert(self.log@ == log_push_all(log1, second));
            assert(stats_log_lines(d, m) =~= first + second);
            assert(warnings@.map_values(|s: String| s@) =~= stats_warnings(d, m));
        }
        warnings
    }
}

/// The log after each of `lines` is appended in turn.
pub open spec fn log_push_all(log: Seq<Seq<char>>, lines: Seq<Seq<char>>) -> Seq<Seq<char>>
    decreases lines.len(),
{
    if lines.len() == 0 {
        log
    } else {
        log_push(log_push_all(log, lines.drop_last()), lines.last())
    }
}

pub proof fn lemma_log_push_all_append(log: Seq<Seq<char>>, a: Seq<Seq<char>>, b: Seq<Seq<char>>)
    ensures
        log_push_all(log, a + b) == log_push_all(log_push_all(log, a), b),
    decreases b.len(),
{
    if b.len() == 0 {
        assert(a + b =~= a);
    } else {
        lemma_log_push_all_append(log, a, b.drop_last());
        assert((a + b).drop_last() =~= a + b.drop_last());
    }
}

} // verus!
