//! Console log lines: what is kept of the engine's log, and how a line's
//! uptime stamp and short target are formed.

use vstd::prelude::*;
use crate::text::{chars_of, decimal, digit_char, pad_left, push_char, push_zero_padded, string_of};
use core::time::Duration;

verus! {

/// Severity of a log line, as the engine's logger reports it.
#[derive(Clone, Copy, Debug, PartialEq, Eq, Structural)]
pub enum LogLevel {
    Trace,
    Debug,
    Info,
    Warn,
    Error,
}

/// One captured log line.
#[derive(Clone, Debug)]
pub struct LogLine {
    /// Uptime when the line was emitted, formatted `mm:ss.mmm`.
    pub time: String,
    pub level: LogLevel,
    pub target: String,
    pub message: String,
}

/// At most this many lines are kept; older ones are dropped first.
pub const MAX_LINES: usize = 3000;

/// How many characters of a target's last path segment are shown.
pub const TARGET_SHORT_LEN: usize = 18;

/// The part of `s` after the last `::` (all of `s` when it has none).
pub open spec fn last_segment(s: Seq<char>) -> Seq<char>
    decreases s.len(),
{
    if s.len() == 0 {
        Seq::empty()
    } else if s.len() >= 2 && s[s.len() - 2] == ':' && s[s.len() - 1] == ':' {
        Seq::empty()
    } else {
        last_segment(s.drop_last()).push(s.last())
    }
}

/// The first `TARGET_SHORT_LEN` characters of the last segment of `target`.
pub open spec fn short_target(target: Seq<char>) -> Seq<char> {
    let seg = last_segment(target);
    if seg.len() <= TARGET_SHORT_LEN {
        seg
    } else {
        seg.take(TARGET_SHORT_LEN as int)
    }
}

/// The uptime stamp for `ms` milliseconds: minutes (mod 60), seconds and
/// milliseconds, zero-padded to `mm:ss.mmm`.
pub open spec fn uptime_text(ms: nat) -> Seq<char> {
    pad_left(decimal(ms / 60000 % 60), 2, '0') + seq![':'] + pad_left(decimal(ms / 1000 % 60), 2, '0')
        + seq!['.'] + pad_left(decimal(ms % 1000), 3, '0')
}

/// The lines that remain of `lines` once only the newest `MAX_LINES` are kept.
pub open spec fn keep_newest(lines: Seq<LogLine>) -> Seq<LogLine> {
    if lines.len() > MAX_LINES {
        lines.skip(lines.len() - MAX_LINES)
    } else {
        lines
    }
}

proof fn lemma_segment_step(s: Seq<char>, e: int)
    requires
        2 <= e <= s.len(),
        !(s[e - 2] == ':' && s[e - 1] == ':'),
    ensures
        last_segment(s.take(e)) == last_segment(s.take(e - 1)).push(s[e - 1]),
{
    assert(s.take(e).drop_last() =~= s.take(e - 1));
}

impl LogLine {
    /// Shortened tracing target, e.g. `bevy_render::camera` -> `camera`:
    /// the text after the last `::`, cut to `TARGET_SHORT_LEN` characters.
    pub fn target_short(&self) -> (r: String)
        ensures
            r@ == short_target(self.target@),
            r@.len() <= TARGET_SHORT_LEN,
    {
        let v = chars_of(self.target.as_str());
        let n = v.len();
        let mut e = n;
        assert(v@.take(n as int) =~= v@);
        assert(v@.subrange(n as int, n as int) =~= Seq::<char>::empty());
        assert(last_segment(v@) =~= last_segment(v@.take(e as int)) + v@.subrange(e as int, n as int));
        while e >= 2 && !(v[e - 2] == ':' && v[e - 1] == ':')
            invariant
                n == v@.len(),
                e <= n,
                last_segment(v@) == last_segment(v@.take(e as int)) + v@.subrange(e as int, n as int),
            decreases e,
        {
            proof {
                lemma_segment_step(v@, e as int);
                assert(last_segment(v@.take(e - 1)).push(v@[e - 1]) + v@.subrange(e as int, n as int)
                    =~= last_segment(v@.take(e - 1)) + v@.subrange(e - 1, n as int));
            }
            e = e - 1;
        }
        let start = if e >= 2 {
            assert(last_segment(v@.take(e as int)) =~= Seq::<char>::empty());
            assert(last_segment(v@) =~= v@.subrange(e as int, n as int));
            e
        } else {
            if e == 1 {
                assert(last_segment(v@.take(1)) == last_segment(v@.take(1).drop_last()).push(v@[0]));
                assert(last_segment(v@.take(1).drop_last()) =~= Seq::<char>::empty());
            } else {
                assert(last_segment(v@.take(0)) =~= Seq::<char>::empty());
            }
            assert(last_segment(v@.take(e as int)) =~= v@.take(e as int));
            assert(last_segment(v@) =~= v@.subrange(0, n as int));
            0
        };
        let end = if n - start > TARGET_SHORT_LEN {
            start + TARGET_SHORT_LEN
        } else {
            n
        };
        let mut out: Vec<char> = Vec::new();
        let mut i = start;
        while i < end
            invariant
                start <= i <= end <= n,
                n == v@.len(),
                out@ == v@.subrange(start as int, i as int),
            decreases end - i,
        {
            out.push(v[i]);
            i = i + 1;
            assert(out@ =~= v@.subrange(start as int, i as int));
        }
        assert(out@ =~= short_target(self.target@));
        string_of(&out)
    }
}

/// What std's `Duration::as_millis` returns for `d`: the total number of
/// whole milliseconds it contains (any sub-millisecond part dropped).
pub uninterp spec fn duration_ms(d: Duration) -> nat;

/// std's `Duration::as_millis`; its result is named `duration_ms` of the
/// duration. Nothing more of `Duration`'s contents is stated, as the type is
/// opaque here.
#[verifier::external_body]
fn duration_millis(d: &Duration) -> (r: u128)
    ensures
        r as nat == duration_ms(*d),
{
    d.as_millis()
}

/// Uptime stamp `mm:ss.mmm` for `ms` milliseconds.
pub fn format_uptime_millis(ms: u128) -> (r: String)
    ensures
        r@ == uptime_text(ms as nat),
        r@.len() == 9,
{
    let minutes = (ms / 60000 % 60) as u32;
    let seconds = (ms / 1000 % 60) as u32;
    let millis = (ms % 1000) as u32;
    let mut out = String::new();
    push_zero_padded(&mut out, minutes, 2);
    push_char(&mut out, ':');
    push_zero_padded(&mut out, seconds, 2);
    push_char(&mut out, '.');
    push_zero_padded(&mut out, millis, 3);
    proof {
        lemma_decimal_len_small(minutes as nat);
        lemma_decimal_len_small(seconds as nat);
        lemma_decimal_len_small(millis as nat);
    }
    assert(out@ =~= uptime_text(ms as nat));
    out
}

/// Numbers below 1000 have at most three decimal digits.
proof fn lemma_decimal_len_small(n: nat)
    requires
        n < 1000,
    ensures
        n < 10 ==> decimal(n).len() == 1,
        10 <= n < 100 ==> decimal(n).len() == 2,
        100 <= n ==> decimal(n).len() == 3,
{
    if n >= 10 {
        assert(decimal(n) == decimal(n / 10).push(digit_char(n % 10)));
        if n >= 100 {
            assert(decimal(n / 10) == decimal(n / 100).push(digit_char((n / 10) % 10)));
        }
    }
}

/// Uptime stamp `mm:ss.mmm` of a duration.
pub fn format_uptime(d: Duration) -> (r: String)
    ensures
        r@ == uptime_text(duration_ms(d)),
        r@.len() == 9,
{
    let ms = duration_millis(&d);
    format_uptime_millis(ms)
}

/// Law: the stamp drops whole hours: an uptime one hour later shows the
/// same `mm:ss.mmm`.
pub proof fn lemma_uptime_drops_whole_hours(ms: nat)
    ensures
        uptime_text(ms + 3_600_000) == uptime_text(ms),
{
    assert((ms + 3_600_000) / 60000 == ms / 60000 + 60);
    assert((ms / 60000 + 60) % 60 == (ms / 60000) % 60);
    assert((ms + 3_600_000) / 1000 == ms / 1000 + 3600);
    assert((ms / 1000 + 3600) % 60 == (ms / 1000) % 60);
    assert((ms + 3_600_000) % 1000 == ms % 1000);
}

/// Law: any number of whole hours is dropped from the stamp.
pub proof fn lemma_uptime_drops_hours(r: nat, h: nat)
    ensures
        uptime_text(r + h * 3_600_000) == uptime_text(r),
    decreases h,
{
    if h > 0 {
        let h1 = (h - 1) as nat;
        assert(r + h * 3_600_000 == (r + h1 * 3_600_000) + 3_600_000) by (nonlinear_arith)
            requires h1 + 1 == h;
        lemma_uptime_drops_whole_hours(r + h1 * 3_600_000);
        lemma_uptime_drops_hours(r, h1);
    }
}

/// Appends `line` to the kept lines, then drops the oldest ones beyond
/// `MAX_LINES`.
pub fn push_line(lines: &mut Vec<LogLine>, line: LogLine)
    ensures
        final(lines)@ == keep_newest(old(lines)@.push(line)),
        final(lines)@.len() <= MAX_LINES,
        final(lines)@.last() == line,
{
    lines.push(line);
    let len = lines.len();
    if len > MAX_LINES {
        let kept = lines.split_off(len - MAX_LINES);
        *lines = kept;
    }
}

} // verus!
