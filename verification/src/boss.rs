//! The boss key: a fake, steadily scrolling server log that replaces the
//! reader on screen.
//!
//! Log lines are generated from a xorshift64 sequence; the log keeps at most
//! `MAX_LINES` lines, dropping the oldest first.
use vstd::prelude::*;

use std::collections::VecDeque;

use crate::state::now_unix;
use crate::text::{
    chars_of, decimal, extend, format_clock, hex_fixed, push_decimal, push_hex_fixed, replace,
    replace_all, string_of, clock_text,
};

verus! {

/// The most lines the fake log keeps.
pub const MAX_LINES: usize = 256;

/// How many lines a fresh log starts with.
pub const INITIAL_LINES: usize = 24;

/// Milliseconds between two generated lines.
pub const EMIT_EVERY_MS: u128 = 150;

/// Severity of a log line.
#[derive(Clone, Copy, Debug, PartialEq, Eq, Structural)]
pub enum Level {
    Info,
    Warn,
    Error,
    Debug,
}

impl Level {
    /// The five-column label printed for the level.
    pub fn label(&self) -> (r: &'static str)
        ensures
            r@ == level_label(*self),
    {
        match self {
            Level::Info => "INFO ",
            Level::Warn => "WARN ",
            Level::Error => "ERROR",
            Level::Debug => "DEBUG",
        }
    }
}

/// The label of each level.
pub open spec fn level_label(l: Level) -> Seq<char> {
    match l {
        Level::Info => "INFO "@,
        Level::Warn => "WARN "@,
        Level::Error => "ERROR"@,
        Level::Debug => "DEBUG"@,
    }
}

/// One line of the fake log.
#[derive(Debug)]
pub struct LogLine {
    pub ts_secs: u64,
    pub level: Level,
    pub message: String,
}

/// A log line as a value.
pub ghost struct LineView {
    pub ts_secs: u64,
    pub level: Level,
    pub message: Seq<char>,
}

impl View for LogLine {
    type V = LineView;

    open spec fn view(&self) -> LineView {
        LineView { ts_secs: self.ts_secs, level: self.level, message: self.message@ }
    }
}

impl Clone for LogLine {
    fn clone(&self) -> (r: Self)
        ensures
            r@ == self@,
    {
        LogLine { ts_secs: self.ts_secs, level: self.level, message: self.message.clone() }
    }
}

impl LogLine {
    /// The line's time of day, `HH:MM:SS`.
    pub fn timestamp(&self) -> (r: String)
        ensures
            r@ == clock_text(self.ts_secs as nat),
    {
        format_ts(self.ts_secs)
    }
}

/// A log timestamp: the UTC time of day `HH:MM:SS` of seconds since the epoch.
pub fn format_ts(secs: u64) -> (r: String)
    ensures
        r@ == clock_text(secs as nat),
{
    format_clock(secs)
}

/// The views of a sequence of log lines.
pub open spec fn lines_view(s: Seq<LogLine>) -> Seq<LineView> {
    s.map_values(|l: LogLine| l@)
}

/// Viewing lines after a push is pushing the view.
pub proof fn lemma_lines_view_push(v: Seq<LogLine>, l: LogLine)
    ensures
        lines_view(v.push(l)) == lines_view(v).push(l@),
{
    assert(lines_view(v.push(l)) =~= lines_view(v).push(l@));
}

/// The fake log as a value: its lines, oldest first, the generator state and
/// the number of lines generated so far (wrapping).
pub ghost struct BossView {
    pub lines: Seq<LineView>,
    pub rng_state: u64,
    pub counter: u64,
    /// When the wait for the next line started.
    pub last_emit: std::time::Instant,
}

// ---------------------------------------------------------------------------
// Generation
// ---------------------------------------------------------------------------

/// One step of xorshift64 (shifts 13, 7, 17).
pub open spec fn xorshift(x: u64) -> u64 {
    let a = x ^ (x << 13u64);
    let b = a ^ (a >> 7u64);
    b ^ (b << 17u64)
}

/// Advances a xorshift64 generator state and returns the new value.
pub fn xorshift_step(state: &mut u64) -> (r: u64)
    ensures
        r == xorshift(*old(state)),
        *final(state) == r,
{
    let mut x = *state;
    x = x ^ (x << 13u64);
    x = x ^ (x >> 7u64);
    x = x ^ (x << 17u64);
    *state = x;
    x
}

/// The seed derived from a time in seconds: a multiplicative hash, folded, made odd.
pub open spec fn seed_of(secs: u64) -> u64 {
    let x = vstd::wrapping::u64_specs::wrapping_mul(secs, 0x9E3779B97F4A7C15u64);
    let y = x ^ (x >> 33u64);
    y | 1u64
}

/// The generator seed for a time in seconds.
pub fn seed_for(secs: u64) -> (r: u64)
    ensures
        r == seed_of(secs),
{
    let mut x = secs.wrapping_mul(0x9E3779B97F4A7C15u64);
    x = x ^ (x >> 33u64);
    x | 1u64
}

/// A seed for the generator, from the current time.
pub fn seed_from_time() -> (r: u64)
    ensures
        exists|t: u64| r == seed_of(t),
{
    seed_for(now_unix())
}

/// The element of `choices` that `seed` selects.
pub fn pick<T: Copy>(seed: &u64, choices: &[T]) -> (r: T)
    requires
        choices@.len() > 0,
    ensures
        r == choices@[((*seed as usize) as int) % (choices@.len() as int)],
{
    choices[(*seed as usize) % choices.len()]
}

/// The routes the log pretends to serve.
pub open spec fn route_templates() -> Seq<Seq<char>> {
    seq![
        "GET /api/users/{id}"@,
        "GET /api/orders"@,
        "POST /api/events"@,
        "GET /healthz"@,
        "PATCH /api/users/{id}"@,
        "GET /api/search?q={term}"@,
        "DELETE /api/sessions/{id}"@,
    ]
}

/// The search terms the log pretends to see.
pub open spec fn search_terms() -> Seq<Seq<char>> {
    seq!["widget"@, "invoice"@, "user"@]
}

/// The response statuses, weighted towards success.
pub open spec fn statuses() -> Seq<u16> {
    seq![200u16, 200, 200, 200, 201, 204, 301, 404, 500]
}

/// The index that `r` selects among `n` choices.
pub open spec fn choice(r: u64, n: int) -> int {
    ((r as usize) as int) % n
}

/// The route of a request line, with its placeholders filled in.
pub open spec fn route_of(r: u64) -> Seq<char> {
    let t = route_templates()[choice(r, 7)];
    let with_id = replace_all(t, "{id}"@, decimal((100_000 + r % 900_000) as nat));
    replace_all(with_id, "{term}"@, search_terms()[choice(r, 3)])
}

/// The level and message generated from the random value `r` at time `ts`.
#[verifier::opaque]
pub open spec fn template(r: u64, ts: u64) -> (Level, Seq<char>) {
    let route = route_of(r);
    if r % 53 == 0 {
        (
            Level::Warn,
            "worker-"@ + decimal((1 + r % 4) as nat) + " retrying job="@ + decimal(
                (16_000_000 + r % 1_000_000) as nat,
            ) + " attempt=2/5"@,
        )
    } else if r % 97 == 0 {
        (
            Level::Error,
            "upstream timeout after "@ + decimal((1200 + r % 800) as nat) + "ms route=\""@ + route
                + "\" trace_id="@ + hex_fixed((ts ^ r) as nat, 16),
        )
    } else if r % 23 == 0 {
        (
            Level::Debug,
            "cache miss key=usr:"@ + decimal((200_000 + r % 800_000) as nat) + " ttl=300s"@,
        )
    } else {
        (
            Level::Info,
            route + " → "@ + decimal(statuses()[choice(r, 9)] as nat) + " "@ + decimal(
                (5 + r % 220) as nat,
            ) + "ms client=\"10."@ + decimal((r % 255) as nat) + "."@ + decimal(
                ((r >> 8u64) % 255) as nat,
            ) + "."@ + decimal(((r >> 16u64) % 255) as nat) + "\""@,
        )
    }
}

/// The log after generating one line at time `ts`.
pub open spec fn emitted(s: BossView, ts: u64) -> BossView {
    let r = xorshift(s.rng_state);
    let (level, message) = template(r, ts);
    let kept = if s.lines.len() >= MAX_LINES { s.lines.skip(1) } else { s.lines };
    BossView {
        lines: kept.push(LineView { ts_secs: ts, level, message }),
        rng_state: r,
        counter: vstd::wrapping::u64_specs::wrapping_add(s.counter, 1),
        last_emit: s.last_emit,
    }
}

/// The log after generating one line at each of the times `tss`, in order.
pub open spec fn emitted_all(s: BossView, tss: Seq<u64>) -> BossView
    decreases tss.len(),
{
    if tss.len() == 0 {
        s
    } else {
        emitted(emitted_all(s, tss.drop_last()), tss.last())
    }
}

/// A fresh log seeded with `seed`, before any line is generated, waiting
/// since `start`.
pub open spec fn fresh(seed: u64, start: std::time::Instant) -> BossView {
    BossView { lines: Seq::empty(), rng_state: seed, counter: 0, last_emit: start }
}

/// Appends the characters of a string slice.
fn push_str(out: &mut Vec<char>, s: &str)
    ensures
        final(out)@ == old(out)@ + s@,
{
    let cs = chars_of(s);
    extend(out, cs.as_slice());
}

/// The route of a request line, with its placeholders filled in.
fn route_for(r: u64) -> (route: Vec<char>)
    ensures
        route@ == route_of(r),
{
    let template = pick(
        &r,
        &[
            "GET /api/users/{id}",
            "GET /api/orders",
            "POST /api/events",
            "GET /healthz",
            "PATCH /api/users/{id}",
            "GET /api/search?q={term}",
            "DELETE /api/sessions/{id}",
        ],
    );
    let term = pick(&r, &["widget", "invoice", "user"]);
    let mut id: Vec<char> = Vec::new();
    push_decimal(&mut id, 100_000 + r % 900_000);
    let id_pat = chars_of("{id}");
    let term_pat = chars_of("{term}");
    proof {
        reveal_strlit("{id}");
        reveal_strlit("{term}");
    }
    let t = chars_of(template);
    let with_id = replace(t.as_slice(), id_pat.as_slice(), id.as_slice());
    let term_chars = chars_of(term);
    replace(with_id.as_slice(), term_pat.as_slice(), term_chars.as_slice())
}

/// Generates the level and message of a log line from the random value `r`
/// at time `ts`.
pub fn make_template(r: u64, ts: u64) -> (out: (Level, String))
    ensures
        out.0 == template(r, ts).0,
        out.1@ == template(r, ts).1,
{
    reveal(template);
    let route = route_for(r);
    let mut m: Vec<char> = Vec::new();
    if r % 53 == 0 {
        push_str(&mut m, "worker-");
        push_decimal(&mut m, 1 + r % 4);
        push_str(&mut m, " retrying job=");
        push_decimal(&mut m, 16_000_000 + r % 1_000_000);
        push_str(&mut m, " attempt=2/5");
        return (Level::Warn, string_of(m.as_slice()));
    }
    if r % 97 == 0 {
        push_str(&mut m, "upstream timeout after ");
        push_decimal(&mut m, 1200 + r % 800);
        push_str(&mut m, "ms route=\"");
        extend(&mut m, route.as_slice());
        push_str(&mut m, "\" trace_id=");
        push_hex_fixed(&mut m, ts ^ r, 16);
        return (Level::Error, string_of(m.as_slice()));
    }
    if r % 23 == 0 {
        push_str(&mut m, "cache miss key=usr:");
        push_decimal(&mut m, 200_000 + r % 800_000);
        push_str(&mut m, " ttl=300s");
        return (Level::Debug, string_of(m.as_slice()));
    }
    let status = pick(&r, &[200u16, 200, 200, 200, 201, 204, 301, 404, 500]);
    extend(&mut m, route.as_slice());
    push_str(&mut m, " → ");
    push_decimal(&mut m, status as u64);
    push_str(&mut m, " ");
    push_decimal(&mut m, 5 + r % 220);
    push_str(&mut m, "ms client=\"10.");
    push_decimal(&mut m, r % 255);
    push_str(&mut m, ".");
    push_decimal(&mut m, (r >> 8u64) % 255);
    push_str(&mut m, ".");
    push_decimal(&mut m, (r >> 16u64) % 255);
    push_str(&mut m, "\"");
    (Level::Info, string_of(m.as_slice()))
}

// ---------------------------------------------------------------------------
// The boss screen state
// ---------------------------------------------------------------------------

#[verifier::external_type_specification]
#[verifier::external_body]
pub struct ExInstant(std::time::Instant);

/// `std::time::Instant::now`: a reading of the monotonic clock; nothing is
/// claimed about it.
pub assume_specification[ std::time::Instant::now ]() -> std::time::Instant;

/// `std::time::Instant::elapsed`: the time passed since an instant; nothing is
/// claimed about it.
pub assume_specification[ std::time::Instant::elapsed ](i: &std::time::Instant) -> std::time::Duration;

/// `core::time::Duration::as_millis`: a duration in whole milliseconds; the
/// duration is opaque here, so nothing is claimed about the value.
pub assume_specification[ core::time::Duration::as_millis ](d: &core::time::Duration) -> u128;

/// The fake log screen.
pub struct BossState {
    lines: VecDeque<LogLine>,
    last_emit: std::time::Instant,
    rng_state: u64,
    counter: u64,
}

/// Figures shown in the fake header, derived from the line counter.
#[derive(Clone, Copy, Debug, PartialEq, Eq, Structural)]
pub struct HeaderMetrics {
    pub requests_per_sec: i64,
    pub p50_ms: i64,
    pub p99_ms: i64,
    pub pool_active: i64,
    /// Steps of 0.007 percentage points added to a 0.03 error rate.
    pub error_steps: i64,
    /// Percentage points added to a 94% cache hit rate.
    pub cache_steps: i64,
}

/// `(c as i64) % m` in Rust (a remainder with the sign of the dividend), for a `u64` counter.
pub open spec fn signed_rem(c: u64, m: int) -> int {
    if c <= i64::MAX {
        (c as int) % m
    } else {
        -((0x1_0000_0000_0000_0000int - c) % m)
    }
}

/// The header figures for a line counter.
pub open spec fn metrics_of(c: u64) -> HeaderMetrics {
    let p99 = 34 + signed_rem(c, 17) - 8;
    HeaderMetrics {
        requests_per_sec: (412 + signed_rem(c, 41) - 20) as i64,
        p50_ms: (if p99 - 20 > 3 { p99 - 20 } else { 3 }) as i64,
        p99_ms: p99 as i64,
        pool_active: (12 + signed_rem(c, 5)) as i64,
        error_steps: signed_rem(c, 13) as i64,
        cache_steps: signed_rem(c, 5) as i64,
    }
}

/// `(c as i64) % m` for a positive modulus below 64.
fn counter_rem(c: u64, m: u64) -> (r: i64)
    requires
        0 < m < 64,
    ensures
        r == signed_rem(c, m as int),
{
    if c <= i64::MAX as u64 {
        (c % m) as i64
    } else {
        let neg = u64::MAX - c + 1;
        assert(neg == 0x1_0000_0000_0000_0000int - c);
        -((neg % m) as i64)
    }
}

impl View for BossState {
    type V = BossView;

    closed spec fn view(&self) -> BossView {
        BossView {
            lines: lines_view(self.lines@),
            rng_state: self.rng_state,
            counter: self.counter,
            last_emit: self.last_emit,
        }
    }
}

impl BossState {
    #[verifier::type_invariant]
    closed spec fn bounded(&self) -> bool {
        self.lines@.len() <= MAX_LINES
    }

    /// The number of lines held, never more than `MAX_LINES`.
    pub fn len(&self) -> (n: usize)
        ensures
            n == self@.lines.len(),
            n <= MAX_LINES,
    {
        proof {
            use_type_invariant(self);
        }
        self.lines.len()
    }

    /// A log seeded with `seed`, holding the lines generated at the times `tss`.
    pub fn seeded(seed: u64, tss: &[u64], last_emit: std::time::Instant) -> (s: BossState)
        ensures
            s@ == emitted_all(fresh(seed, last_emit), tss@),
    {
        let mut s = BossState {
            lines: VecDeque::with_capacity(MAX_LINES),
            last_emit,
            rng_state: seed,
            counter: 0,
        };
        assert(lines_view(s.lines@) =~= Seq::<LineView>::empty());
        let n = tss.len();
        for i in 0..n
            invariant
                n == tss@.len(),
                s@ == emitted_all(fresh(seed, last_emit), tss@.take(i as int)),
        {
            s.emit_at(tss[i]);
            assert(tss@.take(i + 1).drop_last() =~= tss@.take(i as int));
        }
        assert(tss@.take(n as int) =~= tss@);
        s
    }

    /// A log seeded from the clock, with `INITIAL_LINES` lines generated at
    /// the current time, waiting for the next line since it was made.
    pub fn new() -> (s: BossState)
        ensures
            exists|t: u64, tss: Seq<u64>|
                tss.len() == INITIAL_LINES && #[trigger] emitted_all(
                    fresh(seed_of(t), s@.last_emit),
                    tss,
                ) == s@,
            s@.lines.len() == INITIAL_LINES,
            s@.counter == INITIAL_LINES,
    {
        let seed = seed_from_time();
        let ghost t = choose|t: u64| seed == seed_of(t);
        let start = std::time::Instant::now();
        let mut s = BossState::seeded(seed, &[], start);
        let ghost mut tss: Seq<u64> = Seq::empty();
        assert(tss =~= Seq::<u64>::empty());
        for i in 0..INITIAL_LINES
            invariant
                tss.len() == i,
                seed == seed_of(t),
                s@ == emitted_all(fresh(seed, start), tss),
                s@.last_emit == start,
        {
            let ts = s.emit_one();
            proof {
                let old_tss = tss;
                tss = tss.push(ts);
                assert(tss.drop_last() =~= old_tss);
            }
        }
        proof {
            lemma_emitted_all_len(seed, start, tss);
            lemma_emitted_all_counter(seed, start, tss);
        }
        s
    }

    /// Generates one line stamped `ts`, dropping the oldest line when full.
    pub fn emit_at(&mut self, ts: u64)
        ensures
            final(self)@ == emitted(old(self)@, ts),
            final(self)@.lines.len() <= MAX_LINES,
    {
        proof {
            use_type_invariant(&*self);
        }
        let (level, message) = self.pick_template(ts);
        let mut lines: VecDeque<LogLine> = VecDeque::new();
        std::mem::swap(&mut lines, &mut self.lines);
        let ghost before = lines@;
        if lines.len() >= MAX_LINES {
            lines.pop_front();
            assert(lines_view(lines@) =~= lines_view(before).skip(1));
        } else {
            assert(lines_view(lines@) =~= lines_view(before));
        }
        let ghost kept = lines@;
        lines.push_back(LogLine { ts_secs: ts, level, message });
        assert(lines_view(lines@) =~= lines_view(kept).push(lines@.last()@));
        self.lines = lines;
        self.counter = self.counter.wrapping_add(1);
    }

    /// Advances the generator and returns its new value.
    pub fn next_rand(&mut self) -> (r: u64)
        ensures
            r == xorshift(old(self)@.rng_state),
            final(self)@ == (BossView { rng_state: r, ..old(self)@ }),
    {
        proof {
            use_type_invariant(&*self);
        }
        let mut x = self.rng_state;
        let r = xorshift_step(&mut x);
        self.rng_state = x;
        r
    }

    /// Draws the level and message of the next line, stamped `ts`.
    pub fn pick_template(&mut self, ts: u64) -> (out: (Level, String))
        ensures
            final(self)@ == (BossView { rng_state: xorshift(old(self)@.rng_state), ..old(self)@ }),
            out.0 == template(xorshift(old(self)@.rng_state), ts).0,
            out.1@ == template(xorshift(old(self)@.rng_state), ts).1,
    {
        let r = self.next_rand();
        make_template(r, ts)
    }

    /// Generates one line stamped with the current time; gives back the stamp.
    pub fn emit_one(&mut self) -> (ts: u64)
        ensures
            final(self)@ == emitted(old(self)@, ts),
            final(self)@.lines.len() <= MAX_LINES,
    {
        let ts = now_unix();
        self.emit_at(ts);
        ts
    }

    /// Generates a line, stamped with the current time, when at least
    /// `EMIT_EVERY_MS` have passed since the wait started, and then restarts
    /// the wait at the current instant.
    pub fn tick(&mut self)
        ensures
            final(self)@ == old(self)@ || exists|ts: u64|
                final(self)@ == (BossView {
                    last_emit: final(self)@.last_emit,
                    ..#[trigger] emitted(old(self)@, ts)
                }),
    {
        let elapsed = self.last_emit.elapsed().as_millis();
        let ts = now_unix();
        let now = std::time::Instant::now();
        self.tick_after(elapsed, ts, now);
    }

    /// Given the milliseconds since the wait started, the current time `ts`
    /// and the current instant `now`: when at least `EMIT_EVERY_MS` have
    /// passed, generates a line stamped `ts` and restarts the wait at `now`;
    /// otherwise leaves everything, the wait included, as it is.
    pub fn tick_after(&mut self, elapsed_ms: u128, ts: u64, now: std::time::Instant)
        ensures
            elapsed_ms < EMIT_EVERY_MS ==> final(self)@ == old(self)@,
            elapsed_ms >= EMIT_EVERY_MS ==> final(self)@ == (BossView {
                last_emit: now,
                ..emitted(old(self)@, ts)
            }),
    {
        if elapsed_ms >= EMIT_EVERY_MS {
            self.emit_at(ts);
            assert(self.lines@.len() == self@.lines.len());
            self.last_emit = now;
        }
    }

    /// The instant the wait for the next line started.
    pub fn last_emit(&self) -> (r: std::time::Instant)
        ensures
            r == self@.last_emit,
    {
        self.last_emit
    }

    /// The lines, oldest first.
    pub fn lines(&self) -> (r: Vec<LogLine>)
        ensures
            lines_view(r@) == self@.lines,
    {
        proof {
            use_type_invariant(self);
        }
        self.visible_lines(MAX_LINES)
    }

    /// The newest `capacity` lines (all of them when fewer), oldest first.
    pub fn visible_lines(&self, capacity: usize) -> (r: Vec<LogLine>)
        ensures
            lines_view(r@) == self@.lines.skip(
                if self@.lines.len() > capacity { self@.lines.len() - capacity } else { 0 },
            ),
    {
        let len = self.lines.len();
        let start = len.saturating_sub(capacity);
        let mut out: Vec<LogLine> = Vec::new();
        let mut i = start;
        while i < len
            invariant
                len == self.lines@.len(),
                start <= i <= len,
                lines_view(out@) == lines_view(self.lines@).subrange(start as int, i as int),
            decreases len - i,
        {
            let l = self.lines[i].clone();
            proof {
                lemma_lines_view_push(out@, l);
            }
            out.push(l);
            assert(lines_view(self.lines@).subrange(start as int, i + 1) =~= lines_view(
                self.lines@,
            ).subrange(start as int, i as int).push(self.lines@[i as int]@));
            i = i + 1;
        }
        assert(lines_view(self.lines@).subrange(start as int, len as int) =~= lines_view(
            self.lines@,
        ).skip(start as int));
        out
    }

    /// The line counter.
    pub fn counter(&self) -> (r: u64)
        ensures
            r == self@.counter,
    {
        self.counter
    }

    /// The figures for the fake header.
    pub fn metrics(&self) -> (m: HeaderMetrics)
        ensures
            m == metrics_of(self@.counter),
    {
        let c = self.counter;
        let p99: i64 = 34 + counter_rem(c, 17) - 8;
        let p50: i64 = if p99 - 20 > 3 { p99 - 20 } else { 3 };
        HeaderMetrics {
            requests_per_sec: 412 + counter_rem(c, 41) - 20,
            p50_ms: p50,
            p99_ms: p99,
            pool_active: 12 + counter_rem(c, 5),
            error_steps: counter_rem(c, 13),
            cache_steps: counter_rem(c, 5),
        }
    }
}

/// Generating a line never lets the log grow past `MAX_LINES`; the new line
/// comes last, and the lines before it are the previous ones, less the oldest
/// when the log was full.
pub proof fn lemma_emitted_bounded(s: BossView, ts: u64)
    requires
        s.lines.len() <= MAX_LINES,
    ensures
        emitted(s, ts).lines.len() <= MAX_LINES,
        emitted(s, ts).lines.last().ts_secs == ts,
        emitted(s, ts).lines.drop_last() == if s.lines.len() == MAX_LINES {
            s.lines.skip(1)
        } else {
            s.lines
        },
        emitted(s, ts).counter == if s.counter == u64::MAX { 0 } else { s.counter + 1 },
{
    let kept = if s.lines.len() >= MAX_LINES { s.lines.skip(1) } else { s.lines };
    assert(emitted(s, ts).lines.drop_last() =~= kept);
}

/// A fresh log grows by one line per generated line until it is full.
pub proof fn lemma_emitted_all_len(seed: u64, start: std::time::Instant, tss: Seq<u64>)
    ensures
        emitted_all(fresh(seed, start), tss).lines.len() == if tss.len() < MAX_LINES {
            tss.len()
        } else {
            MAX_LINES as nat
        },
    decreases tss.len(),
{
    if tss.len() > 0 {
        lemma_emitted_all_len(seed, start, tss.drop_last());
    }
}

/// A fresh log counts the lines generated (below 2^64 of them).
pub proof fn lemma_emitted_all_counter(seed: u64, start: std::time::Instant, tss: Seq<u64>)
    ensures
        emitted_all(fresh(seed, start), tss).counter == tss.len() % 0x1_0000_0000_0000_0000,
    decreases tss.len(),
{
    if tss.len() > 0 {
        lemma_emitted_all_counter(seed, start, tss.drop_last());
    }
}

} // verus!
