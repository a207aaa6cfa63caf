use vstd::prelude::*;
use std::time::Duration;
use std::time::Instant;

use crate::MButton;

verus! {

broadcast use vstd::string::group_string_axioms;

/// `std::time::Instant`, as an opaque type: a measurement holds the instant
/// its frame started.
#[verifier::external_type_specification]
#[verifier::external_body]
pub struct ExInstant(std::time::Instant);

/// How many frame times a [`FrameTimeMeasurement`] keeps.
pub const FRAME_TIME_SLOTS: usize = 240;

/// The value the minimum of a report starts from: a report's minimum never exceeds it.
pub const REPORT_MIN_START: u128 = 99999999;

/// The largest number of whole microseconds that a `Duration` can hold
/// (`u64::MAX` seconds and 999_999_999 nanoseconds).
pub const MAX_DURATION_MICROS: u128 = 18446744073709551615999999;

/// The window counts frames modulo this number.
pub const FRAME_COUNTER_PERIOD: usize = 500;

/// Minimum, maximum and average of the frame times held by a measurement,
/// in microseconds.
#[derive(Debug, Clone, Copy, PartialEq, Eq, Structural)]
pub struct FrameTimeStats {
    pub min: u128,
    pub max: u128,
    pub avg: u128,
}

/// The slot that follows `idx` in a ring of [`FRAME_TIME_SLOTS`] slots.
pub open spec fn next_slot(idx: int) -> int {
    if idx + 1 >= FRAME_TIME_SLOTS {
        0
    } else {
        idx + 1
    }
}

/// The smaller of [`REPORT_MIN_START`] and the least element of `s`.
pub open spec fn running_min(s: Seq<u128>) -> u128
    decreases s.len(),
{
    if s.len() == 0 {
        REPORT_MIN_START
    } else {
        let m = running_min(s.drop_last());
        if s.last() < m {
            s.last()
        } else {
            m
        }
    }
}

/// The greatest element of `s` (0 for an empty sequence).
pub open spec fn running_max(s: Seq<u128>) -> u128
    decreases s.len(),
{
    if s.len() == 0 {
        0
    } else {
        let m = running_max(s.drop_last());
        if s.last() > m {
            s.last()
        } else {
            m
        }
    }
}

/// The sum of the elements of `s`.
pub open spec fn sample_sum(s: Seq<u128>) -> int
    decreases s.len(),
{
    if s.len() == 0 {
        0
    } else {
        sample_sum(s.drop_last()) + s.last()
    }
}

/// The report made over the frame times `s`.
pub open spec fn stats_of(s: Seq<u128>) -> FrameTimeStats {
    FrameTimeStats {
        min: running_min(s),
        max: running_max(s),
        avg: (sample_sum(s) / (s.len() as int)) as u128,
    }
}

/// Every frame time in `s` fits in a `Duration`.
pub open spec fn samples_bounded(s: Seq<u128>) -> bool {
    forall|i: int| 0 <= i < s.len() ==> #[trigger] s[i] <= MAX_DURATION_MICROS
}

proof fn lemma_sum_bounded(s: Seq<u128>)
    requires
        samples_bounded(s),
    ensures
        0 <= sample_sum(s) <= s.len() * MAX_DURATION_MICROS,
    decreases s.len(),
{
    if s.len() > 0 {
        assert(samples_bounded(s.drop_last()));
        lemma_sum_bounded(s.drop_last());
        assert(s.last() == s[s.len() - 1]);
    }
}

/// The minimum of a report is at most [`REPORT_MIN_START`] and at most every
/// frame time, and it is [`REPORT_MIN_START`] or one of the frame times.
pub proof fn lemma_report_min(s: Seq<u128>)
    ensures
        running_min(s) <= REPORT_MIN_START,
        forall|i: int| 0 <= i < s.len() ==> running_min(s) <= #[trigger] s[i],
        running_min(s) == REPORT_MIN_START || exists|i: int| 0 <= i < s.len() && s[i] == running_min(s),
    decreases s.len(),
{
    if s.len() > 0 {
        let p = s.drop_last();
        lemma_report_min(p);
        assert forall|i: int| 0 <= i < s.len() implies running_min(s) <= #[trigger] s[i] by {
            if i < s.len() - 1 {
                assert(s[i] == p[i]);
            }
        }
        if running_min(s) != REPORT_MIN_START {
            if s.last() < running_min(p) {
                assert(s[s.len() - 1] == running_min(s));
            } else {
                let j = choose|j: int| 0 <= j < p.len() && p[j] == running_min(p);
                assert(s[j] == running_min(s));
            }
        }
    }
}

/// The maximum of a report over at least one frame time is at least every
/// frame time and is one of them.
pub proof fn lemma_report_max(s: Seq<u128>)
    requires
        s.len() > 0,
    ensures
        forall|i: int| 0 <= i < s.len() ==> #[trigger] s[i] <= running_max(s),
        exists|i: int| 0 <= i < s.len() && s[i] == running_max(s),
    decreases s.len(),
{
    let p = s.drop_last();
    if p.len() == 0 {
        assert(s[0] == running_max(s));
    } else {
        lemma_report_max(p);
        assert forall|i: int| 0 <= i < s.len() implies #[trigger] s[i] <= running_max(s) by {
            if i < s.len() - 1 {
                assert(s[i] == p[i]);
            }
        }
        if s.last() > running_max(p) {
            assert(s[s.len() - 1] == running_max(s));
        } else {
            let j = choose|j: int| 0 <= j < p.len() && p[j] == running_max(p);
            assert(s[j] == running_max(s));
        }
    }
}

proof fn lemma_sum_between(s: Seq<u128>, lo: int, hi: int)
    requires
        forall|i: int| 0 <= i < s.len() ==> lo <= #[trigger] s[i] <= hi,
    ensures
        s.len() * lo <= sample_sum(s) <= s.len() * hi,
    decreases s.len(),
{
    if s.len() > 0 {
        let p = s.drop_last();
        assert forall|i: int| 0 <= i < p.len() implies lo <= #[trigger] p[i] <= hi by {
            assert(p[i] == s[i]);
        }
        lemma_sum_between(p, lo, hi);
        assert(s.last() == s[s.len() - 1]);
        assert(s.len() * lo == p.len() * lo + lo) by (nonlinear_arith)
            requires s.len() == p.len() + 1;
        assert(s.len() * hi == p.len() * hi + hi) by (nonlinear_arith)
            requires s.len() == p.len() + 1;
    }
}

/// The average of a report over frame times that fit in a `Duration` lies
/// between its minimum and its maximum.
pub proof fn lemma_report_ordered(s: Seq<u128>)
    requires
        s.len() > 0,
        samples_bounded(s),
    ensures
        stats_of(s).min <= stats_of(s).avg <= stats_of(s).max,
{
    lemma_report_min(s);
    lemma_report_max(s);
    lemma_sum_between(s, running_min(s) as int, running_max(s) as int);
    lemma_sum_bounded(s);
    let n = s.len() as int;
    let sum = sample_sum(s);
    assert(running_min(s) <= sum / n <= running_max(s)) by (nonlinear_arith)
        requires
            n > 0,
            n * running_min(s) <= sum <= n * running_max(s),
    ;
    assert(sum / n <= sum) by (nonlinear_arith)
        requires n > 0, sum >= 0;
}

/// What a report over frame times that fit in a `Duration` is: its minimum is
/// at most [`REPORT_MIN_START`] and at most every frame time, and is
/// [`REPORT_MIN_START`] or one of them; its maximum is at least every frame time
/// and is one of them; its average is the sum of the frame times divided by
/// their count, rounded down; and minimum <= average <= maximum.
pub proof fn lemma_report(s: Seq<u128>)
    requires
        s.len() > 0,
        samples_bounded(s),
    ensures
        stats_of(s).min <= REPORT_MIN_START,
        forall|i: int| 0 <= i < s.len() ==> stats_of(s).min <= #[trigger] s[i],
        stats_of(s).min == REPORT_MIN_START || exists|i: int| 0 <= i < s.len() && s[i] == stats_of(s).min,
        forall|i: int| 0 <= i < s.len() ==> #[trigger] s[i] <= stats_of(s).max,
        exists|i: int| 0 <= i < s.len() && s[i] == stats_of(s).max,
        stats_of(s).avg * s.len() <= sample_sum(s) < (stats_of(s).avg + 1) * s.len(),
        stats_of(s).min <= stats_of(s).avg <= stats_of(s).max,
{
    lemma_report_min(s);
    lemma_report_max(s);
    lemma_report_ordered(s);
    lemma_sum_bounded(s);
    let n = s.len() as int;
    let sum = sample_sum(s);
    assert(sum / n <= MAX_DURATION_MICROS) by (nonlinear_arith)
        requires n > 0, 0 <= sum <= n * MAX_DURATION_MICROS;
    assert((sum / n) * n <= sum < (sum / n + 1) * n) by (nonlinear_arith)
        requires n > 0, sum >= 0;
    assert(stats_of(s).avg == sum / n);
}

/// The slot of a fresh measurement after `n` recorded frame times.
pub open spec fn slot_after(n: nat) -> int
    decreases n,
{
    if n == 0 {
        0
    } else {
        next_slot(slot_after((n - 1) as nat))
    }
}

/// A fresh measurement that has recorded `n` frame times is at slot `n` modulo
/// [`FRAME_TIME_SLOTS`]; the `n`-th recording reports exactly when `n` is a
/// multiple of [`FRAME_TIME_SLOTS`].
pub proof fn lemma_report_period(n: nat)
    ensures
        slot_after(n) == (n as int) % (FRAME_TIME_SLOTS as int),
        n > 0 ==> ((slot_after((n - 1) as nat) + 1 >= FRAME_TIME_SLOTS) <==> (n as int) % (FRAME_TIME_SLOTS as int) == 0),
    decreases n,
{
    if n > 0 {
        lemma_report_period((n - 1) as nat);
    }
}

/// The frame times and the slot of a fresh measurement (see
/// [`FrameTimeMeasurement::new`]) after it has recorded the frame times `ds` in
/// order, each as [`FrameTimeMeasurement::record`] and
/// [`FrameTimeMeasurement::end_measure`] record one.
pub open spec fn ring_after(ds: Seq<u128>) -> (Seq<u128>, int)
    decreases ds.len(),
{
    if ds.len() == 0 {
        (Seq::new(FRAME_TIME_SLOTS as nat, |i: int| 0u128), 0)
    } else {
        let prev = ring_after(ds.drop_last());
        let n = next_slot(prev.1);
        (prev.0.update(n, ds.last()), n)
    }
}

/// How many reports a fresh measurement gives while it records `ds`: one for
/// each recording made at the last slot of the ring.
pub open spec fn reports_after(ds: Seq<u128>) -> nat
    decreases ds.len(),
{
    if ds.len() == 0 {
        0
    } else {
        reports_after(ds.drop_last()) + if ring_after(ds.drop_last()).1 + 1 >= FRAME_TIME_SLOTS {
            1nat
        } else {
            0nat
        }
    }
}

/// After `k` recorded frame times a fresh measurement is at slot `k` modulo
/// [`FRAME_TIME_SLOTS`], that slot holds the last frame time, and it has given
/// `k / FRAME_TIME_SLOTS` reports; while `k` is below [`FRAME_TIME_SLOTS`],
/// slot 0 still holds 0 and slot `i` holds the `i`-th frame time.
pub proof fn lemma_rounds(ds: Seq<u128>)
    ensures
        ring_after(ds).0.len() == FRAME_TIME_SLOTS,
        ring_after(ds).1 == (ds.len() as int) % (FRAME_TIME_SLOTS as int),
        ds.len() > 0 ==> ring_after(ds).0[(ds.len() as int) % (FRAME_TIME_SLOTS as int)] == ds.last(),
        reports_after(ds) == (ds.len() as int) / (FRAME_TIME_SLOTS as int),
        ds.len() < FRAME_TIME_SLOTS ==> {
            &&& ring_after(ds).0[0] == 0
            &&& forall|i: int| 1 <= i <= ds.len() ==> #[trigger] ring_after(ds).0[i] == ds[i - 1]
            &&& forall|i: int| ds.len() < i < FRAME_TIME_SLOTS ==> #[trigger] ring_after(ds).0[i] == 0
        },
    decreases ds.len(),
{
    if ds.len() > 0 {
        let p = ds.drop_last();
        lemma_rounds(p);
        let k = ds.len() as int;
        assert(ds.last() == ds[k - 1]);
        if ds.len() < FRAME_TIME_SLOTS {
            assert forall|i: int| 1 <= i <= ds.len() implies #[trigger] ring_after(ds).0[i] == ds[i - 1] by {
                if i < k {
                    assert(ring_after(p).0[i] == p[i - 1]);
                    assert(p[i - 1] == ds[i - 1]);
                }
            }
            assert forall|i: int| ds.len() < i < FRAME_TIME_SLOTS implies #[trigger] ring_after(ds).0[i] == 0 by {
                assert(ring_after(p).0[i] == 0);
            }
        }
    }
}

/// The frame counter after `c`, as [`next_frame_counter`] computes it.
pub open spec fn frame_counter_step(c: int) -> int {
    if (c + 1) % (FRAME_COUNTER_PERIOD as int) == 0 {
        0
    } else {
        c + 1
    }
}

/// The frame counter of a window after `n` frames.
pub open spec fn frame_counter_after(n: nat) -> int
    decreases n,
{
    if n == 0 {
        0
    } else {
        frame_counter_step(frame_counter_after((n - 1) as nat))
    }
}

/// A window's frame counter, which starts at 0, is the number of frames so far
/// modulo [`FRAME_COUNTER_PERIOD`]; it stays below that period.
pub proof fn lemma_frame_counter_period(n: nat)
    ensures
        frame_counter_after(n) == (n as int) % (FRAME_COUNTER_PERIOD as int),
        0 <= frame_counter_after(n) < FRAME_COUNTER_PERIOD,
    decreases n,
{
    if n > 0 {
        lemma_frame_counter_period((n - 1) as nat);
    }
}

/// Calls `std::time::Instant::now`. Nothing is stated of the instant it returns:
/// it is read from the system clock.
#[verifier::external_body]
fn instant_now() -> (r: Instant) {
    Instant::now()
}

/// Calls `std::time::Instant::elapsed`: the time that has passed since `start`.
/// Nothing is stated of it: it is read from the system clock.
#[verifier::external_body]
fn elapsed_since(start: &Instant) -> (r: Duration) {
    start.elapsed()
}

/// Calls `std::time::Duration::as_micros`: the whole microseconds in `d`. The
/// contract states only that this fits in a `Duration`'s range; `Duration` is
/// opaque here, so its exact count is left unsaid.
#[verifier::external_body]
fn duration_micros(d: &Duration) -> (r: u128)
    ensures
        r <= MAX_DURATION_MICROS,
{
    d.as_micros()
}

/// Computes the report over the frame times in `buf`: the minimum (never above
/// [`REPORT_MIN_START`]), the maximum and the rounded-down average.
pub fn frame_time_stats(buf: &[u128; 240]) -> (r: FrameTimeStats)
    requires
        samples_bounded(buf@),
    ensures
        r == stats_of(buf@),
        r.min <= REPORT_MIN_START,
        forall|i: int| 0 <= i < 240 ==> r.min <= #[trigger] buf@[i],
        r.min == REPORT_MIN_START || exists|i: int| 0 <= i < 240 && buf@[i] == r.min,
        forall|i: int| 0 <= i < 240 ==> #[trigger] buf@[i] <= r.max,
        exists|i: int| 0 <= i < 240 && buf@[i] == r.max,
        r.avg * 240 <= sample_sum(buf@) < (r.avg + 1) * 240,
{
    let mut min: u128 = REPORT_MIN_START;
    let mut max: u128 = 0;
    let mut sum: u128 = 0;
    let mut i: usize = 0;
    while i < FRAME_TIME_SLOTS
        invariant
            0 <= i <= FRAME_TIME_SLOTS,
            buf@.len() == FRAME_TIME_SLOTS,
            samples_bounded(buf@),
            min == running_min(buf@.take(i as int)),
            max == running_max(buf@.take(i as int)),
            sum == sample_sum(buf@.take(i as int)),
        decreases FRAME_TIME_SLOTS - i,
    {
        let b = buf[i];
        proof {
            let t = buf@.take(i as int + 1);
            assert(t.drop_last() =~= buf@.take(i as int));
            assert(t.last() == b);
            assert(samples_bounded(t));
            lemma_sum_bounded(t);
            assert(t.len() * MAX_DURATION_MICROS <= 240 * MAX_DURATION_MICROS) by (nonlinear_arith)
                requires t.len() <= 240;
        }
        if b < min {
            min = b;
        }
        if b > max {
            max = b;
        }
        sum = sum + b;
        i = i + 1;
    }
    assert(buf@.take(240) =~= buf@);
    let avg = sum / 240;
    proof {
        lemma_report(buf@);
    }
    FrameTimeStats { min, max, avg }
}

/// The frame counter that follows `counter` in a window's frame loop: one more,
/// wrapping to 0 on multiples of [`FRAME_COUNTER_PERIOD`].
pub fn next_frame_counter(counter: usize) -> (r: usize)
    requires
        counter < usize::MAX,
    ensures
        r == frame_counter_step(counter as int),
{
    let c = counter + 1;
    if c % FRAME_COUNTER_PERIOD == 0 {
        0
    } else {
        c
    }
}

/// A mouse button as the window system reports it.
#[derive(Debug, Clone, Copy, PartialEq, Eq, Structural)]
pub enum PointerButton {
    Left,
    Middle,
    Right,
    Back,
    Forward,
    Other(u8),
}

/// The toolkit's button for a button the window system reports: left, right
/// and middle stand for themselves, and every other button counts as left.
pub open spec fn spec_mbutton_of(b: PointerButton) -> MButton {
    match b {
        PointerButton::Right => MButton::Right,
        PointerButton::Middle => MButton::Middle,
        _ => MButton::Left,
    }
}

/// Right and middle buttons map to themselves, and every other button the
/// window system reports (left, back, forward and any other) counts as left.
pub proof fn lemma_mbutton_of(b: PointerButton)
    ensures
        b == PointerButton::Right ==> spec_mbutton_of(b) == MButton::Right,
        b == PointerButton::Middle ==> spec_mbutton_of(b) == MButton::Middle,
        b != PointerButton::Right && b != PointerButton::Middle ==> spec_mbutton_of(b) == MButton::Left,
{
}

/// The toolkit's button for a button that the window system reports.
pub fn mbutton_of(b: PointerButton) -> (r: MButton)
    ensures
        r == spec_mbutton_of(b),
        b == PointerButton::Right ==> r == MButton::Right,
        b == PointerButton::Middle ==> r == MButton::Middle,
        b != PointerButton::Right && b != PointerButton::Middle ==> r == MButton::Left,
{
    match b {
        PointerButton::Left => MButton::Left,
        PointerButton::Right => MButton::Right,
        PointerButton::Middle => MButton::Middle,
        _ => MButton::Left,
    }
}

/// Keeps the last [`FRAME_TIME_SLOTS`] frame times in a ring and reports their
/// statistics each time the ring wraps around.
pub struct FrameTimeMeasurement {
    buf: [u128; 240],
    idx: usize,
    cur: Option<Instant>,
    lbl: String,
}

impl FrameTimeMeasurement {
    /// The frame times held, in microseconds, by slot.
    pub closed spec fn samples(&self) -> Seq<u128> {
        self.buf@
    }

    /// The slot that holds the most recent frame time.
    pub closed spec fn slot(&self) -> int {
        self.idx as int
    }

    /// The instant at which the measurement in progress started, if any.
    pub closed spec fn started_at(&self) -> Option<Instant> {
        self.cur
    }

    /// Whether a measurement has been started and not yet ended.
    pub closed spec fn is_measuring(&self) -> bool {
        self.cur is Some
    }

    /// The label that reports are printed under.
    pub closed spec fn label_view(&self) -> Seq<char> {
        self.lbl@
    }

    /// The measurement's invariant: the slot lies in the ring and every frame
    /// time fits in a `Duration`.
    pub closed spec fn wf(&self) -> bool {
        &&& self.buf@.len() == FRAME_TIME_SLOTS
        &&& self.idx < FRAME_TIME_SLOTS
        &&& samples_bounded(self.buf@)
    }

    /// A measurement with all frame times 0, at slot 0, not measuring.
    pub fn new(lbl: &str) -> (r: Self)
        ensures
            r.wf(),
            r.samples() == Seq::new(FRAME_TIME_SLOTS as nat, |i: int| 0u128),
            r.slot() == 0,
            !r.is_measuring(),
            r.label_view() == lbl@,
    {
        let r = FrameTimeMeasurement { buf: [0; 240], idx: 0, cur: None, lbl: lbl.to_string() };
        assert(r.buf@ =~= Seq::new(FRAME_TIME_SLOTS as nat, |i: int| 0u128));
        r
    }

    /// The label that reports are printed under.
    pub fn label(&self) -> (r: &str)
        ensures
            r@ == self.label_view(),
    {
        self.lbl.as_str()
    }

    /// Starts measuring a frame at `start`, replacing any measurement in
    /// progress.
    pub fn start_at(&mut self, start: Instant)
        requires
            old(self).wf(),
        ensures
            final(self).wf(),
            final(self).started_at() == Some(start),
            final(self).is_measuring(),
            final(self).samples() == old(self).samples(),
            final(self).slot() == old(self).slot(),
            final(self).label_view() == old(self).label_view(),
    {
        self.cur = Some(start);
    }

    /// Starts measuring a frame: the clock is read now, and the measurement
    /// starts at that instant as by [`Self::start_at`].
    pub fn start_measure(&mut self)
        requires
            old(self).wf(),
        ensures
            final(self).wf(),
            final(self).is_measuring(),
            final(self).samples() == old(self).samples(),
            final(self).slot() == old(self).slot(),
            final(self).label_view() == old(self).label_view(),
    {
        let now = instant_now();
        self.start_at(now);
    }

    /// Records the frame time `dur` in the slot after the current one. When the
    /// current slot is the last of the ring, the report over the frame times
    /// held before this one is returned and the ring starts again at slot 0.
    pub fn record(&mut self, dur: u128) -> (r: Option<FrameTimeStats>)
        requires
            old(self).wf(),
            dur <= MAX_DURATION_MICROS,
        ensures
            final(self).wf(),
            final(self).slot() == next_slot(old(self).slot()),
            final(self).samples() == old(self).samples().update(next_slot(old(self).slot()), dur),
            final(self).started_at() == old(self).started_at(),
            final(self).label_view() == old(self).label_view(),
            r == (if old(self).slot() + 1 >= FRAME_TIME_SLOTS {
                Some(stats_of(old(self).samples()))
            } else {
                None::<FrameTimeStats>
            }),
    {
        let report = if self.idx + 1 >= FRAME_TIME_SLOTS {
            let stats = frame_time_stats(&self.buf);
            self.idx = 0;
            Some(stats)
        } else {
            self.idx = self.idx + 1;
            None
        };
        self.buf[self.idx] = dur;
        report
    }

    /// Ends the measurement started by [`Self::start_measure`], if any: the
    /// time elapsed since its start is recorded as by [`Self::record`]. Without
    /// a started measurement nothing changes and nothing is reported.
    pub fn end_measure(&mut self) -> (r: Option<FrameTimeStats>)
        requires
            old(self).wf(),
        ensures
            final(self).wf(),
            final(self).started_at() is None,
            !final(self).is_measuring(),
            final(self).label_view() == old(self).label_view(),
            !old(self).is_measuring() ==> {
                &&& final(self).samples() == old(self).samples()
                &&& final(self).slot() == old(self).slot()
                &&& r is None
            },
            old(self).is_measuring() ==> {
                let next = next_slot(old(self).slot());
                &&& final(self).slot() == next
                &&& final(self).samples()[next] <= MAX_DURATION_MICROS
                &&& final(self).samples() == old(self).samples().update(
                    next,
                    final(self).samples()[next],
                )
                &&& r == (if old(self).slot() + 1 >= FRAME_TIME_SLOTS {
                    Some(stats_of(old(self).samples()))
                } else {
                    None::<FrameTimeStats>
                })
            },
    {
        match self.cur.take() {
            Some(start) => {
                let elapsed = elapsed_since(&start);
                let dur = duration_micros(&elapsed);
                self.record(dur)
            },
            None => None,
        }
    }
}

} // verus!
