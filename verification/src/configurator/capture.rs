//! Integer logic of merging detected light positions: which lights were
//! detected with confidence, where the gaps between them are, and the
//! bounds used to centre and scale the detections.

use vstd::prelude::*;

use crate::text::{all_decimal_digits, decimal_value, padded_decimal};

verus! {

/// `[start, end]` is a maximal run of lights detected without confidence:
/// none of them confident, and the lights just outside it (where there are
/// any) confident.
pub open spec fn is_gap(confident: Seq<bool>, start: int, end: int) -> bool {
    &&& 0 <= start <= end < confident.len()
    &&& forall|j: int| start <= j <= end ==> !#[trigger] confident[j]
    &&& (start == 0 || confident[start - 1])
    &&& (end + 1 == confident.len() || confident[end + 1])
}

/// `gaps` lists exactly the maximal runs of unconfident lights, in order.
pub open spec fn are_all_gaps(confident: Seq<bool>, gaps: Seq<(usize, usize)>) -> bool {
    &&& forall|k: int| 0 <= k < gaps.len() ==> is_gap(confident, #[trigger] gaps[k].0 as int, gaps[k].1 as int)
    &&& forall|k: int, l: int| 0 <= k < l < gaps.len() ==> #[trigger] gaps[k].1 + 1 < #[trigger] gaps[l].0
    &&& forall|j: int|
        0 <= j < confident.len() && !#[trigger] confident[j] ==> exists|k: int|
            0 <= k < gaps.len() && #[trigger] gaps[k].0 <= j <= gaps[k].1
}

/// The runs of lights detected without confidence, as first and last
/// index, in order.
pub fn unconfident_runs(confident: &Vec<bool>) -> (gaps: Vec<(usize, usize)>)
    ensures
        are_all_gaps(confident@, gaps@),
{
    let n = confident.len();
    let mut gaps: Vec<(usize, usize)> = Vec::new();
    let mut in_gap = false;
    let mut start: usize = 0;
    let mut i: usize = 0;
    while i < n
        invariant
            n == confident@.len(),
            i <= n,
            in_gap ==> start < i,
            in_gap ==> forall|j: int| start <= j < i ==> !#[trigger] confident@[j],
            in_gap ==> (start == 0 || confident@[start - 1]),
            !in_gap ==> (i == 0 || confident@[i - 1]),
            forall|k: int| 0 <= k < gaps@.len() ==> is_gap(confident@, #[trigger] gaps@[k].0 as int, gaps@[k].1 as int),
            forall|k: int| 0 <= k < gaps@.len() ==> #[trigger] gaps@[k].1 + 1 < (if in_gap { start as int } else { i as int }),
            forall|k: int, l: int| 0 <= k < l < gaps@.len() ==> #[trigger] gaps@[k].1 + 1 < #[trigger] gaps@[l].0,
            forall|j: int|
                0 <= j < (if in_gap { start as int } else { i as int }) && !#[trigger] confident@[j] ==> exists|k: int|
                    0 <= k < gaps@.len() && #[trigger] gaps@[k].0 <= j <= gaps@[k].1,
        decreases n - i,
    {
        if confident[i] {
            if in_gap {
                let ghost old_gaps = gaps@;
                gaps.push((start, i - 1));
                proof {
                    assert(is_gap(confident@, start as int, i - 1));
                    assert forall|j: int|
                        0 <= j < i + 1 && !#[trigger] confident@[j] implies exists|k: int|
                            0 <= k < gaps@.len() && #[trigger] gaps@[k].0 <= j <= gaps@[k].1 by {
                        if j < start {
                            let k = choose|k: int| 0 <= k < old_gaps.len() && #[trigger] old_gaps[k].0 <= j <= old_gaps[k].1;
                            assert(gaps@[k] == old_gaps[k]);
                            assert(gaps@[k].0 <= j <= gaps@[k].1);
                        } else {
                            let k = old_gaps.len() as int;
                            assert(gaps@[k] == (start, (i - 1) as usize));
                            assert(gaps@[k].0 <= j <= gaps@[k].1);
                        }
                    }
                    assert forall|k: int, l: int| 0 <= k < l < gaps@.len() implies #[trigger] gaps@[k].1 + 1 < #[trigger] gaps@[l].0 by {
                        if l < old_gaps.len() {
                            assert(gaps@[k] == old_gaps[k]);
                            assert(gaps@[l] == old_gaps[l]);
                        } else {
                            assert(gaps@[k] == old_gaps[k]);
                        }
                    }
                }
                in_gap = false;
            }
        } else {
            if !in_gap {
                start = i;
                in_gap = true;
            }
        }
        i = i + 1;
    }
    if in_gap {
        let ghost old_gaps = gaps@;
        gaps.push((start, n - 1));
        proof {
            assert(is_gap(confident@, start as int, n - 1));
            assert forall|j: int|
                0 <= j < n && !#[trigger] confident@[j] implies exists|k: int|
                    0 <= k < gaps@.len() && #[trigger] gaps@[k].0 <= j <= gaps@[k].1 by {
                if j < start {
                    let k = choose|k: int| 0 <= k < old_gaps.len() && #[trigger] old_gaps[k].0 <= j <= old_gaps[k].1;
                    assert(gaps@[k] == old_gaps[k]);
                    assert(gaps@[k].0 <= j <= gaps@[k].1);
                } else {
                    let k = old_gaps.len() as int;
                    assert(gaps@[k] == (start, (n - 1) as usize));
                    assert(gaps@[k].0 <= j <= gaps@[k].1);
                }
            }
            assert forall|k: int, l: int| 0 <= k < l < gaps@.len() implies #[trigger] gaps@[k].1 + 1 < #[trigger] gaps@[l].0 by {
                assert(gaps@[k] == old_gaps[k]);
                if l < old_gaps.len() {
                    assert(gaps@[l] == old_gaps[l]);
                }
            }
        }
    }
    gaps
}


/// Whether a run has lights on both sides.
pub open spec fn is_interior(gap: (usize, usize), n: int) -> bool {
    gap.0 > 0 && gap.1 + 1 < n
}

/// Runs ordered one after another.
pub open spec fn ordered_runs(gaps: Seq<(usize, usize)>) -> bool {
    forall|k: int, l: int| 0 <= k < l < gaps.len() ==> #[trigger] gaps[k].1 + 1 < #[trigger] gaps[l].0
}

/// The gaps to fill by interpolation: the runs of unconfident lights with a
/// confident light on both sides, in order.
pub fn interpolation_gaps(confident: &Vec<bool>) -> (gaps: Vec<(usize, usize)>)
    ensures
        forall|k: int|
            0 <= k < gaps@.len() ==> is_gap(confident@, #[trigger] gaps@[k].0 as int, gaps@[k].1 as int)
                && is_interior(gaps@[k], confident@.len() as int),
        ordered_runs(gaps@),
        forall|s: int, e: int|
            #[trigger] is_gap(confident@, s, e) && s > 0 && e + 1 < confident@.len() ==> exists|k: int|
                0 <= k < gaps@.len() && #[trigger] gaps@[k] == (s as usize, e as usize),
{
    let n = confident.len();
    let mut gaps: Vec<(usize, usize)> = Vec::new();
    let mut in_gap = false;
    let mut start: usize = 0;
    let mut i: usize = 0;
    while i < n
        invariant
            n == confident@.len(),
            i <= n,
            in_gap ==> start < i,
            in_gap ==> forall|j: int| start <= j < i ==> !#[trigger] confident@[j],
            in_gap ==> (start == 0 || confident@[start - 1]),
            !in_gap ==> (i == 0 || confident@[i - 1]),
            forall|k: int|
                0 <= k < gaps@.len() ==> is_gap(confident@, #[trigger] gaps@[k].0 as int, gaps@[k].1 as int)
                    && is_interior(gaps@[k], n as int),
            forall|k: int| 0 <= k < gaps@.len() ==> #[trigger] gaps@[k].1 + 1 < (if in_gap { start as int } else { i as int }),
            ordered_runs(gaps@),
            forall|s: int, e: int|
                #[trigger] is_gap(confident@, s, e) && s > 0 && e + 1 < i ==> exists|k: int|
                    0 <= k < gaps@.len() && #[trigger] gaps@[k] == (s as usize, e as usize),
        decreases n - i,
    {
        if confident[i] {
            if in_gap {
                if start > 0 {
                    let ghost old_gaps = gaps@;
                    gaps.push((start, i - 1));
                    proof {
                        assert(is_gap(confident@, start as int, i - 1));
                        assert(gaps@[old_gaps.len() as int] == (start, (i - 1) as usize));
                        assert forall|k: int, l: int| 0 <= k < l < gaps@.len() implies #[trigger] gaps@[k].1 + 1 < #[trigger] gaps@[l].0 by {
                            assert(gaps@[k] == old_gaps[k]);
                            if l < old_gaps.len() {
                                assert(gaps@[l] == old_gaps[l]);
                            }
                        }
                        assert forall|s: int, e: int|
                            #[trigger] is_gap(confident@, s, e) && s > 0 && e + 1 < i + 1 implies exists|k: int|
                                0 <= k < gaps@.len() && #[trigger] gaps@[k] == (s as usize, e as usize) by {
                            if e + 1 < i {
                                let k = choose|k: int| 0 <= k < old_gaps.len() && #[trigger] old_gaps[k] == (s as usize, e as usize);
                                assert(gaps@[k] == old_gaps[k]);
                            } else {
                                lemma_gap_is_unique(confident@, start as int, i - 1, s, e);
                                assert(gaps@[old_gaps.len() as int] == (s as usize, e as usize));
                            }
                        }
                    }
                } else {
                    proof {
                        assert forall|s: int, e: int|
                            #[trigger] is_gap(confident@, s, e) && s > 0 && e + 1 < i + 1 implies exists|k: int|
                                0 <= k < gaps@.len() && #[trigger] gaps@[k] == (s as usize, e as usize) by {
                            if e + 1 == i {
                                lemma_gap_is_unique(confident@, start as int, i - 1, s, e);
                            }
                        }
                    }
                }
                in_gap = false;
            }
        } else {
            if !in_gap {
                start = i;
                in_gap = true;
            }
        }
        i = i + 1;
    }
    gaps
}

/// Two maximal runs that share a light are the same run.
proof fn lemma_gap_is_unique(confident: Seq<bool>, s1: int, e1: int, s2: int, e2: int)
    requires
        is_gap(confident, s1, e1),
        is_gap(confident, s2, e2),
        s2 <= s1 <= e2,
    ensures
        s1 == s2,
        e1 == e2,
{
    if s2 < s1 {
        assert(!confident[s1 - 1]);
    }
    if e1 < e2 {
        assert(!confident[e1 + 1]);
    } else if e2 < e1 {
        assert(!confident[e2 + 1]);
    }
}

/// The number of unconfident lights before the first confident one (all of
/// them when none is confident).
pub fn leading_unconfident_count(confident: &Vec<bool>) -> (count: usize)
    ensures
        count <= confident@.len(),
        forall|j: int| 0 <= j < count ==> !#[trigger] confident@[j],
        count == confident@.len() || confident@[count as int],
{
    let mut i: usize = 0;
    while i < confident.len() && !confident[i]
        invariant
            i <= confident@.len(),
            forall|j: int| 0 <= j < i ==> !#[trigger] confident@[j],
        decreases confident@.len() - i,
    {
        i = i + 1;
    }
    i
}

/// The bounds of the confident detections: the smallest coordinates and
/// how far the largest are from them.
#[derive(Clone, Copy, Debug, PartialEq, Eq, Structural)]
pub struct Bounds {
    pub x_min: usize,
    pub x_span: usize,
    pub y_min: usize,
    pub y_span: usize,
}

/// The number of confident detections.
pub open spec fn confident_count(confident: Seq<bool>) -> nat
    decreases confident.len(),
{
    if confident.len() == 0 {
        0
    } else {
        confident_count(confident.drop_last()) + if confident.last() {
            1nat
        } else {
            0nat
        }
    }
}

/// `m` is the smallest of the values `f` picks from confident points.
pub open spec fn is_min_of(points: Seq<(usize, usize)>, confident: Seq<bool>, m: int, use_x: bool) -> bool {
    &&& forall|j: int| 0 <= j < points.len() && confident[j] ==> m <= #[trigger] coord(points[j], use_x)
    &&& exists|j: int| 0 <= j < points.len() && confident[j] && m == #[trigger] coord(points[j], use_x)
}

/// `m` is the largest of the values `f` picks from confident points.
pub open spec fn is_max_of(points: Seq<(usize, usize)>, confident: Seq<bool>, m: int, use_x: bool) -> bool {
    &&& forall|j: int| 0 <= j < points.len() && confident[j] ==> #[trigger] coord(points[j], use_x) <= m
    &&& exists|j: int| 0 <= j < points.len() && confident[j] && m == #[trigger] coord(points[j], use_x)
}

/// The x or the y coordinate of a point.
pub open spec fn coord(p: (usize, usize), use_x: bool) -> int {
    if use_x {
        p.0 as int
    } else {
        p.1 as int
    }
}

/// The bounds of the confident detections, or `None` when fewer than two
/// detections are confident (then nothing can be normalised).
pub fn normalization_bounds(points: &Vec<(usize, usize)>, confident: &Vec<bool>) -> (b: Option<Bounds>)
    requires
        points@.len() == confident@.len(),
    ensures
        b is None <==> confident_count(confident@) < 2,
        b matches Some(bounds) ==> {
            &&& is_min_of(points@, confident@, bounds.x_min as int, true)
            &&& is_max_of(points@, confident@, bounds.x_min + bounds.x_span, true)
            &&& is_min_of(points@, confident@, bounds.y_min as int, false)
            &&& is_max_of(points@, confident@, bounds.y_min + bounds.y_span, false)
        },
{
    let n = points.len();
    let mut count: usize = 0;
    let mut x_min: usize = 0;
    let mut x_max: usize = 0;
    let mut y_min: usize = 0;
    let mut y_max: usize = 0;
    let mut i: usize = 0;
    while i < n
        invariant
            n == points@.len(),
            n == confident@.len(),
            i <= n,
            count == confident_count(confident@.take(i as int)),
            count <= i,
            count > 0 ==> is_min_of(points@.take(i as int), confident@, x_min as int, true),
            count > 0 ==> is_max_of(points@.take(i as int), confident@, x_max as int, true),
            count > 0 ==> is_min_of(points@.take(i as int), confident@, y_min as int, false),
            count > 0 ==> is_max_of(points@.take(i as int), confident@, y_max as int, false),
            count == 0 ==> forall|j: int| 0 <= j < i ==> !#[trigger] confident@[j],
            x_min <= x_max,
            y_min <= y_max,
        decreases n - i,
    {
        assert(confident@.take(i + 1).drop_last() =~= confident@.take(i as int));
        let ghost pts = points@.take(i as int);
        let ghost pts1 = points@.take(i + 1);
        assert forall|j: int| 0 <= j < i implies pts1[j] == pts[j] by {}
        assert(pts1[i as int] == points@[i as int]);
        if confident[i] {
            let (x, y) = points[i];
            if count == 0 {
                x_min = x;
                x_max = x;
                y_min = y;
                y_max = y;
                assert(coord(pts1[i as int], true) == x);
                assert(coord(pts1[i as int], false) == y);
            } else {
                if x < x_min {
                    x_min = x;
                }
                if x > x_max {
                    x_max = x;
                }
                if y < y_min {
                    y_min = y;
                }
                if y > y_max {
                    y_max = y;
                }
                assert(coord(pts1[i as int], true) == x);
                assert(coord(pts1[i as int], false) == y);
            }
            count = count + 1;
        }
        i = i + 1;
    }
    assert(points@.take(n as int) =~= points@);
    assert(confident@.take(n as int) =~= confident@);
    if count < 2 {
        None
    } else {
        Some(Bounds { x_min, x_span: x_max - x_min, y_min, y_span: y_max - y_min })
    }
}

/// Half of `x`, rounded toward zero, as integer division does.
pub open spec fn half_toward_zero(x: int) -> int {
    if x >= 0 {
        x / 2
    } else {
        -((-x) / 2)
    }
}

/// A detection's offset from the centre of the bounds along one axis:
/// `value - min - span / 2`, each taken as a signed number (so values
/// above `isize::MAX` wrap around), the half rounded toward zero.
pub fn centered_offset(value: usize, min: usize, span: usize) -> (offset: isize)
    requires
        isize::MIN <= (value as isize) - (min as isize) <= isize::MAX,
        isize::MIN <= (value as isize) - (min as isize) - half_toward_zero(span as isize as int)
            <= isize::MAX,
    ensures
        offset == (value as isize) - (min as isize) - half_toward_zero(span as isize as int),
{
    let v: isize = value as isize;
    let m: isize = min as isize;
    let s: isize = span as isize;
    let half: isize = if s >= 0 {
        ((s as usize) / 2) as isize
    } else {
        let t: usize = (-(s + 1)) as usize;
        -(((t / 2) + (t % 2)) as isize)
    };
    v - m - half
}

/// Failed attempts in a row before the user is asked to check the
/// hardware.
pub const MAX_ATTEMPTS: u32 = 10;

/// The pause after the first failed attempt, in milliseconds; the `k`-th
/// failure in a row waits `k` times as long.
pub const RETRY_DELAY_MS: u64 = 30;

/// What to do after a failed camera capture.
#[derive(Clone, Copy, Debug, PartialEq, Eq, Structural)]
pub enum RetryAction {
    /// Ask the user to check the hardware and wait for them.
    Pause,
    /// Sleep this many milliseconds, then try again.
    Sleep(u64),
}

/// Counts failed attempts in a row.
#[derive(Clone, Copy, Debug)]
pub struct RetryCounter {
    pub attempts: u32,
}

/// The attempts counted after a failed capture, and what to do.
pub open spec fn capture_failure_step(attempts: int) -> (int, RetryAction) {
    if attempts >= MAX_ATTEMPTS {
        (0, RetryAction::Pause)
    } else {
        (attempts + 1, RetryAction::Sleep((RETRY_DELAY_MS * (attempts + 1)) as u64))
    }
}

/// The attempts counted after `k` failed captures in a row, from none.
pub open spec fn attempts_after_capture_failures(k: nat) -> int
    decreases k,
{
    if k == 0 {
        0
    } else {
        capture_failure_step(attempts_after_capture_failures((k - 1) as nat)).0
    }
}

impl RetryCounter {
    pub fn new() -> (c: RetryCounter)
        ensures
            c.attempts == 0,
    {
        RetryCounter { attempts: 0 }
    }

    /// Before showing a frame: after too many failures in a row, the user
    /// is asked to check the lights (returns `true`) and the count starts
    /// over.
    pub fn before_display_attempt(&mut self) -> (pause: bool)
        requires
            old(self).attempts <= MAX_ATTEMPTS,
        ensures
            pause == (old(self).attempts >= MAX_ATTEMPTS),
            final(self).attempts == if pause {
                0
            } else {
                old(self).attempts
            },
            final(self).attempts < MAX_ATTEMPTS,
    {
        if self.attempts >= MAX_ATTEMPTS {
            self.attempts = 0;
            true
        } else {
            false
        }
    }

    /// After a failed display: one more failure, and the milliseconds to
    /// wait, 30 per failure in a row.
    pub fn after_display_failure(&mut self) -> (delay_ms: u64)
        requires
            old(self).attempts < MAX_ATTEMPTS,
        ensures
            final(self).attempts == old(self).attempts + 1,
            final(self).attempts <= MAX_ATTEMPTS,
            delay_ms == RETRY_DELAY_MS * final(self).attempts,
    {
        self.attempts = self.attempts + 1;
        RETRY_DELAY_MS * self.attempts as u64
    }

    /// After a failed capture: after too many failures in a row, pause for
    /// the user and start over; else one more failure and a wait of 30 ms
    /// per failure in a row.
    pub fn after_capture_failure(&mut self) -> (action: RetryAction)
        requires
            old(self).attempts <= MAX_ATTEMPTS,
        ensures
            (final(self).attempts as int, action) == capture_failure_step(old(self).attempts as int),
            final(self).attempts <= MAX_ATTEMPTS,
    {
        if self.attempts >= MAX_ATTEMPTS {
            self.attempts = 0;
            RetryAction::Pause
        } else {
            self.attempts = self.attempts + 1;
            RetryAction::Sleep(RETRY_DELAY_MS * self.attempts as u64)
        }
    }
}

/// Failed captures are retried ten times, each after a longer wait, and
/// the eleventh failure in a row asks for the user: the count after `k`
/// failures is `k` modulo eleven.
pub proof fn lemma_capture_retries_cycle(k: nat)
    ensures
        attempts_after_capture_failures(k) == k % 11,
    decreases k,
{
    if k > 0 {
        lemma_capture_retries_cycle((k - 1) as nat);
    }
}

/// The folder the pictures of a capture go to: "captures/" and the time
/// the capture started.
pub fn capture_dir(timestamp: &str) -> (dir: String)
    ensures
        dir@ == "captures/"@ + timestamp@,
{
    String::from_str("captures/").concat(timestamp)
}

/// The folder of the per-light pictures: the capture folder and "/img".
pub fn image_dir(dir: &str) -> (path: String)
    ensures
        path@ == dir@ + "/img"@,
{
    String::from_str(dir).concat("/img")
}

/// The picture of light `index`: "<dir>/img/" then the index with at least
/// three digits, then ".jpg".
pub fn image_path(dir: &str, index: u64) -> (path: String)
    ensures
        exists|digits: Seq<char>|
            path@ == dir@ + "/img/"@ + digits + ".jpg"@ && all_decimal_digits(digits)
                && decimal_value(digits) == index && digits.len() >= 3 && (digits.len() == 3
                || digits[0] != '0'),
{
    let digits = padded_decimal(index, 3usize);
    let p = String::from_str(dir).concat("/img/").concat(digits.as_str()).concat(".jpg");
    assert(p@ == dir@ + "/img/"@ + digits@ + ".jpg"@);
    p
}

/// The reference picture of a capture: "<dir>/reference.jpg".
pub fn reference_path(dir: &str) -> (path: String)
    ensures
        path@ == dir@ + "/reference.jpg"@,
{
    String::from_str(dir).concat("/reference.jpg")
}

/// The detected positions of a capture: "<dir>/<perspective>.csv".
pub fn coordinates_path(dir: &str, perspective: &str) -> (path: String)
    ensures
        path@ == dir@ + "/"@ + perspective@ + ".csv"@,
{
    String::from_str(dir).concat("/").concat(perspective).concat(".csv")
}

} // verus!
