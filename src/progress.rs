//! The progress bar: counts, a smoothed transfer rate, and the frames to
//! draw on the terminal.

use vstd::prelude::*;
use crate::fmt::{bytes_text, duration_text, Bytes, Duration};

verus! {

/// Nanoseconds between two redraws, at least.
pub const UPDATE_INTERVAL_NS: u64 = 100_000_000;

/// Cells of the bar.
pub const BAR_WIDTH: usize = 24;

/// Clears the current terminal line.
pub const RESET: &'static str = "\x1b[K";

/// Eighths of the bar that are filled: all of them once the total is
/// reached (or when it is zero), else `so_far / total` of them rounded down.
pub open spec fn filled_eighths(so_far: nat, total: nat) -> nat {
    if total == 0 || so_far >= total {
        (8 * BAR_WIDTH) as nat
    } else {
        (so_far * (8 * BAR_WIDTH) / (total as int)) as nat
    }
}

/// The glyph of a cell filled to exactly `k` eighths, for `k` in `1..8`.
pub open spec fn partial_glyph(k: nat) -> char {
    seq!['▏', '▎', '▍', '▌', '▋', '▊', '▉'][k - 1]
}

/// The bar with `eighths` of `8 * BAR_WIDTH` filled: full cells, the
/// partial cell if any, then spaces up to `BAR_WIDTH` cells.
pub open spec fn bar_text(eighths: nat) -> Seq<char> {
    let full = eighths / 8;
    let partial = if eighths % 8 > 0 {
        seq![partial_glyph(eighths % 8)]
    } else {
        Seq::empty()
    };
    let used = full + partial.len();
    Seq::new(full, |i: int| '█') + partial + Seq::new(
        (BAR_WIDTH - used) as nat,
        |i: int| ' ',
    )
}

/// The rate shown: zero until a first sample was taken.
pub open spec fn shown_rate(rate: Option<usize>) -> nat {
    match rate {
        Some(r) => r as nat,
        None => 0,
    }
}

/// Whole seconds until `total` is reached at `rate`, zero when that is
/// unknown or already past.
pub open spec fn eta(so_far: nat, total: nat, rate: Option<usize>) -> nat {
    match rate {
        Some(r) => if so_far > total || r == 0 {
            0
        } else {
            ((total - so_far) / (r as int)) as nat
        },
        None => 0,
    }
}

/// A rate sample: bytes per second over `elapsed_ns`, capped at `usize::MAX`.
pub open spec fn rate_sample(bytes: nat, elapsed_ns: nat) -> nat {
    let r = (bytes * 1_000_000_000 / elapsed_ns) as nat;
    if r > usize::MAX {
        usize::MAX as nat
    } else {
        r
    }
}

/// The smoothed rate after a sample: the sample itself at first, then
/// 1/20 of the sample plus 19/20 of the previous rate, rounded down.
pub open spec fn smoothed(prev: Option<usize>, sample: nat) -> nat {
    match prev {
        None => sample,
        Some(r) => ((sample + 19 * r) / 20) as nat,
    }
}

/// The progress of one upload.
pub struct Progress {
    so_far: usize,
    total: usize,
    last_update_ns: u64,
    last_update_bytes: usize,
    rate: Option<usize>,
}

impl Progress {
    pub closed spec fn so_far(&self) -> nat {
        self.so_far as nat
    }

    pub closed spec fn total(&self) -> nat {
        self.total as nat
    }

    /// Bytes per second, once a first sample was taken.
    pub closed spec fn rate(&self) -> Option<usize> {
        self.rate
    }

    /// The clock reading of the last redraw, in nanoseconds.
    pub closed spec fn last_update_ns(&self) -> nat {
        self.last_update_ns as nat
    }

    /// The count at the last redraw.
    pub closed spec fn last_update_bytes(&self) -> nat {
        self.last_update_bytes as nat
    }

    pub closed spec fn wf(&self) -> bool {
        self.last_update_bytes <= self.so_far
    }

    /// What a redraw writes: clear the line, the counts, the bar, the rate
    /// and the time left, then return to the start of the line.
    pub open spec fn frame_text(&self) -> Seq<char> {
        RESET@ + bytes_text(self.so_far()) + seq!['/'] + bytes_text(self.total()) + seq![' ', '[']
            + bar_text(filled_eighths(self.so_far(), self.total())) + seq![']', ' '] + bytes_text(
            shown_rate(self.rate()),
        ) + "/s eta "@ + duration_text(eta(self.so_far(), self.total(), self.rate()))
            + seq!['\r']
    }

    /// A bar for `total` bytes, started at clock reading `now_ns`.
    pub fn new(total: usize, now_ns: u64) -> (r: Progress)
        ensures
            r.wf(),
            r.so_far() == 0,
            r.total() == total,
            r.rate() is None,
            r.last_update_ns() == now_ns,
            r.last_update_bytes() == 0,
    {
        Progress { so_far: 0, total, last_update_ns: now_ns, last_update_bytes: 0, rate: None }
    }

    /// Bytes counted so far.
    pub fn received(&self) -> (r: usize)
        ensures
            r == self.so_far(),
    {
        self.so_far
    }

    /// Clock nanoseconds from the last redraw to `now_ns` (zero for a reading
    /// before it).
    pub open spec fn elapsed_to(&self, now_ns: u64) -> nat {
        if now_ns >= self.last_update_ns() {
            (now_ns - self.last_update_ns()) as nat
        } else {
            0
        }
    }

    /// Counts `chunk` more bytes, received at clock reading `now_ns`. When
    /// at least [`UPDATE_INTERVAL_NS`] passed since the last redraw, takes a
    /// rate sample over that span, smooths it into the rate, and returns
    /// the frame to draw.
    pub fn update(&mut self, chunk: usize, now_ns: u64) -> (r: Option<String>)
        requires
            old(self).wf(),
            old(self).so_far() + chunk <= usize::MAX,
        ensures
            final(self).wf(),
            final(self).so_far() == old(self).so_far() + chunk,
            final(self).total() == old(self).total(),
            old(self).elapsed_to(now_ns) < UPDATE_INTERVAL_NS ==> {
                &&& r is None
                &&& final(self).rate() == old(self).rate()
                &&& final(self).last_update_ns() == old(self).last_update_ns()
                &&& final(self).last_update_bytes() == old(self).last_update_bytes()
            },
            old(self).elapsed_to(now_ns) >= UPDATE_INTERVAL_NS ==> {
                &&& final(self).rate() matches Some(rate) && rate == smoothed(
                    old(self).rate(),
                    rate_sample(
                        (final(self).so_far() - old(self).last_update_bytes()) as nat,
                        old(self).elapsed_to(now_ns),
                    ),
                )
                &&& final(self).last_update_ns() == now_ns
                &&& final(self).last_update_bytes() == final(self).so_far()
                &&& r matches Some(t) && t@ == final(self).frame_text()
            },
    {
        self.so_far = self.so_far + chunk;
        let elapsed: u64 = if now_ns >= self.last_update_ns {
            now_ns - self.last_update_ns
        } else {
            0
        };
        if elapsed < UPDATE_INTERVAL_NS {
            return None;
        }
        let bytes_since = self.so_far - self.last_update_bytes;
        self.last_update_bytes = self.so_far;
        assert((bytes_since as u128) * 1_000_000_000 <= u64::MAX as u128 * 1_000_000_000) by (nonlinear_arith)
            requires
                bytes_since <= u64::MAX,
        ;
        let per_second: u128 = (bytes_since as u128) * 1_000_000_000 / (elapsed as u128);
        let sample: usize = if per_second > usize::MAX as u128 {
            usize::MAX
        } else {
            per_second as usize
        };
        let rate: usize = match self.rate {
            None => sample,
            Some(prev) => ((sample as u128 + 19 * prev as u128) / 20) as usize,
        };
        self.rate = Some(rate);
        self.last_update_ns = now_ns;
        Some(self.frame())
    }

    /// What announcing a new file writes: clear the line, the name on a
    /// line of its own, then a redraw.
    pub fn new_file(&self, name: &str) -> (r: String)
        ensures
            r@ == RESET@ + name@ + seq!['\n'] + self.frame_text(),
    {
        let mut out = String::from_str(RESET);
        out.append(name);
        proof { reveal_strlit("\n"); }
        out.append("\n");
        let frame = self.frame();
        out.append(frame.as_str());
        out
    }

    /// The text of one redraw, see [`Progress::frame_text`].
    pub fn frame(&self) -> (r: String)
        ensures
            r@ == self.frame_text(),
    {
        let mut out = String::from_str(RESET);
        let so_far = Bytes(self.so_far).render();
        out.append(so_far.as_str());
        proof { reveal_strlit("/"); reveal_strlit(" ["); reveal_strlit("] "); reveal_strlit("\r"); }
        out.append("/");
        let total = Bytes(self.total).render();
        out.append(total.as_str());
        out.append(" [");
        let eighths: usize = if self.total == 0 || self.so_far >= self.total {
            8 * BAR_WIDTH
        } else {
            proof {
                vstd::arithmetic::div_mod::lemma_div_is_ordered(
                    self.so_far as int * 192,
                    self.total as int * 192,
                    self.total as int,
                );
                vstd::arithmetic::div_mod::lemma_div_by_multiple(192, self.total as int);
                assert(self.total as int * 192 == 192 * self.total as int);
            }
            ((self.so_far as u128 * 192) / self.total as u128) as usize
        };
        push_bar(&mut out, eighths);
        out.append("] ");
        let rate = match self.rate {
            Some(r) => r,
            None => 0,
        };
        let shown = Bytes(rate).render();
        out.append(shown.as_str());
        out.append("/s eta ");
        let left: u64 = match self.rate {
            Some(r) => if self.so_far > self.total || r == 0 {
                0
            } else {
                ((self.total - self.so_far) / r) as u64
            },
            None => 0,
        };
        let left_text = Duration(left).render();
        out.append(left_text.as_str());
        out.append("\r");
        out
    }
}

/// The glyph of a cell filled to exactly `k` eighths.
fn partial_glyph_str(k: usize) -> (r: &'static str)
    requires
        1 <= k < 8,
    ensures
        r@ == seq![partial_glyph(k as nat)],
{
    match k {
        1 => {
            proof { reveal_strlit("▏"); }
            "▏"
        },
        2 => {
            proof { reveal_strlit("▎"); }
            "▎"
        },
        3 => {
            proof { reveal_strlit("▍"); }
            "▍"
        },
        4 => {
            proof { reveal_strlit("▌"); }
            "▌"
        },
        5 => {
            proof { reveal_strlit("▋"); }
            "▋"
        },
        6 => {
            proof { reveal_strlit("▊"); }
            "▊"
        },
        _ => {
            proof { reveal_strlit("▉"); }
            "▉"
        },
    }
}

/// Appends the bar with `eighths` filled, see [`bar_text`].
fn push_bar(out: &mut String, eighths: usize)
    requires
        eighths <= 8 * BAR_WIDTH,
    ensures
        final(out)@ == old(out)@ + bar_text(eighths as nat),
{
    let ghost start = out@;
    let full = eighths / 8;
    proof { reveal_strlit("█"); reveal_strlit(" "); }
    let mut i: usize = 0;
    while i < full
        invariant
            full == eighths / 8,
            i <= full,
            out@ == start + Seq::new(i as nat, |j: int| '█'),
        decreases full - i,
    {
        out.append("█");
        proof { reveal_strlit("█"); }
        assert(Seq::new(i as nat, |j: int| '█').push('█') =~= Seq::new((i + 1) as nat, |j: int| '█'));
        i = i + 1;
    }
    let mut used = full;
    let ghost partial: Seq<char> = Seq::empty();
    if eighths % 8 > 0 {
        out.append(partial_glyph_str(eighths % 8));
        used = used + 1;
        proof { partial = seq![partial_glyph((eighths % 8) as nat)]; }
    }
    let ghost mid = out@;
    assert(mid == start + Seq::new(full as nat, |j: int| '█') + partial);
    while used < BAR_WIDTH
        invariant
            used <= BAR_WIDTH,
            used >= full + partial.len(),
            out@ == mid + Seq::new((used - full - partial.len()) as nat, |j: int| ' '),
        decreases BAR_WIDTH - used,
    {
        out.append(" ");
        proof { reveal_strlit(" "); }
        assert(Seq::new((used - full - partial.len()) as nat, |j: int| ' ').push(' ') =~= Seq::new(
            (used + 1 - full - partial.len()) as nat,
            |j: int| ' ',
        ));
        used = used + 1;
    }
    assert(out@ =~= start + bar_text(eighths as nat));
}

/// The bar shows `min(so_far / total, 1)` of its eighths, rounded down:
/// short of the total, `eighths / 192 <= so_far / total < (eighths + 1) / 192`;
/// at or past it (or with a zero total), all 192. It has 24 cells, of which
/// `eighths / 8` are full, the next shows the remaining `eighths % 8`
/// eighths (if any), and the rest are blank.
pub proof fn lemma_bar_fill(so_far: nat, total: nat)
    ensures
        ({
            let e = filled_eighths(so_far, total);
            &&& e <= 8 * BAR_WIDTH
            &&& (total > 0 && so_far < total) ==> e * total <= so_far * 192 < (e + 1) * total
            &&& (total == 0 || so_far >= total) ==> e == 192
            &&& bar_text(e).len() == BAR_WIDTH
            &&& forall|i: int| 0 <= i < e / 8 ==> #[trigger] bar_text(e)[i] == '█'
            &&& e % 8 > 0 ==> bar_text(e)[(e / 8) as int] == partial_glyph((e % 8) as nat)
            &&& forall|i: int|
                e / 8 + (if e % 8 > 0 { 1int } else { 0int }) <= i < BAR_WIDTH
                    ==> #[trigger] bar_text(e)[i] == ' '
        }),
{
    let e = filled_eighths(so_far, total);
    if total > 0 && so_far < total {
        let a: int = so_far as int * 192;
        let t: int = total as int;
        vstd::arithmetic::div_mod::lemma_fundamental_div_mod(a, t);
        vstd::arithmetic::div_mod::lemma_mod_bound(a, t);
        assert(e * t <= a && a < (e + 1) * t) by (nonlinear_arith)
            requires
                t > 0,
                a == t * e + a % t,
                0 <= a % t < t,
        ;
        assert(e < 192) by (nonlinear_arith)
            requires
                e * t <= a,
                t == total,
                a == so_far * 192,
                so_far < total,
        ;
    }
    let full = e / 8;
    let partial = if e % 8 > 0 {
        seq![partial_glyph(e % 8)]
    } else {
        Seq::empty()
    };
    assert(full + partial.len() <= BAR_WIDTH);
    assert forall|i: int| 0 <= i < e / 8 implies #[trigger] bar_text(e)[i] == '█' by {
        assert(bar_text(e)[i] == Seq::new(full, |i: int| '█')[i]);
    }
    let used = full + partial.len();
    assert forall|i: int| used <= i < BAR_WIDTH implies #[trigger] bar_text(e)[i] == ' ' by {
        assert(bar_text(e)[i] == Seq::new((BAR_WIDTH - used) as nat, |i: int| ' ')[i - used]);
    }
}

/// More bytes never show a shorter bar.
pub proof fn lemma_bar_monotone(a: nat, b: nat, total: nat)
    requires
        a <= b,
    ensures
        filled_eighths(a, total) <= filled_eighths(b, total),
{
    lemma_bar_fill(a, total);
    lemma_bar_fill(b, total);
    if total > 0 && b < total {
        assert(a * 192 <= b * 192) by (nonlinear_arith)
            requires
                a <= b,
        ;
        vstd::arithmetic::div_mod::lemma_div_is_ordered((a * 192) as int, (b * 192) as int, total as int);
    }
}

} // verus!
