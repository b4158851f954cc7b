//! Progress of a transfer: the rounded percentage and the bar drawn from it.

use crate::text::{decimal, push_decimal, push_repeated, repeated};
use vstd::prelude::*;
use vstd::string::StringExecFns;

verus! {

/// Width of the bar, in cells.
pub const BAR_CELLS: u64 = 20;

/// Percentage of `current` in `total`, rounded to the nearest whole number
/// with halves going up. It is computed on integers alone. Meaningless for a
/// `total` of zero.
pub open spec fn percentage(current: nat, total: nat) -> nat {
    (current * 200 + total) / (total * 2)
}

/// Number of filled cells: one for every full five percent, and never more
/// than the bar has.
pub open spec fn filled_cells(current: nat, total: nat) -> nat {
    let cells = percentage(current, total) / 5;
    if cells > BAR_CELLS {
        BAR_CELLS as nat
    } else {
        cells
    }
}

/// The bar as text: `[`, the filled cells as `=`, the empty ones as `-`, `]`,
/// the percentage in decimal, and `%`.
pub open spec fn bar_text(current: nat, total: nat) -> Seq<char> {
    let filled = filled_cells(current, total);
    seq!['['] + repeated('=', filled) + repeated('-', (BAR_CELLS - filled) as nat) + seq![']']
        + decimal(percentage(current, total)) + seq!['%']
}

/// The total against which a bar can be drawn: the announced one, unless
/// there is none or it is zero.
pub open spec fn bar_total(total: Option<u64>) -> Option<u64> {
    match total {
        Some(total) if total > 0 => Some(total),
        _ => None,
    }
}

/// What is shown for a transfer of `transferred` bytes: the bar where there
/// is a total to draw it against, else just the number of bytes.
pub open spec fn progress_text(transferred: nat, total: Option<u64>) -> Seq<char> {
    match bar_total(total) {
        Some(total) => bar_text(transferred, total as nat),
        None => decimal(transferred),
    }
}

/// Computes [`percentage`]. The result is above 100 where more has arrived
/// than was announced, and is wide enough for every such case.
pub fn percent(current: u64, total: u64) -> (pct: u128)
    requires
        total > 0,
    ensures
        pct == percentage(current as nat, total as nat),
{
    let current: u128 = current as u128;
    let total: u128 = total as u128;
    (current * 200 + total) / (total * 2)
}

/// Draws the bar for `current` of `total` bytes. Drawing has no effect beyond
/// the text it returns; how and where that is shown is the caller's affair.
pub fn render(current: u64, total: u64) -> (text: String)
    requires
        total > 0,
    ensures
        text@ == bar_text(current as nat, total as nat),
{
    let pct: u128 = percent(current, total);
    let cells: u128 = pct / 5;
    let filled: u64 = if cells > BAR_CELLS as u128 {
        BAR_CELLS
    } else {
        cells as u64
    };
    proof {
        reveal_strlit("[");
        reveal_strlit("=");
        reveal_strlit("-");
        reveal_strlit("]");
        reveal_strlit("%");
    }
    let mut text = String::from_str("[");
    push_repeated(&mut text, "=", filled);
    push_repeated(&mut text, "-", BAR_CELLS - filled);
    text.append("]");
    push_decimal(&mut text, pct);
    text.append("%");
    proof {
        assert(text@ =~= bar_text(current as nat, total as nat));
    }
    text
}

/// A bar for `current` out of `total` bytes.
#[derive(Clone, Copy, Debug, PartialEq, Eq)]
pub struct ProgressBar {
    pub current: u64,
    pub total: u64,
}

impl ProgressBar {
    /// The bar as text; see [`render`].
    pub fn render(&self) -> (text: String)
        requires
            self.total > 0,
        ensures
            text@ == bar_text(self.current as nat, self.total as nat),
    {
        render(self.current, self.total)
    }
}

/// How far a transfer has come.
///
/// The number of bytes never goes down. The total is absent where the remote
/// end did not say how long the body is; then there is no percentage and no
/// bar, only the count.
#[derive(Clone, Copy, Debug, PartialEq, Eq)]
pub struct TransferProgress {
    bytes_transferred: u64,
    total_bytes: Option<u64>,
}

impl TransferProgress {
    /// Bytes transferred so far.
    pub closed spec fn transferred(&self) -> u64 {
        self.bytes_transferred
    }

    /// The announced length of the body.
    pub closed spec fn total(&self) -> Option<u64> {
        self.total_bytes
    }

    /// Progress of a transfer that has not moved a byte yet.
    pub fn new(total_bytes: Option<u64>) -> (progress: TransferProgress)
        ensures
            progress.transferred() == 0,
            progress.total() == total_bytes,
    {
        TransferProgress { bytes_transferred: 0, total_bytes }
    }

    /// Takes note that `so_far` bytes have been transferred in all. A number
    /// below the one already noted changes nothing.
    pub fn record(&mut self, so_far: u64)
        ensures
            final(self).transferred() == (if so_far > old(self).transferred() {
                so_far
            } else {
                old(self).transferred()
            }),
            final(self).transferred() >= old(self).transferred(),
            final(self).total() == old(self).total(),
    {
        if so_far > self.bytes_transferred {
            self.bytes_transferred = so_far;
        }
    }

    /// Bytes transferred so far.
    pub fn bytes_transferred(&self) -> (bytes: u64)
        ensures
            bytes == self.transferred(),
    {
        self.bytes_transferred
    }

    /// The announced length of the body.
    pub fn total_bytes(&self) -> (total: Option<u64>)
        ensures
            total == self.total(),
    {
        self.total_bytes
    }

    /// The total against which the bar is drawn, if it is drawn: a total of
    /// zero is never handed to the bar.
    pub fn bar_total(&self) -> (total: Option<u64>)
        ensures
            total == bar_total(self.total()),
    {
        match self.total_bytes {
            Some(total) if total > 0 => Some(total),
            _ => None,
        }
    }

    /// What to show for this progress: the bar where there is a total to
    /// draw it against, else the count of bytes alone.
    pub fn render(&self) -> (text: String)
        ensures
            text@ == progress_text(self.transferred() as nat, self.total()),
    {
        match self.bar_total() {
            Some(total) => render(self.bytes_transferred, total),
            None => {
                let mut text = String::new();
                push_decimal(&mut text, self.bytes_transferred as u128);
                text
            },
        }
    }
}

/// Within the announced total the percentage stays within 0 and 100, and the
/// bar has exactly twenty cells, filled and empty together.
pub proof fn lemma_percentage_bounds(current: nat, total: nat)
    requires
        0 < total,
        current <= total,
    ensures
        percentage(current, total) <= 100,
        percentage(total, total) == 100,
        percentage(0, total) == 0,
        filled_cells(current, total) == percentage(current, total) / 5,
{
    assert(percentage(current, total) <= 100) by (nonlinear_arith)
        requires
            0 < total,
            current <= total,
    {
        assert((current * 200 + total) < 101 * (total * 2));
    }
    assert(percentage(total, total) == 100) by (nonlinear_arith)
        requires
            0 < total,
    {
        assert(total * 200 + total == 100 * (total * 2) + total);
    }
    assert(percentage(0, total) == 0) by (nonlinear_arith)
        requires
            0 < total,
    {
    }
}

/// The percentage is the whole number nearest to the exact ratio, halves
/// going up: it is off by at most half a percent.
pub proof fn lemma_percentage_is_nearest(current: nat, total: nat)
    requires
        0 < total,
    ensures
        percentage(current, total) * (2 * total) <= 200 * current + total,
        200 * current + total < (percentage(current, total) + 1) * (2 * total),
{
    let n = current * 200 + total;
    let d = total * 2;
    assert(0 < d);
    vstd::arithmetic::div_mod::lemma_fundamental_div_mod(n as int, d as int);
    vstd::arithmetic::div_mod::lemma_mod_bound(n as int, d as int);
    assert(n == d * (n / d) + n % d);
    assert(percentage(current, total) == n / d);
    assert((n / d) * (2 * total) == d * (n / d)) by (nonlinear_arith)
        requires
            d == total * 2,
    ;
    assert(((n / d) + 1) * (2 * total) == d * (n / d) + d) by (nonlinear_arith)
        requires
            d == total * 2,
    ;
}

/// More bytes never give a lower percentage or fewer filled cells.
pub proof fn lemma_percentage_monotonic(earlier: nat, later: nat, total: nat)
    requires
        0 < total,
        earlier <= later,
    ensures
        percentage(earlier, total) <= percentage(later, total),
        filled_cells(earlier, total) <= filled_cells(later, total),
{
    vstd::arithmetic::div_mod::lemma_div_is_ordered(
        (earlier * 200 + total) as int,
        (later * 200 + total) as int,
        (total * 2) as int,
    );
    vstd::arithmetic::div_mod::lemma_div_is_ordered(
        percentage(earlier, total) as int,
        percentage(later, total) as int,
        5,
    );
}

/// The drawn bar always has the same shape: a bracket, twenty cells, a
/// bracket, the digits and the percent sign.
pub proof fn lemma_bar_shape(current: nat, total: nat)
    requires
        0 < total,
    ensures
        bar_text(current, total).len() == 23 + decimal(percentage(current, total)).len(),
        bar_text(current, total)[0] == '[',
        bar_text(current, total)[21] == ']',
        bar_text(current, total).last() == '%',
        forall|i: int|
            1 <= i <= 20 ==> #[trigger] bar_text(current, total)[i] == (if i <= filled_cells(
                current,
                total,
            ) {
                '='
            } else {
                '-'
            }),
{
}

} // verus!
