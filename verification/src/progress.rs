//! The progress bar of the active phase.
//!
//! The bar is 40 cells wide. Given how many seconds of the phase have elapsed
//! and how many seconds it lasts, the filled-cell count is the clamped
//! fraction `elapsed / total` scaled to the width and rounded down; the
//! rendered line shows the bar between brackets and the elapsed and total
//! time in whole minutes.

use vstd::arithmetic::div_mod::{lemma_div_is_ordered, lemma_multiply_divide_lt};
use vstd::prelude::*;

verus! {

pub const BAR_WIDTH: usize = 40;

/// Filled cells of the bar: the clamped fraction `elapsed / total`, scaled to
/// the bar's width and rounded down. A phase that has fully elapsed — a
/// zero-length one immediately — shows the full bar.
pub open spec fn spec_filled_cells(elapsed: nat, total: nat) -> nat {
    if elapsed >= total {
        BAR_WIDTH as nat
    } else {
        elapsed * (BAR_WIDTH as nat) / total
    }
}

/// How many of the bar's cells are filled after `elapsed_secs` of a phase of
/// `total_secs`.
pub fn filled_cells(elapsed_secs: u64, total_secs: u64) -> (n: usize)
    ensures
        n == spec_filled_cells(elapsed_secs as nat, total_secs as nat),
        n <= BAR_WIDTH,
{
    if elapsed_secs >= total_secs {
        BAR_WIDTH
    } else {
        let scaled: u128 = elapsed_secs as u128 * 40;
        let cells: u128 = scaled / total_secs as u128;
        proof {
            lemma_multiply_divide_lt(
                elapsed_secs as int * BAR_WIDTH as int,
                total_secs as int,
                BAR_WIDTH as int,
            );
        }
        cells as usize
    }
}

/// Within one phase the bar never moves backwards: more elapsed time never
/// shows fewer filled cells.
pub proof fn lemma_progress_monotone(e1: nat, e2: nat, total: nat)
    requires
        e1 <= e2,
    ensures
        spec_filled_cells(e1, total) <= spec_filled_cells(e2, total),
{
    if e1 < total && e2 < total {
        lemma_div_is_ordered(
            e1 as int * BAR_WIDTH as int,
            e2 as int * BAR_WIDTH as int,
            total as int,
        );
    } else if e1 < total {
        lemma_multiply_divide_lt(e1 as int * BAR_WIDTH as int, total as int, BAR_WIDTH as int);
    }
}

/// Once the phase's duration has elapsed the bar is full, and it is never
/// more than full.
pub proof fn lemma_progress_complete(elapsed: nat, total: nat)
    ensures
        elapsed >= total ==> spec_filled_cells(elapsed, total) == BAR_WIDTH,
        spec_filled_cells(elapsed, total) <= BAR_WIDTH,
{
    if elapsed < total {
        lemma_multiply_divide_lt(
            elapsed as int * BAR_WIDTH as int,
            total as int,
            BAR_WIDTH as int,
        );
    }
}

/// The decimal digits of a number, most significant first.
pub open spec fn dec_digits(v: nat) -> Seq<char>
    decreases v,
{
    if v < 10 {
        seq![digit_char(v)]
    } else {
        dec_digits(v / 10) + seq![digit_char(v % 10)]
    }
}

/// The character of one decimal digit.
pub open spec fn digit_char(d: nat) -> char
    recommends
        d < 10,
{
    if d == 0 {
        '0'
    } else if d == 1 {
        '1'
    } else if d == 2 {
        '2'
    } else if d == 3 {
        '3'
    } else if d == 4 {
        '4'
    } else if d == 5 {
        '5'
    } else if d == 6 {
        '6'
    } else if d == 7 {
        '7'
    } else if d == 8 {
        '8'
    } else {
        '9'
    }
}

fn digit_str(d: u64) -> (r: &'static str)
    requires
        d < 10,
    ensures
        r@ =~= seq![digit_char(d as nat)],
{
    proof {
        reveal_strlit("0");
        reveal_strlit("1");
        reveal_strlit("2");
        reveal_strlit("3");
        reveal_strlit("4");
        reveal_strlit("5");
        reveal_strlit("6");
        reveal_strlit("7");
        reveal_strlit("8");
        reveal_strlit("9");
    }
    if d == 0 {
        "0"
    } else if d == 1 {
        "1"
    } else if d == 2 {
        "2"
    } else if d == 3 {
        "3"
    } else if d == 4 {
        "4"
    } else if d == 5 {
        "5"
    } else if d == 6 {
        "6"
    } else if d == 7 {
        "7"
    } else if d == 8 {
        "8"
    } else {
        "9"
    }
}

/// Render a number in decimal.
pub fn dec_string(v: u64) -> (r: String)
    ensures
        r@ =~= dec_digits(v as nat),
    decreases v,
{
    if v < 10 {
        digit_str(v).to_owned()
    } else {
        let mut r = dec_string(v / 10);
        r.append(digit_str(v % 10));
        r
    }
}

pub open spec fn repeat_char(c: char, n: nat) -> Seq<char> {
    Seq::new(n, |i| c)
}

/// The full rendered line of the bar: the filled and empty cells between
/// brackets, then elapsed and total time in whole (truncated) minutes.
pub open spec fn spec_bar_line(elapsed: nat, total: nat) -> Seq<char> {
    let filled = spec_filled_cells(elapsed, total);
    seq!['['] + repeat_char('=', filled) + repeat_char(' ', (BAR_WIDTH as nat - filled) as nat)
        + seq![']', ' ', ' ', ' '] + dec_digits(elapsed / 60) + seq![
        ' ',
        'm',
        'i',
        'n',
        's',
        ' ',
        '/',
        ' ',
    ] + dec_digits(total / 60) + seq![' ', 'm', 'i', 'n', 's']
}

/// Render the progress line for `elapsed_secs` of a phase of `total_secs`.
pub fn render_bar_line(elapsed_secs: u64, total_secs: u64) -> (line: String)
    ensures
        line@ =~= spec_bar_line(elapsed_secs as nat, total_secs as nat),
{
    let filled = filled_cells(elapsed_secs, total_secs);
    let mut line = String::new();
    proof {
        reveal_strlit("[");
        reveal_strlit("=");
        reveal_strlit(" ");
        reveal_strlit("]   ");
        reveal_strlit(" mins / ");
        reveal_strlit(" mins");
    }
    line.append("[");
    let mut k: usize = 0;
    while k < filled
        invariant
            k <= filled,
            line@ =~= seq!['['] + repeat_char('=', k as nat),
        decreases filled - k,
    {
        line.append("=");
        k += 1;
        proof {
            reveal_strlit("=");
            assert(line@ =~= seq!['['] + repeat_char('=', k as nat));
        }
    }
    let ghost bar_head = seq!['['] + repeat_char('=', filled as nat);
    let mut k: usize = filled;
    while k < BAR_WIDTH
        invariant
            filled <= k <= BAR_WIDTH,
            bar_head == seq!['['] + repeat_char('=', filled as nat),
            line@ =~= bar_head + repeat_char(' ', (k - filled) as nat),
        decreases BAR_WIDTH - k,
    {
        line.append(" ");
        k += 1;
        proof {
            reveal_strlit(" ");
            assert(line@ =~= bar_head + repeat_char(' ', (k - filled) as nat));
        }
    }
    line.append("]   ");
    let elapsed_mins = dec_string(elapsed_secs / 60);
    line.append(elapsed_mins.as_str());
    line.append(" mins / ");
    let total_mins = dec_string(total_secs / 60);
    line.append(total_mins.as_str());
    line.append(" mins");
    proof {
        reveal_strlit("]   ");
        reveal_strlit(" mins / ");
        reveal_strlit(" mins");
        assert(line@ =~= spec_bar_line(elapsed_secs as nat, total_secs as nat));
    }
    line
}

} // verus!
