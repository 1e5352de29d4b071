//! Final bucket counts become proportional text bars.
//!
//! Each bucket yields one line: the threshold as a decimal numeral, a colon
//! and a space, then a bar of asterisks whose length is the bucket's share
//! of a fixed width of 20, scaled against the largest count and rounded
//! down. When every count is zero, every bar is empty.

use vstd::prelude::*;
use vstd::arithmetic::div_mod::{lemma_div_is_ordered, lemma_div_by_multiple};

verus! {

/// The decimal digit `d` as a character.
pub open spec fn digit_char(d: nat) -> char {
    if d == 0 {
        '0'
    } else if d == 1 {
        '1'
    } else if d == 2 {
        '2'
    } else if d == 3 {
        '3'
    } else if d == 4 {
        '4'
    } else if d == 5 {
        '5'
    } else if d == 6 {
        '6'
    } else if d == 7 {
        '7'
    } else if d == 8 {
        '8'
    } else {
        '9'
    }
}

/// The decimal numeral of `n`, most significant digit first.
pub open spec fn dec_rep(n: nat) -> Seq<char>
    decreases n,
{
    if n < 10 {
        seq![digit_char(n)]
    } else {
        dec_rep(n / 10).push(digit_char(n % 10))
    }
}

/// The largest entry of `s`, and zero when `s` is empty.
pub open spec fn seq_max(s: Seq<u64>) -> int
    decreases s.len(),
{
    if s.len() == 0 {
        0
    } else if s[s.len() - 1] > seq_max(s.drop_last()) {
        s[s.len() - 1] as int
    } else {
        seq_max(s.drop_last())
    }
}

/// Every entry is at most the maximum.
pub proof fn lemma_seq_max_bound(s: Seq<u64>, k: int)
    requires
        0 <= k < s.len(),
    ensures
        s[k] <= seq_max(s),
    decreases s.len(),
{
    if k < s.len() - 1 {
        lemma_seq_max_bound(s.drop_last(), k);
    }
}

/// The length of one proportional bar: the bucket's share of the fixed
/// width of 20, scaled against the largest count `max` and rounded down.
/// A run whose every count is zero has no largest count to scale against
/// and renders every bar empty.
pub open spec fn bar_len(count: u64, max: int) -> int {
    if max <= 0 {
        0
    } else {
        20 * count / max
    }
}

/// One rendered line: the threshold as a decimal numeral, a colon and a
/// space, then `bar_len` asterisks.
pub open spec fn spec_render_line(threshold: u64, count: u64, max: int) -> Seq<char> {
    dec_rep(threshold as nat) + ": "@ + Seq::new(bar_len(count, max) as nat, |i: int| '*')
}

/// The decimal digit `d` as a one-character text.
fn digit_str(d: u64) -> (r: &'static str)
    requires
        d < 10,
    ensures
        r@ == seq![digit_char(d as nat)],
{
    proof {
        reveal_strlit("0");
        reveal_strlit("1");
        reveal_strlit("2");
        reveal_strlit("3");
        reveal_strlit("4");
        reveal_strlit("5");
        reveal_strlit("6");
        reveal_strlit("7");
        reveal_strlit("8");
        reveal_strlit("9");
    }
    let r = if d == 0 {
        "0"
    } else if d == 1 {
        "1"
    } else if d == 2 {
        "2"
    } else if d == 3 {
        "3"
    } else if d == 4 {
        "4"
    } else if d == 5 {
        "5"
    } else if d == 6 {
        "6"
    } else if d == 7 {
        "7"
    } else if d == 8 {
        "8"
    } else {
        "9"
    };
    proof {
        assert(r@ =~= seq![digit_char(d as nat)]);
    }
    r
}

/// The decimal numeral of `n`.
pub fn u64_to_string(n: u64) -> (s: String)
    ensures
        s@ == dec_rep(n as nat),
    decreases n,
{
    if n < 10 {
        let s = digit_str(n).to_owned();
        proof {
            assert(s@ =~= dec_rep(n as nat));
        }
        s
    } else {
        let mut s = u64_to_string(n / 10);
        s.append(digit_str(n % 10));
        proof {
            assert(s@ =~= dec_rep(n as nat));
        }
        s
    }
}

/// Renders the histogram: one line per bucket, in threshold order, each
/// holding the threshold's decimal numeral, a colon and a space, and a bar
/// of asterisks of the bucket's proportional length.
pub fn print_histo(histo: &Vec<u64>, thresholds: &Vec<u64>) -> (r: Vec<String>)
    requires
        histo@.len() >= thresholds@.len(),
        histo@.len() > 0,
    ensures
        r@.len() == thresholds@.len(),
        forall|i: int|
            0 <= i < thresholds@.len() ==> r@[i]@ == spec_render_line(
                thresholds@[i],
                histo@[i],
                seq_max(histo@),
            ),
{
    let mut max: u64 = 0;
    let mut j: usize = 0;
    while j < histo.len()
        invariant
            0 <= j <= histo@.len(),
            max == seq_max(histo@.take(j as int)),
        decreases histo@.len() - j,
    {
        proof {
            assert(histo@.take(j + 1).drop_last() =~= histo@.take(j as int));
            assert(histo@.take(j + 1).last() == histo@[j as int]);
        }
        if histo[j] > max {
            max = histo[j];
        }
        j = j + 1;
    }
    proof {
        assert(histo@.take(histo@.len() as int) =~= histo@);
    }

    let mut out: Vec<String> = Vec::new();
    let mut i: usize = 0;
    while i < thresholds.len()
        invariant
            0 <= i <= thresholds@.len(),
            histo@.len() >= thresholds@.len(),
            max == seq_max(histo@),
            out@.len() == i,
            forall|k: int|
                0 <= k < i ==> out@[k]@ == spec_render_line(
                    thresholds@[k],
                    histo@[k],
                    seq_max(histo@),
                ),
        decreases thresholds@.len() - i,
    {
        let count = histo[i];
        let bl: u64 = if max == 0 {
            0
        } else {
            proof {
                lemma_seq_max_bound(histo@, i as int);
                lemma_div_is_ordered(
                    20 * (count as int),
                    20 * (max as int),
                    max as int,
                );
                lemma_div_by_multiple(20, max as int);
            }
            ((20u128 * (count as u128)) / (max as u128)) as u64
        };
        proof {
            assert(bl as int == bar_len(count, seq_max(histo@)));
        }
        let mut bar = String::new();
        let mut b: u64 = 0;
        while b < bl
            invariant
                0 <= b <= bl,
                bar@ =~= Seq::new(b as nat, |k: int| '*'),
            decreases bl - b,
        {
            bar.append("*");
            proof {
                reveal_strlit("*");
                assert(bar@ =~= Seq::new((b + 1) as nat, |k: int| '*'));
            }
            b = b + 1;
        }
        let mut line = u64_to_string(thresholds[i]);
        line.append(": ");
        line.append(bar.as_str());
        proof {
            assert(line@ =~= spec_render_line(thresholds@[i as int], count, seq_max(histo@)));
        }
        out.push(line);
        i = i + 1;
    }
    out
}

} // verus!
