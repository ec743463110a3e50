//! The log position cursor, rendered as `"<height>-<seq>"`. The reader
//! resumes from a cursor built out of a block height, and learns the height
//! of the log's first entry by parsing the part of a cursor before the dash.

use vstd::prelude::*;

use crate::digits::{
    all_digits, dec_seq, dec_value, digit_char, digit_val, is_digit, is_u64_numeral, parse_u64,
    u64_to_dec,
};
use crate::strings::split_first;

verus! {

/// Whether `i` is the position of the first dash in `s`.
pub open spec fn is_first_dash(s: Seq<char>, i: int) -> bool {
    &&& 0 <= i < s.len()
    &&& s[i] == '-'
    &&& forall|j: int| 0 <= j < i ==> s[j] != '-'
}

/// Renders the cursor that addresses the first entry of block `height`:
/// the decimal height, a dash, and the sub-sequence index zero.
pub fn format_cursor(height: u64) -> (r: String)
    ensures
        r@ == dec_seq(height as nat).push('-').push('0'),
{
    let mut s = u64_to_dec(height);
    proof {
        reveal_strlit("-0");
    }
    s.append("-0");
    proof {
        assert(s@ =~= dec_seq(height as nat).push('-').push('0'));
    }
    s
}

/// Parses the block height out of a cursor string: the decimal numeral
/// before the first dash. `None` when there is no dash or the part before it
/// is not a `u64` numeral.
pub fn parse_cursor_height(s: &str) -> (r: Option<u64>)
    ensures
        match r {
            Some(h) => exists|i: int|
                {
                    &&& #[trigger] is_first_dash(s@, i)
                    &&& is_u64_numeral(s@.subrange(0, i))
                    &&& h == dec_value(s@.subrange(0, i))
                },
            None => forall|i: int|
                #[trigger] is_first_dash(s@, i) ==> !is_u64_numeral(s@.subrange(0, i)),
        },
{
    match split_first(s, '-') {
        Some(parts) => {
            let ghost i: int = choose|i: int|
                {
                    &&& 0 <= i < s@.len()
                    &&& s@[i] == '-'
                    &&& (forall|j: int| 0 <= j < i ==> s@[j] != '-')
                    &&& parts.0@ == s@.subrange(0, i)
                    &&& parts.1@ == s@.subrange(i + 1, s@.len() as int)
                };
            let r = parse_u64(parts.0.as_str());
            proof {
                assert(is_first_dash(s@, i));
                if r is None {
                    assert forall|k: int| #[trigger] is_first_dash(s@, k) implies !is_u64_numeral(
                        s@.subrange(0, k),
                    ) by {
                        if k < i {
                            assert(s@[k] == '-');
                            assert(false);
                        } else if k > i {
                            assert(s@[i] == '-');
                            assert(false);
                        }
                    }
                }
            }
            r
        },
        None => {
            proof {
                assert forall|k: int| #[trigger] is_first_dash(s@, k) implies !is_u64_numeral(
                    s@.subrange(0, k),
                ) by {
                    assert(0 <= k < s@.len() && s@[k] == '-');
                    assert(crate::strings::contains_char(s@, '-'));
                    assert(false);
                }
            }
            None
        },
    }
}

/// Every character of a canonical decimal numeral is a digit.
proof fn lemma_dec_seq_digits(n: nat)
    ensures
        all_digits(dec_seq(n)),
        dec_seq(n).len() > 0,
    decreases n,
{
    if n >= 10 {
        lemma_dec_seq_digits(n / 10);
    }
}

/// The canonical decimal numeral of `n` evaluates back to `n`.
proof fn lemma_dec_seq_value(n: nat)
    ensures
        dec_value(dec_seq(n)) == n,
    decreases n,
{
    if n < 10 {
        assert(dec_seq(n).drop_last() =~= Seq::<char>::empty());
        assert(dec_seq(n).last() == digit_char(n));
        assert(digit_val(digit_char(n)) == n);
        assert(dec_value(Seq::<char>::empty()) == 0);
        assert(dec_value(dec_seq(n)) == dec_value(Seq::<char>::empty()) * 10 + digit_val(
            digit_char(n),
        ));
    } else {
        lemma_dec_seq_value(n / 10);
        assert(dec_seq(n).drop_last() =~= dec_seq(n / 10));
        assert(dec_seq(n).last() == digit_char(n % 10));
        assert(digit_val(digit_char(n % 10)) == n % 10);
        assert(dec_value(dec_seq(n)) == dec_value(dec_seq(n / 10)) * 10 + digit_val(
            digit_char(n % 10),
        ));
        vstd::arithmetic::div_mod::lemma_fundamental_div_mod(n as int, 10);
        assert(n == 10 * (n / 10) + n % 10);
        assert(dec_value(dec_seq(n)) == (n / 10) * 10 + n % 10);
    }
}

/// Round trip: parsing the height back out of a freshly rendered cursor
/// yields the height the cursor was rendered from.
pub proof fn lemma_cursor_round_trip(height: u64, rendered: Seq<char>)
    requires
        rendered == dec_seq(height as nat).push('-').push('0'),
    ensures
        is_first_dash(rendered, dec_seq(height as nat).len() as int),
        is_u64_numeral(rendered.subrange(0, dec_seq(height as nat).len() as int)),
        dec_value(rendered.subrange(0, dec_seq(height as nat).len() as int)) == height,
{
    let d = dec_seq(height as nat);
    lemma_dec_seq_digits(height as nat);
    lemma_dec_seq_value(height as nat);
    assert(rendered.subrange(0, d.len() as int) =~= d);
    assert(forall|j: int| 0 <= j < d.len() ==> is_digit(#[trigger] d[j]));
    assert(forall|j: int| 0 <= j < d.len() ==> rendered[j] == d[j]);
    assert(forall|j: int| 0 <= j < d.len() ==> rendered[j] != '-') by {
        assert(forall|j: int| 0 <= j < d.len() ==> is_digit(#[trigger] rendered[j]));
        assert('-' as u32 == 45);
    }
}

} // verus!
