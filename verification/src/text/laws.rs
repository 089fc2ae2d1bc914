//! What the text helpers promise.

use vstd::prelude::*;

use crate::text;

verus! {

/// Trimming keeps a run of the text: what it takes from either end is white space,
/// and what is left neither begins nor ends with any.
pub proof fn trimming_takes_the_ends(s: Seq<char>)
    ensures
        exists|from: int, to: int|
            {
                &&& 0 <= from <= to <= s.len()
                &&& text::trimmed(s) == #[trigger] s.subrange(from, to)
                &&& forall|i: int| 0 <= i < from ==> text::is_white(#[trigger] s[i])
                &&& forall|i: int| to <= i < s.len() ==> text::is_white(#[trigger] s[i])
                &&& from < to ==> !text::is_white(s[from]) && !text::is_white(s[to - 1])
            },
{
    let from = start_of(s);
    let rest = s.subrange(from, s.len() as int);
    let n = end_of(rest);
    let to = from + n;
    assert(rest.subrange(0, n) =~= s.subrange(from, to));
    assert forall|i: int| to <= i < s.len() implies text::is_white(#[trigger] s[i]) by {
        assert(rest[i - from] == s[i]);
    }
    if from < to {
        assert(rest[n - 1] == s[to - 1]);
    }
}

proof fn start_of(s: Seq<char>) -> (from: int)
    ensures
        0 <= from <= s.len(),
        text::trim_start(s) == s.subrange(from, s.len() as int),
        forall|i: int| 0 <= i < from ==> text::is_white(#[trigger] s[i]),
        from < s.len() ==> !text::is_white(s[from]),
    decreases s.len(),
{
    if s.len() > 0 && text::is_white(s[0]) {
        let rest = s.drop_first();
        let k = start_of(rest);
        assert(rest.subrange(k, rest.len() as int) =~= s.subrange(k + 1, s.len() as int));
        assert forall|i: int| 0 <= i < k + 1 implies text::is_white(#[trigger] s[i]) by {
            if i > 0 {
                assert(rest[i - 1] == s[i]);
            }
        }
        k + 1
    } else {
        assert(s.subrange(0, s.len() as int) =~= s);
        0
    }
}

proof fn end_of(s: Seq<char>) -> (to: int)
    ensures
        0 <= to <= s.len(),
        text::trim_end(s) == s.subrange(0, to),
        forall|i: int| to <= i < s.len() ==> text::is_white(#[trigger] s[i]),
        to > 0 ==> !text::is_white(s[to - 1]),
    decreases s.len(),
{
    if s.len() > 0 && text::is_white(s.last()) {
        let rest = s.drop_last();
        let k = end_of(rest);
        assert(rest.subrange(0, k) =~= s.subrange(0, k));
        assert forall|i: int| k <= i < s.len() implies text::is_white(#[trigger] s[i]) by {
            if i < rest.len() {
                assert(rest[i] == s[i]);
            }
        }
        k
    } else {
        assert(s.subrange(0, s.len() as int) =~= s);
        s.len() as int
    }
}

/// Up to a place two texts agree, and there the first has ended and the second has
/// not, or has the smaller character.
pub open spec fn parts_at(a: Seq<char>, b: Seq<char>, k: int) -> bool {
    &&& 0 <= k <= a.len()
    &&& k < b.len()
    &&& forall|i: int| 0 <= i < k ==> a[i] == b[i]
    &&& k == a.len() || a[k] < b[k]
}

/// The order of texts is that of a dictionary: one comes first where it ends, or has
/// the smaller character, at the place where the two part.
pub proof fn texts_are_ordered_like_words(a: Seq<char>, b: Seq<char>)
    ensures
        text::precedes(a, b) <==> exists|k: int| #[trigger] parts_at(a, b, k),
    decreases a.len(),
{
    if a.len() == 0 || b.len() == 0 || a[0] != b[0] {
        if text::precedes(a, b) {
            assert(parts_at(a, b, 0));
        }
        if exists|k: int| #[trigger] parts_at(a, b, k) {
            let k = choose|k: int| #[trigger] parts_at(a, b, k);
            if k > 0 {
                assert(a[0] == b[0]);
            }
        }
    } else {
        let x = a.drop_first();
        let y = b.drop_first();
        texts_are_ordered_like_words(x, y);
        if text::precedes(a, b) {
            let k = choose|k: int| #[trigger] parts_at(x, y, k);
            assert forall|i: int| 0 <= i < k + 1 implies a[i] == b[i] by {
                if i > 0 {
                    assert(x[i - 1] == y[i - 1]);
                }
            }
            assert(parts_at(a, b, k + 1));
        }
        if exists|k: int| #[trigger] parts_at(a, b, k) {
            let k = choose|k: int| #[trigger] parts_at(a, b, k);
            if k > 0 {
                assert forall|i: int| 0 <= i < k - 1 implies x[i] == y[i] by {
                    assert(a[i + 1] == b[i + 1]);
                }
                assert(parts_at(x, y, k - 1));
            }
        }
    }
}

/// The number that a run of decimal digits spells.
pub open spec fn spelled(digits: Seq<char>) -> int
    decreases digits.len(),
{
    if digits.len() == 0 {
        0
    } else {
        10 * spelled(digits.drop_last()) + (digits.last() as int - '0' as int)
    }
}

/// A number in decimal spells that number, in digits, the first of which is zero
/// only for zero itself.
pub proof fn decimals_spell_their_number(n: nat)
    ensures
        spelled(text::decimal(n)) == n,
        text::decimal(n).len() >= 1,
        forall|i: int|
            0 <= i < text::decimal(n).len() ==> '0' <= #[trigger] text::decimal(n)[i] <= '9',
        n > 0 ==> text::decimal(n)[0] != '0',
    decreases n,
{
    let all = text::decimal(n);
    if n < 10 {
        assert(all.drop_last() =~= seq![]);
        assert(spelled(all.drop_last()) == 0);
        assert(all.last() as int == 48 + n);
    } else {
        decimals_spell_their_number(n / 10);
        assert(all.drop_last() =~= text::decimal(n / 10));
        assert(all.last() as int == 48 + n % 10);
        assert forall|i: int| 0 <= i < all.len() implies '0' <= #[trigger] all[i] <= '9' by {
            if i < all.len() - 1 {
                assert(all[i] == text::decimal(n / 10)[i]);
            }
        }
        assert(all[0] == text::decimal(n / 10)[0]);
    }
}

/// In ASCII, the small letters have capitals and everything else stays as it is.
pub proof fn ascii_capitals(c: char)
    requires
        (c as u32) < 128,
    ensures
        text::upper(c).len() == 1,
        'a' <= c <= 'z' ==> text::upper(c)[0] as int == c as int - 32,
        !('a' <= c <= 'z') ==> text::upper(c)[0] == c,
{
}

/// A digit's character is as far from zero's as the digit is from zero.
pub proof fn digits_count_from_zero(d: int)
    requires
        0 <= d <= 9,
    ensures
        text::digit_char(d) as int - '0' as int == d,
{
}

} // verus!
