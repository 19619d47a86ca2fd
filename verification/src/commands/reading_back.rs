use crate::commands::notation::{bracketed, nth_last_index};
use crate::commands::object_input::{fresh, scan_groups, GroupScan, GroupState};
use crate::text::{canonical, decimal_value, is_digit};
use vstd::prelude::*;

verus! {

/// Where the group begins that index `j` stands in or ends: behind the last
/// blank before `j`.
pub open spec fn group_start(d: Seq<char>, j: int) -> int
    decreases j,
{
    if j <= 0 {
        0
    } else if d[j - 1] == ' ' {
        j
    } else {
        group_start(d, j - 1)
    }
}

/// The group that index `j` ends.
pub open spec fn group_at(d: Seq<char>, j: int) -> Seq<char> {
    d.subrange(group_start(d, j), j)
}

/// How many blanks stand from index `from` up to index `to`.
pub open spec fn blanks(d: Seq<char>, from: int, to: int) -> nat
    decreases to - from,
{
    if to <= from {
        0
    } else if d[to - 1] == ' ' {
        blanks(d, from, to - 1) + 1
    } else {
        blanks(d, from, to - 1)
    }
}

/// The text is digits of `base` as the service writes them: groups of
/// decimal digits, each followed by a blank, none empty or with a zero too
/// many in front, and each below the base.
pub open spec fn well_grouped(d: Seq<char>, base: Seq<char>) -> bool {
    &&& d.len() > 0
    &&& d.last() == ' '
    &&& forall|j: int|
        0 <= j < d.len() ==> if #[trigger] d[j] == ' ' {
            &&& group_at(d, j).len() > 0
            &&& canonical(group_at(d, j)) == group_at(d, j)
            &&& decimal_value(group_at(d, j)) < decimal_value(base)
        } else {
            is_digit(d[j])
        }
}

/// The digits as they stand between the brackets: with the closing bracket
/// in place of the last blank and the separator in place of the blank at
/// index `k`.
spec fn marked(d: Seq<char>, k: int) -> Seq<char> {
    Seq::new(
        d.len(),
        |i: int|
            if i == d.len() - 1 {
                ')'
            } else if i == k {
                '.'
            } else {
                d[i]
            },
    )
}

/// How far the digits are read at index `i`.
spec fn state_at(d: Seq<char>, k: int, negative: bool, i: int) -> GroupState {
    GroupState {
        digits: d.take(group_start(d, i)),
        current: d.subrange(group_start(d, i), i),
        negative,
        point: k >= 0 && i > k,
        behind: if k >= 0 && i > k {
            1 + blanks(d, k + 1, i)
        } else {
            0
        },
    }
}

/// What reading the digits gives in the end.
spec fn read_back(d: Seq<char>, k: int, negative: bool) -> GroupScan {
    GroupScan::Value {
        rest: Seq::empty(),
        negative,
        digits: d,
        fraction: if k >= 0 {
            blanks(d, k + 1, d.len() as int)
        } else {
            0
        },
        exponent: Seq::empty(),
    }
}

proof fn lemma_group_start(d: Seq<char>, j: int)
    requires
        0 <= j <= d.len(),
    ensures
        0 <= group_start(d, j) <= j,
    decreases j,
{
    if j > 0 && d[j - 1] != ' ' {
        lemma_group_start(d, j - 1);
    }
}

/// Reading goes from any index to the end as it should.
proof fn lemma_read_from(d: Seq<char>, base: Seq<char>, k: int, negative: bool, i: int)
    requires
        well_grouped(d, base),
        0 <= i < d.len(),
        k == -1 || (0 <= k < d.len() - 1 && d[k] == ' '),
    ensures
        scan_groups(marked(d, k).skip(i).reverse(), base, state_at(d, k, negative, i)) == read_back(
            d,
            k,
            negative,
        ),
    decreases d.len() - i,
{
    let text = marked(d, k);
    let frame = text.skip(i).reverse();
    let st = state_at(d, k, negative, i);
    lemma_group_start(d, i);
    lemma_group_start(d, i + 1);
    assert(frame.len() == d.len() - i);
    assert(frame.last() == text[i]);
    assert(frame.drop_last() =~= text.skip(i + 1).reverse());
    let rest = frame.drop_last();
    assert(d[i] == ' ' || is_digit(d[i]));
    if d[i] != ' ' {
        assert(i != d.len() - 1 && i != k);
        assert(text[i] == d[i]);
        let next = GroupState { current: st.current.push(d[i]), ..st };
        assert(group_start(d, i + 1) == group_start(d, i));
        assert(d.subrange(group_start(d, i), i).push(d[i]) =~= d.subrange(
            group_start(d, i),
            i + 1,
        ));
        assert(next == state_at(d, k, negative, i + 1));
        lemma_read_from(d, base, k, negative, i + 1);
    } else {
        assert(st.current == group_at(d, i));
        assert(canonical(st.current) == st.current);
        assert(decimal_value(st.current) < decimal_value(base));
        assert(group_start(d, i + 1) == i + 1);
        assert(d.take(group_start(d, i)) + st.current + seq![' '] =~= d.take(i + 1));
        assert(d.subrange(i + 1, i + 1) =~= Seq::<char>::empty());
        if i == d.len() - 1 {
            assert(text[i] == ')');
            assert(rest =~= Seq::<char>::empty());
            assert(d.take(i + 1) =~= d);
        } else if i == k {
            assert(text[i] == '.');
            assert(blanks(d, k + 1, k + 1) == 0);
            lemma_read_from(d, base, k, negative, i + 1);
        } else {
            assert(text[i] == ' ');
            lemma_read_from(d, base, k, negative, i + 1);
        }
    }
}

/// The blank that is `n` blanks from the end is there where there are
/// more than `n` blanks, and `n` blanks stand behind it.
proof fn lemma_nth_last_blank(d: Seq<char>, n: nat)
    requires
        n < blanks(d, 0, d.len() as int),
    ensures
        0 <= nth_last_index(d, ' ', n) < d.len(),
        d[nth_last_index(d, ' ', n)] == ' ',
        blanks(d, nth_last_index(d, ' ', n) + 1, d.len() as int) == n,
    decreases d.len(),
{
    let front = d.drop_last();
    assert(d.len() > 0);
    lemma_blanks_of_front(d, 0, d.len() - 1);
    if d.last() == ' ' && n == 0 {
    } else {
        let m: nat = if d.last() == ' ' {
            (n - 1) as nat
        } else {
            n
        };
        lemma_nth_last_blank(front, m);
        let k = nth_last_index(front, ' ', m);
        assert(d[k] == front[k]);
        lemma_blanks_of_front(d, k + 1, d.len() - 1);
    }
}

/// The blanks in a range are the same whether or not the last character
/// is there, as long as the range ends before it.
proof fn lemma_blanks_of_front(d: Seq<char>, from: int, to: int)
    requires
        d.len() > 0,
        0 <= from,
        to <= d.len() - 1,
    ensures
        blanks(d.drop_last(), from, to) == blanks(d, from, to),
    decreases to - from,
{
    if to > from {
        lemma_blanks_of_front(d, from, to - 1);
        assert(d.drop_last()[to - 1] == d[to - 1]);
    }
}

/// What is written in brackets for a base above 36 is read back as it was
/// written: the same sign, the same digits, and as many of them behind the
/// separator. This holds of digits as the service writes them, of which
/// fewer stand behind the separator than there are.
pub proof fn brackets_are_read_back(negative: bool, d: Seq<char>, scale: nat, base: Seq<char>)
    requires
        well_grouped(d, base),
        scale < blanks(d, 0, d.len() as int),
    ensures
        bracketed(negative, d, scale).len() > 0,
        bracketed(negative, d, scale)[0] == '(',
        scan_groups(bracketed(negative, d, scale).skip(1).reverse(), base, fresh())
            == (GroupScan::Value {
            rest: Seq::empty(),
            negative,
            digits: d,
            fraction: scale,
            exponent: Seq::empty(),
        }),
{
    reveal_strlit("(-");
    reveal_strlit("(");
    lemma_nth_last_blank(d, scale);
    let found = nth_last_index(d, ' ', scale);
    let k = if scale == 0 {
        -1
    } else {
        found
    };
    if scale > 0 {
        assert(found < d.len() - 1) by {
            if found == d.len() - 1 {
                assert(blanks(d, found + 1, d.len() as int) == 0);
            }
        }
    }
    let text = marked(d, k);
    let written = bracketed(negative, d, scale);
    let sign: Seq<char> = if negative {
        seq!['-']
    } else {
        Seq::empty()
    };
    assert(written.skip(1) =~= sign + text);
    lemma_read_from(d, base, k, negative, 0);
    assert(text.skip(0) =~= text);
    assert(state_at(d, k, negative, 0) == GroupState { negative, ..fresh() }) by {
        assert(d.take(0) =~= Seq::<char>::empty());
        assert(d.subrange(0, 0) =~= Seq::<char>::empty());
    }
    if negative {
        let frame = (sign + text).reverse();
        assert(frame.last() == '-');
        assert(frame.drop_last() =~= text.reverse());
    } else {
        assert(sign + text =~= text);
    }
}

} // verus!
