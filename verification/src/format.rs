//! The canonical formatter: sort coarsest-first, render, join with spaces.
//!
//! Formatting sorts a copy of the component list in descending display
//! order — coarsest scale first, ties broken by descending magnitude —
//! then renders each component in short (`1h`) or long (`1 hour`) form and
//! joins the renderings with single spaces.  The sort is canonical: any
//! two lists with the same components format identically.

use vstd::prelude::*;
use vstd::multiset::Multiset;
use vstd::relations::sorted_by;
use vstd::relations::total_ordering;
use vstd::seq_lib::lemma_multiset_commutative;
use vstd::seq_lib::lemma_sorted_unique;
use vstd::string::StringExecFns;
use crate::chars::dec_digits;
use crate::chars::digit_char;
use crate::scale::long_plural;
use crate::scale::long_singular;
use crate::scale::short_alias;
use crate::tuple::TimeTuple;
use crate::tuple::comes_after;
use crate::tuple::lemma_comes_after_total_ordering;

verus! {

/// The descending display order as a relation value, for sortedness
/// statements.
pub open spec fn desc_order() -> spec_fn(TimeTuple, TimeTuple) -> bool {
    |a: TimeTuple, b: TimeTuple| comes_after(a, b)
}

/// Inserts a component into a list already sorted in descending display
/// order, keeping it sorted.
pub open spec fn insert_desc(x: TimeTuple, s: Seq<TimeTuple>) -> Seq<TimeTuple>
    decreases s.len(),
{
    if s.len() == 0 {
        seq![x]
    } else if comes_after(x, s[0]) {
        seq![x] + s
    } else {
        seq![s[0]] + insert_desc(x, s.drop_first())
    }
}

/// The component list in descending display order: coarsest scale first,
/// ties broken by descending magnitude.
pub open spec fn sort_desc(s: Seq<TimeTuple>) -> Seq<TimeTuple>
    decreases s.len(),
{
    if s.len() == 0 {
        seq![]
    } else {
        insert_desc(s.last(), sort_desc(s.drop_last()))
    }
}

/// Insertion keeps the list sorted and adds exactly the new component.
proof fn lemma_insert_desc_ensures(x: TimeTuple, s: Seq<TimeTuple>)
    requires
        sorted_by(s, desc_order()),
    ensures
        sorted_by(insert_desc(x, s), desc_order()),
        insert_desc(x, s).to_multiset() == s.to_multiset().insert(x),
        insert_desc(x, s).len() == s.len() + 1,
    decreases s.len(),
{
    broadcast use vstd::seq_lib::group_to_multiset_ensures;

    lemma_comes_after_total_ordering();
    if s.len() == 0 {
        assert(seq![x] =~= Seq::<TimeTuple>::empty().push(x));
        assert(seq![x].to_multiset() == s.to_multiset().insert(x));
    } else if comes_after(x, s[0]) {
        assert forall|i: int, j: int| 0 <= i < j < (seq![x] + s).len() implies #[trigger] desc_order()(
            (seq![x] + s)[i],
            (seq![x] + s)[j],
        ) by {
            if i > 0 {
                assert(desc_order()((seq![x] + s)[i], (seq![x] + s)[j]));
            } else {
                if j > 1 {
                    assert(desc_order()(s[0], s[j - 1]));
                }
            }
        }
        lemma_multiset_commutative(seq![x], s);
        assert(seq![x].to_multiset() == Multiset::<TimeTuple>::empty().insert(x)) by {
            assert(seq![x] =~= Seq::<TimeTuple>::empty().push(x));
        }
        assert((seq![x] + s).to_multiset() =~= s.to_multiset().insert(x));
    } else {
        let rest = s.drop_first();
        assert(sorted_by(rest, desc_order())) by {
            assert forall|i: int, j: int| 0 <= i < j < rest.len() implies #[trigger] desc_order()(
                rest[i],
                rest[j],
            ) by {
                assert(desc_order()(s[i + 1], s[j + 1]));
            }
        }
        lemma_insert_desc_ensures(x, rest);
        let tail = insert_desc(x, rest);
        // The head is no later than everything in the inserted tail.
        assert forall|i: int, j: int| 0 <= i < j < (seq![s[0]] + tail).len() implies #[trigger] desc_order()(
            (seq![s[0]] + tail)[i],
            (seq![s[0]] + tail)[j],
        ) by {
            if i == 0 {
                let y = tail[j - 1];
                assert(tail.to_multiset().contains(y));
                if y == x {
                    // Totality turns the failed front test into the reverse order.
                    assert(comes_after(s[0], x));
                } else {
                    assert(rest.to_multiset().contains(y));
                    let m = choose|m: int| 0 <= m < rest.len() && rest[m] == y;
                    assert(desc_order()(s[0], s[m + 1]));
                }
            }
        }
        lemma_multiset_commutative(seq![s[0]], tail);
        lemma_multiset_commutative(seq![s[0]], rest);
        assert(seq![s[0]] + rest =~= s);
        assert((seq![s[0]] + tail).to_multiset() =~= s.to_multiset().insert(x));
    }
}

/// The canonical sort is sorted and a permutation of its input.
pub proof fn lemma_sort_desc_ensures(s: Seq<TimeTuple>)
    ensures
        sorted_by(sort_desc(s), desc_order()),
        sort_desc(s).to_multiset() == s.to_multiset(),
        sort_desc(s).len() == s.len(),
    decreases s.len(),
{
    broadcast use vstd::seq_lib::group_to_multiset_ensures;

    if s.len() > 0 {
        lemma_sort_desc_ensures(s.drop_last());
        lemma_insert_desc_ensures(s.last(), sort_desc(s.drop_last()));
        assert(s.drop_last().push(s.last()) =~= s);
    }
}

/// Two component lists with the same components sort to the same list, so
/// they format to the same string whatever order they arrived in.
pub proof fn lemma_sort_desc_canonical(a: Seq<TimeTuple>, b: Seq<TimeTuple>, long: bool)
    requires
        a.to_multiset() == b.to_multiset(),
    ensures
        sort_desc(a) == sort_desc(b),
        render_list(sort_desc(a), long) == render_list(sort_desc(b), long),
{
    lemma_comes_after_total_ordering();
    lemma_sort_desc_ensures(a);
    lemma_sort_desc_ensures(b);
    lemma_sorted_unique(sort_desc(a), sort_desc(b), desc_order());
}

/// The rendering of one component: the magnitude in decimal, then either
/// the short alias with no space, or a space and the long form, plural
/// exactly when the magnitude is above one.
pub open spec fn render_tuple(t: TimeTuple, long: bool) -> Seq<char> {
    if long {
        dec_digits(t.0 as nat) + seq![' '] + (if t.0 > 1 {
            long_plural(t.1)
        } else {
            long_singular(t.1)
        })
    } else {
        dec_digits(t.0 as nat) + short_alias(t.1)
    }
}

/// The renderings of a component list, joined with single spaces.
pub open spec fn render_list(ts: Seq<TimeTuple>, long: bool) -> Seq<char>
    decreases ts.len(),
{
    if ts.len() == 0 {
        seq![]
    } else if ts.len() == 1 {
        render_tuple(ts[0], long)
    } else {
        render_list(ts.drop_last(), long) + seq![' '] + render_tuple(ts.last(), long)
    }
}

/// The digit character of a value below ten, as a string.
fn digit_str(d: u16) -> (r: &'static str)
    requires
        d < 10,
    ensures
        r@ == seq![digit_char(d as nat)],
{
    proof {
        reveal_strlit("0");
        reveal_strlit("1");
        reveal_strlit("2");
        reveal_strlit("3");
        reveal_strlit("4");
        reveal_strlit("5");
        reveal_strlit("6");
        reveal_strlit("7");
        reveal_strlit("8");
        reveal_strlit("9");
        assert("0"@ =~= seq!['0']);
        assert("1"@ =~= seq!['1']);
        assert("2"@ =~= seq!['2']);
        assert("3"@ =~= seq!['3']);
        assert("4"@ =~= seq!['4']);
        assert("5"@ =~= seq!['5']);
        assert("6"@ =~= seq!['6']);
        assert("7"@ =~= seq!['7']);
        assert("8"@ =~= seq!['8']);
        assert("9"@ =~= seq!['9']);
    }
    match d {
        0 => "0",
        1 => "1",
        2 => "2",
        3 => "3",
        4 => "4",
        5 => "5",
        6 => "6",
        7 => "7",
        8 => "8",
        _ => "9",
    }
}

/// Appends the decimal numeral of `n` to `out`.
fn push_decimal(out: &mut String, n: u16)
    ensures
        final(out)@ == old(out)@ + dec_digits(n as nat),
    decreases n,
{
    let ghost start = out@;
    if n >= 10 {
        push_decimal(out, n / 10);
        out.append(digit_str(n % 10));
        proof {
            assert(dec_digits(n as nat) =~= dec_digits(n as nat / 10) + seq![
                digit_char(n as nat % 10),
            ]);
            assert((start + dec_digits(n as nat / 10)) + seq![digit_char(n as nat % 10)] =~= start
                + dec_digits(n as nat));
        }
    } else {
        out.append(digit_str(n));
    }
}

/// Appends the rendering of one component to `out`.
fn push_tuple(out: &mut String, t: TimeTuple, long: bool)
    ensures
        final(out)@ == old(out)@ + render_tuple(t, long),
{
    let ghost start = out@;
    push_decimal(out, t.0);
    if long {
        out.append(" ");
        out.append(t.1.long_form(t.0));
        proof {
            reveal_strlit(" ");
            assert(" "@ =~= seq![' ']);
            assert(((start + dec_digits(t.0 as nat)) + seq![' ']) + (if t.0 > 1 {
                long_plural(t.1)
            } else {
                long_singular(t.1)
            }) =~= start + render_tuple(t, long));
        }
    } else {
        out.append(t.1.short_form());
        proof {
            assert((start + dec_digits(t.0 as nat)) + short_alias(t.1) =~= start + render_tuple(
                t,
                long,
            ));
        }
    }
}

/// Inserts a component into a vector kept in descending display order.
fn insert_sorted(out: &mut Vec<TimeTuple>, x: TimeTuple)
    ensures
        final(out)@ == insert_desc(x, old(out)@),
{
    let mut p: usize = 0;
    while p < out.len() && !x.comes_after_exec(&out[p])
        invariant
            p <= out.len(),
            out == old(out),
            forall|k: int| 0 <= k < p ==> !comes_after(x, #[trigger] out@[k]),
        decreases out.len() - p,
    {
        p = p + 1;
    }
    proof {
        lemma_insert_desc_split(x, out@, p as int);
    }
    out.insert(p, x);
    proof {
        assert(old(out)@.insert(p as int, x) =~= insert_desc(x, old(out)@));
    }
}

/// Where the first position that `x` sorts no later than is `p`, inserting
/// `x` is splicing it in at `p`.
proof fn lemma_insert_desc_split(x: TimeTuple, s: Seq<TimeTuple>, p: int)
    requires
        0 <= p <= s.len(),
        forall|k: int| 0 <= k < p ==> !comes_after(x, #[trigger] s[k]),
        p == s.len() || comes_after(x, s[p]),
    ensures
        insert_desc(x, s) == s.insert(p, x),
    decreases p,
{
    if p == 0 {
        if s.len() == 0 {
            assert(seq![x] =~= s.insert(0, x));
        } else {
            assert(seq![x] + s =~= s.insert(0, x));
        }
    } else {
        let rest = s.drop_first();
        assert(forall|k: int| 0 <= k < p - 1 ==> !comes_after(x, #[trigger] rest[k]));
        lemma_insert_desc_split(x, rest, p - 1);
        assert(seq![s[0]] + rest.insert(p - 1, x) =~= s.insert(p, x));
    }
}

/// A copy of the component list in descending display order; the input is
/// left as it came.
fn sort_tuples(input: &[TimeTuple]) -> (r: Vec<TimeTuple>)
    ensures
        r@ == sort_desc(input@),
{
    let mut out: Vec<TimeTuple> = Vec::new();
    let n = input.len();
    let mut k: usize = 0;
    while k < n
        invariant
            k <= n,
            n == input@.len(),
            out@ == sort_desc(input@.subrange(0, k as int)),
        decreases n - k,
    {
        let ghost pref = input@.subrange(0, k as int);
        insert_sorted(&mut out, input[k]);
        proof {
            assert(input@.subrange(0, k as int + 1).drop_last() =~= pref);
            assert(input@.subrange(0, k as int + 1).last() == input@[k as int]);
        }
        k = k + 1;
    }
    proof {
        assert(input@.subrange(0, n as int) =~= input@);
    }
    out
}

/// Renders a component list as one canonical string: a copy is sorted
/// coarsest scale first (ties by descending magnitude), each component is
/// rendered in short or long form, and the renderings are joined with
/// single spaces.
pub fn expand_timestring(input: &[TimeTuple], long: bool) -> (r: String)
    ensures
        r@ == render_list(sort_desc(input@), long),
{
    let sorted = sort_tuples(input);
    let ghost whole = sort_desc(input@);
    let mut out = String::new();
    let mut k: usize = 0;
    while k < sorted.len()
        invariant
            k <= sorted@.len(),
            sorted@ == whole,
            out@ == render_list(whole.subrange(0, k as int), long),
        decreases sorted@.len() - k,
    {
        let ghost sofar = out@;
        if k > 0 {
            out.append(" ");
        }
        push_tuple(&mut out, sorted[k], long);
        proof {
            reveal_strlit(" ");
            assert(" "@ =~= seq![' ']);
            let next = whole.subrange(0, k as int + 1);
            assert(next.drop_last() =~= whole.subrange(0, k as int));
            assert(next.last() == whole[k as int]);
            if k == 0 {
                assert(next.len() == 1);
                assert(next[0] == whole[0]);
            }
        }
        k = k + 1;
    }
    proof {
        assert(whole.subrange(0, whole.len() as int) =~= whole);
    }
    out
}

} // verus!
