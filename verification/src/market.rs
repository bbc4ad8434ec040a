//! The gaps between successive trade prices, and their median.
use crate::decimal::{
    dec_lt, dec_same_value, dec_valid, decimal_checked_add, decimal_checked_div,
    decimal_checked_sub, decimal_parse, pow10, Dec, DecModel,
};
use vstd::relations::{sorted_by, total_ordering};
use vstd::prelude::*;

verus! {

broadcast use vstd::seq_lib::group_to_multiset_ensures;

pub open spec fn models(s: Seq<Dec>) -> Seq<DecModel> {
    s.map_values(|d: Dec| d@)
}

/// At most this many price gaps are kept.
pub const MAX_PRICE_GAPS: usize = 1000;

/// Whether a trade price can be recorded: the gap to the last price must
/// not overflow.
pub open spec fn trade_price_allowed(last_price: Option<Dec>, price: Seq<char>) -> bool {
    match decimal_parse(price) {
        Ok(cur) => match last_price {
            Some(l) => decimal_checked_sub(cur, l@) is Some,
            None => true,
        },
        Err(_) => true,
    }
}

/// The gaps after a new nonzero gap: appended, the oldest dropped past
/// the limit.
pub open spec fn gaps_after(gaps: Seq<DecModel>, gap: DecModel) -> Seq<DecModel> {
    if gap.0 == 0 {
        gaps
    } else if gaps.push(gap).len() > 1000 {
        gaps.push(gap).drop_first()
    } else {
        gaps.push(gap)
    }
}

pub open spec fn trade_price_post(
    last: Option<Dec>,
    gaps: Seq<Dec>,
    price: Seq<char>,
    last2: Option<Dec>,
    gaps2: Seq<Dec>,
) -> bool {
    match decimal_parse(price) {
        Err(_) => last2 == last && gaps2 == gaps,
        Ok(cur) => {
            &&& last2 matches Some(d) && d@ == cur
            &&& models(gaps2) == match last {
                Some(l) => gaps_after(models(gaps), decimal_checked_sub(cur, l@).unwrap()),
                None => models(gaps),
            }
        },
    }
}

/// Records an aggregate trade price: its difference to the previous price,
/// when not zero, joins the price gaps (the oldest dropped beyond 1000), and
/// it becomes the previous price.  A price that does not parse is ignored.
pub fn record_trade_price(last_price: &mut Option<Dec>, gaps: &mut Vec<Dec>, price: &str)
    requires
        trade_price_allowed(*old(last_price), price@),
    ensures
        trade_price_post(*old(last_price), old(gaps)@, price@, *final(last_price), final(gaps)@),
{
    let current = match Dec::parse(price) {
        Ok(c) => c,
        Err(_) => return ,
    };
    let ghost g0 = models(old(gaps)@);
    if let Some(last) = *last_price {
        let gap = match current.checked_sub(&last) {
            Some(g) => g,
            None => {
                proof {
                    assert(false);
                }
                return ;
            },
        };
        proof {
            crate::decimal::lemma_compare_zero(gap@);
        }
        if !gap.is_zero() {
            gaps.push(gap);
            if gaps.len() > MAX_PRICE_GAPS {
                gaps.remove(0);
            }
            proof {
                let g0 = models(old(gaps)@);
                assert(models(old(gaps)@.push(gap)) =~= g0.push(gap@));
                if old(gaps)@.push(gap).len() > 1000 {
                    assert(models(gaps@) =~= g0.push(gap@).drop_first());
                } else {
                    assert(models(gaps@) =~= g0.push(gap@));
                }
            }
        } else {
            proof {
                crate::decimal::lemma_compare_zero(gap@);
                assert(gaps_after(g0, gap@) == g0);
            }
        }
        proof {
            assert(models(gaps@) == gaps_after(g0, decimal_checked_sub(current@, last@).unwrap()));
        }
    } else {
        assert(models(gaps@) == g0);
    }
    *last_price = Some(current);
}

/// Whether `record_trade_price` stays in range, tested as the event loop
/// must before calling it.
pub fn trade_price_fits(last_price: &Option<Dec>, price: &str) -> (r: bool)
    ensures
        r == trade_price_allowed(*last_price, price@),
{
    match Dec::parse(price) {
        Ok(cur) => match last_price {
            Some(l) => cur.checked_sub(l).is_some(),
            None => true,
        },
        Err(_) => true,
    }
}

/// `record_trade_price` where the gap stays in range; otherwise nothing
/// changes and `false` is returned.
pub fn try_record_trade_price(last_price: &mut Option<Dec>, gaps: &mut Vec<Dec>, price: &str) -> (r:
    bool)
    ensures
        r == trade_price_allowed(*old(last_price), price@),
        r ==> trade_price_post(
            *old(last_price),
            old(gaps)@,
            price@,
            *final(last_price),
            final(gaps)@,
        ),
        !r ==> *final(last_price) == *old(last_price) && final(gaps)@ == old(gaps)@,
{
    if trade_price_fits(last_price, price) {
        record_trade_price(last_price, gaps, price);
        true
    } else {
        false
    }
}

/// Recording a price never lets the gaps grow past 1000.
pub proof fn law_price_gaps_bounded(
    last: Option<Dec>,
    gaps: Seq<Dec>,
    price: Seq<char>,
    last2: Option<Dec>,
    gaps2: Seq<Dec>,
)
    requires
        gaps.len() <= 1000,
        trade_price_post(last, gaps, price, last2, gaps2),
    ensures
        gaps2.len() <= 1000,
{
    assert(models(gaps).len() == gaps.len());
    assert(models(gaps2).len() == gaps2.len());
}

/// No gap is ever zero: recording a price keeps every gap nonzero, as it
/// keeps their number at most 1000.
pub proof fn law_price_gaps_nonzero(
    last: Option<Dec>,
    gaps: Seq<Dec>,
    price: Seq<char>,
    last2: Option<Dec>,
    gaps2: Seq<Dec>,
)
    requires
        forall|i: int| 0 <= i < gaps.len() ==> (#[trigger] gaps[i])@.0 != 0,
        trade_price_post(last, gaps, price, last2, gaps2),
    ensures
        forall|i: int| 0 <= i < gaps2.len() ==> (#[trigger] gaps2[i])@.0 != 0,
{
    let m = models(gaps);
    let m2 = models(gaps2);
    assert forall|k: int| 0 <= k < m.len() implies (#[trigger] m[k]).0 != 0 by {
        assert(m[k] == gaps[k]@);
    }
    let ok = forall|k: int| 0 <= k < m2.len() ==> (#[trigger] m2[k]).0 != 0;
    match decimal_parse(price) {
        Err(_) => {},
        Ok(cur) => match last {
            None => {},
            Some(l) => {
                let gap = decimal_checked_sub(cur, l@).unwrap();
                if gap.0 != 0 {
                    let pushed = m.push(gap);
                    assert forall|k: int| 0 <= k < pushed.len() implies (#[trigger] pushed[k]).0
                        != 0 by {
                        if k < m.len() {
                            assert(pushed[k] == m[k]);
                        }
                    }
                    if pushed.len() > 1000 {
                        assert forall|k: int| 0 <= k < m2.len() implies (#[trigger] m2[k]).0
                            != 0 by {
                            assert(m2[k] == pushed[k + 1]);
                        }
                    }
                }
            },
        },
    }
    assert(ok);
    assert forall|i: int| 0 <= i < gaps2.len() implies (#[trigger] gaps2[i])@.0 != 0 by {
        assert(m2[i] == gaps2[i]@);
    }
}

/// Where a value goes in a list sorted by descending value: before the
/// first element smaller than it, so after the ones equal to it.
pub open spec fn insert_position(sorted: Seq<Dec>, x: Dec) -> int
    decreases sorted.len(),
{
    if sorted.len() == 0 {
        0
    } else if dec_lt(sorted[0]@, x@) {
        0
    } else {
        1 + insert_position(sorted.drop_first(), x)
    }
}

/// The gaps sorted by descending value, equal values keeping their order:
/// what `sort_by(|a, b| b.cmp(a))` (a stable sort) leaves.
pub open spec fn sort_desc(s: Seq<Dec>) -> Seq<Dec>
    decreases s.len(),
{
    if s.len() == 0 {
        s
    } else {
        let rest = sort_desc(s.drop_last());
        rest.insert(insert_position(rest, s.last()), s.last())
    }
}

pub open spec fn is_sorted_desc(s: Seq<Dec>) -> bool {
    forall|i: int, j: int| 0 <= i < j < s.len() ==> !dec_lt(#[trigger] s[i]@, #[trigger] s[j]@)
}

pub proof fn lemma_pow10_positive(n: nat)
    ensures
        pow10(n) > 0,
    decreases n,
{
    if n > 0 {
        lemma_pow10_positive((n - 1) as nat);
    }
}

/// b <= a and a < c give b < c.
pub proof fn lemma_le_lt(a: DecModel, b: DecModel, c: DecModel)
    requires
        !dec_lt(a, b),
        dec_lt(a, c),
    ensures
        dec_lt(b, c),
{
    lemma_pow10_positive(a.1);
    lemma_pow10_positive(b.1);
    lemma_pow10_positive(c.1);
    let pa = pow10(a.1);
    let pb = pow10(b.1);
    let pc = pow10(c.1);
    assert(b.0 * pa * pc <= a.0 * pb * pc) by (nonlinear_arith)
        requires
            b.0 * pa <= a.0 * pb,
            pc > 0,
    ;
    assert(a.0 * pc * pb < c.0 * pa * pb) by (nonlinear_arith)
        requires
            a.0 * pc < c.0 * pa,
            pb > 0,
    ;
    assert(b.0 * pc * pa < c.0 * pb * pa) by (nonlinear_arith)
        requires
            b.0 * pa * pc <= a.0 * pb * pc,
            a.0 * pc * pb < c.0 * pa * pb,
    ;
    assert(b.0 * pc < c.0 * pb) by (nonlinear_arith)
        requires
            b.0 * pc * pa < c.0 * pb * pa,
            pa > 0,
    ;
}

/// a < b excludes b < a.
pub proof fn lemma_lt_asym(a: DecModel, b: DecModel)
    ensures
        dec_lt(a, b) ==> !dec_lt(b, a),
{
}

proof fn lemma_insert_position(sorted: Seq<Dec>, x: Dec)
    ensures
        0 <= insert_position(sorted, x) <= sorted.len(),
        forall|k: int| 0 <= k < insert_position(sorted, x) ==> !dec_lt(sorted[k]@, x@),
        insert_position(sorted, x) < sorted.len() ==> dec_lt(
            sorted[insert_position(sorted, x)]@,
            x@,
        ),
    decreases sorted.len(),
{
    if sorted.len() > 0 && !dec_lt(sorted[0]@, x@) {
        lemma_insert_position(sorted.drop_first(), x);
        assert forall|k: int| 0 <= k < insert_position(sorted, x) implies !dec_lt(
            sorted[k]@,
            x@,
        ) by {
            if k > 0 {
                assert(sorted[k] == sorted.drop_first()[k - 1]);
            }
        }
    }
}

proof fn lemma_insert_sorted(sorted: Seq<Dec>, x: Dec)
    requires
        is_sorted_desc(sorted),
    ensures
        is_sorted_desc(sorted.insert(insert_position(sorted, x), x)),
{
    lemma_insert_position(sorted, x);
    let p = insert_position(sorted, x);
    let r = sorted.insert(p, x);
    assert forall|i: int, j: int| 0 <= i < j < r.len() implies !dec_lt(
        #[trigger] r[i]@,
        #[trigger] r[j]@,
    ) by {
        if j < p {
            assert(r[i] == sorted[i] && r[j] == sorted[j]);
        } else if j == p {
            assert(r[i] == sorted[i]);
        } else if i == p {
            assert(r[j] == sorted[j - 1]);
            if p < sorted.len() {
                if j - 1 > p {
                    assert(!dec_lt(sorted[p]@, sorted[j - 1]@));
                }
                lemma_le_lt(sorted[p]@, sorted[j - 1]@, x@);
                lemma_lt_asym(sorted[j - 1]@, x@);
            }
        } else if i < p {
            assert(r[i] == sorted[i] && r[j] == sorted[j - 1]);
        } else {
            assert(r[i] == sorted[i - 1] && r[j] == sorted[j - 1]);
        }
    }
}

/// The stable descending sort orders by value and keeps every gap.
pub proof fn law_sort_desc_sorted_permutation(s: Seq<Dec>)
    ensures
        is_sorted_desc(sort_desc(s)),
        sort_desc(s).to_multiset() == s.to_multiset(),
    decreases s.len(),
{
    if s.len() > 0 {
        law_sort_desc_sorted_permutation(s.drop_last());
        let rest = sort_desc(s.drop_last());
        lemma_insert_sorted(rest, s.last());
        lemma_insert_position(rest, s.last());
        vstd::seq_lib::to_multiset_insert(rest, insert_position(rest, s.last()), s.last());
        assert(s.drop_last().push(s.last()) =~= s);
    }
}

fn insert_position_exec(sorted: &Vec<Dec>, x: &Dec) -> (r: usize)
    ensures
        r == insert_position(sorted@, *x),
{
    let mut p: usize = 0;
    proof {
        assert(sorted@.subrange(0, sorted.len() as int) =~= sorted@);
    }
    while p < sorted.len() && !sorted[p].lt(x)
        invariant
            p <= sorted.len(),
            insert_position(sorted@, *x) == p + insert_position(
                sorted@.subrange(p as int, sorted.len() as int),
                *x,
            ),
        decreases sorted.len() - p,
    {
        proof {
            let rest = sorted@.subrange(p as int, sorted.len() as int);
            assert(rest.drop_first() =~= sorted@.subrange(p + 1, sorted.len() as int));
        }
        p = p + 1;
    }
    proof {
        let rest = sorted@.subrange(p as int, sorted.len() as int);
        if p < sorted.len() {
            assert(rest[0] == sorted@[p as int]);
        } else {
            assert(rest.len() == 0);
        }
    }
    p
}

/// The median of a list sorted by descending value: the middle element, or
/// the mean of the two middle ones (sum divided by 2.0); `None` for no
/// elements, and `Some(None)` where the mean overflows.
pub open spec fn median_of(s: Seq<Dec>) -> Option<Option<DecModel>> {
    let n = s.len() as int;
    if n == 0 {
        None
    } else if n % 2 == 1 {
        Some(Some(s[n / 2]@))
    } else {
        Some(
            match decimal_checked_add(s[(n - 1) / 2]@, s[n / 2]@) {
                Some(sum) => decimal_checked_div(sum, (20int, 1nat)),
                None => None,
            },
        )
    }
}

/// A decimal's value as a whole number of 10^-28 units.
pub open spec fn value_key(d: DecModel) -> int {
    d.0 * pow10((28 - d.1) as nat)
}

pub open spec fn value_keys(s: Seq<Dec>) -> Seq<int> {
    s.map_values(|d: Dec| value_key(d@))
}

/// Every element is a decimal that can be held.
pub open spec fn all_valid(s: Seq<Dec>) -> bool {
    forall|i: int| 0 <= i < s.len() ==> dec_valid(#[trigger] s[i]@)
}

proof fn lemma_pow10_add(m: nat, n: nat)
    ensures
        pow10(m + n) == pow10(m) * pow10(n),
    decreases m,
{
    if m > 0 {
        lemma_pow10_add((m - 1) as nat, n);
        assert(pow10(m + n) == 10 * pow10((m - 1 + n) as nat));
        let a = pow10((m - 1) as nat);
        let b = pow10(n);
        assert(10 * (a * b) == (10 * a) * b) by (nonlinear_arith);
    }
}

/// Comparing values is comparing their keys.
proof fn lemma_key_order(a: DecModel, b: DecModel)
    requires
        dec_valid(a),
        dec_valid(b),
    ensures
        dec_lt(a, b) <==> value_key(a) < value_key(b),
        dec_same_value(a, b) <==> value_key(a) == value_key(b),
{
    let pa = pow10(a.1);
    let pb = pow10(b.1);
    let ea = pow10((28 - a.1) as nat);
    let eb = pow10((28 - b.1) as nat);
    let p = pow10(28);
    lemma_pow10_add(a.1, (28 - a.1) as nat);
    lemma_pow10_add(b.1, (28 - b.1) as nat);
    lemma_pow10_positive(a.1);
    lemma_pow10_positive(b.1);
    lemma_pow10_positive((28 - a.1) as nat);
    lemma_pow10_positive((28 - b.1) as nat);
    lemma_pow10_positive(28);
    let x = a.0 * pb;
    let y = b.0 * pa;
    let c = ea * eb;
    assert(c > 0) by (nonlinear_arith)
        requires
            c == ea * eb,
            ea > 0,
            eb > 0,
    ;
    assert(x * c == (a.0 * ea) * p) by (nonlinear_arith)
        requires
            x == a.0 * pb,
            c == ea * eb,
            pb * eb == p,
    ;
    assert(y * c == (b.0 * eb) * p) by (nonlinear_arith)
        requires
            y == b.0 * pa,
            c == ea * eb,
            pa * ea == p,
    ;
    assert(x < y <==> x * c < y * c) by (nonlinear_arith)
        requires
            c > 0,
    ;
    assert(x == y <==> x * c == y * c) by (nonlinear_arith)
        requires
            c > 0,
    ;
    let ka = a.0 * ea;
    let kb = b.0 * eb;
    assert(ka * p < kb * p <==> ka < kb) by (nonlinear_arith)
        requires
            p > 0,
    ;
    assert(ka * p == kb * p <==> ka == kb) by (nonlinear_arith)
        requires
            p > 0,
    ;
}

/// Reordering a list reorders its keys.
proof fn lemma_keys_multiset(s: Seq<Dec>, t: Seq<Dec>)
    requires
        s.to_multiset() == t.to_multiset(),
    ensures
        value_keys(s).to_multiset() == value_keys(t).to_multiset(),
    decreases s.len(),
{
    broadcast use vstd::multiset::group_multiset_axioms;

    vstd::seq_lib::to_multiset_len(s);
    vstd::seq_lib::to_multiset_len(t);
    if s.len() == 0 {
        assert(t.len() == 0);
        assert(value_keys(s) =~= Seq::<int>::empty());
        assert(value_keys(t) =~= Seq::<int>::empty());
    } else {
        let x = s.last();
        assert(s.to_multiset().count(x) > 0) by {
            assert(s[s.len() - 1] == x);
        }
        assert(t.contains(x));
        let i = choose|i: int| 0 <= i < t.len() && t[i] == x;
        let t2 = t.remove(i);
        vstd::seq_lib::to_multiset_remove(t, i);
        assert(s.drop_last().push(x) =~= s);
        vstd::seq_lib::to_multiset_build(s.drop_last(), x);
        assert(s.drop_last().to_multiset() =~= s.to_multiset().remove(x));
        lemma_keys_multiset(s.drop_last(), t2);
        assert(value_keys(s) =~= value_keys(s.drop_last()).push(value_key(x@)));
        vstd::seq_lib::to_multiset_build(value_keys(s.drop_last()), value_key(x@));
        assert(value_keys(t) =~= value_keys(t2).insert(i, value_key(x@)));
        vstd::seq_lib::to_multiset_insert(value_keys(t2), i, value_key(x@));
    }
}

/// The elements of a reordering are valid when the original's are.
proof fn lemma_valid_reordered(s: Seq<Dec>, t: Seq<Dec>)
    requires
        all_valid(s),
        s.to_multiset() == t.to_multiset(),
    ensures
        all_valid(t),
{
    assert forall|i: int| 0 <= i < t.len() implies dec_valid(#[trigger] t[i]@) by {
        assert(t.to_multiset().count(t[i]) > 0) by {
            assert(t.contains(t[i]));
        }
        assert(s.contains(t[i]));
        let j = choose|j: int| 0 <= j < s.len() && s[j] == t[i];
        assert(dec_valid(s[j]@));
    }
}

/// The order the gaps come in does not matter: for any reordering of the
/// same gaps, the sorted lists agree in value place by place, so there is
/// a median for both or for neither, an odd number of gaps has the same
/// median value, and an even number the same two middle values.
pub proof fn law_median_order_free(s: Seq<Dec>, t: Seq<Dec>)
    requires
        all_valid(s),
        s.to_multiset() == t.to_multiset(),
    ensures
        sort_desc(s).len() == sort_desc(t).len(),
        forall|i: int|
            0 <= i < sort_desc(s).len() ==> dec_same_value(
                (#[trigger] sort_desc(s)[i])@,
                sort_desc(t)[i]@,
            ),
        median_of(sort_desc(s)) is None <==> median_of(sort_desc(t)) is None,
        s.len() % 2 == 1 ==> (median_of(sort_desc(s)) matches Some(Some(x)) && median_of(
            sort_desc(t),
        ) matches Some(Some(y)) && dec_same_value(x, y)),
{
    let ss = sort_desc(s);
    let st = sort_desc(t);
    law_sort_desc_sorted_permutation(s);
    law_sort_desc_sorted_permutation(t);
    vstd::seq_lib::to_multiset_len(s);
    vstd::seq_lib::to_multiset_len(t);
    vstd::seq_lib::to_multiset_len(ss);
    vstd::seq_lib::to_multiset_len(st);
    lemma_valid_reordered(s, t);
    lemma_valid_reordered(s, ss);
    lemma_valid_reordered(t, st);
    let leq = |x: int, y: int| x >= y;
    let ks = value_keys(ss);
    let kt = value_keys(st);
    assert forall|i: int, j: int| 0 <= i < j < ks.len() implies #[trigger] leq(ks[i], ks[j]) by {
        lemma_key_order(ss[i]@, ss[j]@);
    }
    assert forall|i: int, j: int| 0 <= i < j < kt.len() implies #[trigger] leq(kt[i], kt[j]) by {
        lemma_key_order(st[i]@, st[j]@);
    }
    assert(sorted_by(ks, leq));
    assert(sorted_by(kt, leq));
    assert(total_ordering(leq));
    lemma_keys_multiset(ss, s);
    lemma_keys_multiset(s, t);
    lemma_keys_multiset(t, st);
    vstd::seq_lib::lemma_sorted_unique(ks, kt, leq);
    assert forall|i: int| 0 <= i < ss.len() implies dec_same_value(
        (#[trigger] ss[i])@,
        st[i]@,
    ) by {
        assert(ks[i] == kt[i]);
        lemma_key_order(ss[i]@, st[i]@);
    }
    if s.len() % 2 == 1 {
        let n = ss.len() as int;
        assert(dec_same_value(ss[n / 2]@, st[n / 2]@));
    }
}

/// The gaps that share the value of a middle gap (after sorting) are all
/// spelled alike, with the same digits and scale.
pub open spec fn middle_spelled_alike(s: Seq<Dec>) -> bool {
    let m = sort_desc(s);
    let n = m.len() as int;
    forall|i: int, j: int|
        0 <= i < s.len() && 0 <= j < s.len() && dec_same_value(#[trigger] s[i]@, #[trigger] s[j]@)
            && (dec_same_value(s[i]@, m[n / 2]@) || dec_same_value(s[i]@, m[(n - 1) / 2]@))
            ==> s[i]@ == s[j]@
}

/// An element of a reordering is an element of the original.
proof fn lemma_reordered_member(s: Seq<Dec>, t: Seq<Dec>, k: int) -> (j: int)
    requires
        s.to_multiset() == t.to_multiset(),
        0 <= k < t.len(),
    ensures
        0 <= j < s.len(),
        s[j] == t[k],
{
    assert(t.to_multiset().count(t[k]) > 0) by {
        assert(t.contains(t[k]));
    }
    assert(s.contains(t[k]));
    choose|j: int| 0 <= j < s.len() && s[j] == t[k]
}

/// The median is the same for every order of the same gaps, when the gaps
/// that tie with a middle gap are spelled alike (else the order decides
/// which spelling, such as `1.0` or `1.00`, comes out).
pub proof fn law_median_same_for_every_order(s: Seq<Dec>, t: Seq<Dec>)
    requires
        all_valid(s),
        s.to_multiset() == t.to_multiset(),
        middle_spelled_alike(s),
    ensures
        median_of(sort_desc(s)) == median_of(sort_desc(t)),
{
    law_median_order_free(s, t);
    law_sort_desc_sorted_permutation(s);
    law_sort_desc_sorted_permutation(t);
    let ss = sort_desc(s);
    let st = sort_desc(t);
    let n = ss.len() as int;
    if n > 0 {
        assert forall|k: int| k == n / 2 || k == (n - 1) / 2 implies ss[k]@ == st[k]@ by {
            let a = lemma_reordered_member(s, ss, k);
            let tb = lemma_reordered_member(t, st, k);
            let b = lemma_reordered_member(s, t, tb);
            assert(dec_same_value(ss[k]@, st[k]@));
            assert(dec_same_value(s[a]@, s[b]@));
            assert(dec_same_value(s[a]@, ss[n / 2]@) || dec_same_value(s[a]@, ss[(n - 1) / 2]@));
        }
    }
}

pub open spec fn median_allowed(gaps: Seq<Dec>) -> bool {
    median_of(sort_desc(gaps)) != Some(None::<DecModel>)
}

fn sort_gaps_desc(gaps: &mut Vec<Dec>)
    ensures
        final(gaps)@ == sort_desc(old(gaps)@),
{
    let mut out: Vec<Dec> = Vec::new();
    let mut i: usize = 0;
    proof {
        assert(old(gaps)@.subrange(0, 0) =~= Seq::<Dec>::empty());
    }
    while i < gaps.len()
        invariant
            i <= gaps.len(),
            gaps@ == old(gaps)@,
            out@ == sort_desc(gaps@.subrange(0, i as int)),
        decreases gaps.len() - i,
    {
        let x = gaps[i];
        let p = insert_position_exec(&out, &x);
        proof {
            lemma_insert_position(out@, x);
        }
        out.insert(p, x);
        proof {
            assert(gaps@.subrange(0, i + 1).drop_last() =~= gaps@.subrange(0, i as int));
            lemma_insert_position(sort_desc(gaps@.subrange(0, i as int)), x);
        }
        i = i + 1;
    }
    proof {
        assert(gaps@.subrange(0, gaps.len() as int) =~= gaps@);
    }
    *gaps = out;
}

/// Sorts the gaps by descending value (stable) and returns their median:
/// the middle gap, or the mean of the two middle ones; `None` for no gaps.
pub fn calculate_median(gaps: &mut Vec<Dec>) -> (r: Option<Dec>)
    requires
        median_allowed(old(gaps)@),
    ensures
        final(gaps)@ == sort_desc(old(gaps)@),
        match median_of(final(gaps)@) {
            Some(Some(m)) => r matches Some(d) && d@ == m,
            _ => r is None,
        },
{
    if gaps.len() == 0 {
        return None;
    }
    sort_gaps_desc(gaps);
    let len = gaps.len();
    if len % 2 == 1 {
        Some(gaps[len / 2])
    } else {
        let mid_left = gaps[(len - 1) / 2];
        let mid_right = gaps[len / 2];
        let two = match Dec::from_parts(20, 1) {
            Some(t) => t,
            None => Dec::zero(),
        };
        match mid_left.checked_add(&mid_right) {
            Some(sum) => sum.checked_div(&two),
            None => None,
        }
    }
}

/// A copy of the gaps.
pub(crate) fn copy_gaps(gaps: &Vec<Dec>) -> (r: Vec<Dec>)
    ensures
        r@ == gaps@,
{
    let mut out: Vec<Dec> = Vec::new();
    let mut i: usize = 0;
    while i < gaps.len()
        invariant
            i <= gaps.len(),
            out@ == gaps@.subrange(0, i as int),
        decreases gaps.len() - i,
    {
        out.push(gaps[i]);
        i = i + 1;
        proof {
            assert(out@ =~= gaps@.subrange(0, i as int));
        }
    }
    proof {
        assert(out@ =~= gaps@);
    }
    out
}

/// Whether `calculate_median` stays in range.
pub fn median_fits(gaps: &Vec<Dec>) -> (r: bool)
    ensures
        r == median_allowed(gaps@),
{
    let mut sorted = copy_gaps(gaps);
    sort_gaps_desc(&mut sorted);
    let len = sorted.len();
    if len == 0 || len % 2 == 1 {
        return true;
    }
    let two = match Dec::from_parts(20, 1) {
        Some(t) => t,
        None => Dec::zero(),
    };
    match sorted[(len - 1) / 2].checked_add(&sorted[len / 2]) {
        Some(sum) => sum.checked_div(&two).is_some(),
        None => false,
    }
}

/// `calculate_median` where the mean stays in range; `None` (gaps left
/// unchanged) otherwise.
pub fn try_calculate_median(gaps: &mut Vec<Dec>) -> (r: Option<Option<Dec>>)
    ensures
        r is Some <==> median_allowed(old(gaps)@),
        r is Some ==> final(gaps)@ == sort_desc(old(gaps)@),
        r matches Some(m) ==> match median_of(final(gaps)@) {
            Some(Some(v)) => m matches Some(d) && d@ == v,
            _ => m is None,
        },
        r is None ==> final(gaps)@ == old(gaps)@,
{
    if median_fits(gaps) {
        Some(calculate_median(gaps))
    } else {
        None
    }
}

} // verus!
