use vstd::prelude::*;
use crate::article::{Article, Column, rendered};
use crate::text::chars_of;
use crate::text::{text_lt, text_less, same_chars, lemma_text_lt_irreflexive, lemma_text_lt_total, lemma_text_lt_transitive};

verus! {

/// Sort keys of a sequence of items, one per item, all ordered descending.
pub enum SortKeys {
    /// Text keys, compared lexicographically.
    Text(Vec<Vec<char>>),
    /// Integer keys.
    Number(Vec<i32>),
}

impl SortKeys {
    /// Number of items keyed.
    pub open spec fn count(&self) -> nat {
        match self {
            SortKeys::Text(k) => k@.len(),
            SortKeys::Number(k) => k@.len(),
        }
    }

    /// Item `a` comes before item `b`: its key is greater, or the keys are
    /// equal and `a` came first (the order is stable).
    pub open spec fn precedes(&self, a: int, b: int) -> bool {
        match self {
            SortKeys::Text(k) => text_lt(k@[b]@, k@[a]@) || (k@[a]@ == k@[b]@ && a < b),
            SortKeys::Number(k) => k@[a] > k@[b] || (k@[a] == k@[b] && a < b),
        }
    }

    /// No item comes before itself.
    pub proof fn lemma_irreflexive(&self, a: int)
        requires
            0 <= a < self.count(),
        ensures
            !self.precedes(a, a),
    {
        if let SortKeys::Text(k) = self {
            lemma_text_lt_irreflexive(k@[a]@);
        }
    }

    /// Of two different items one comes before the other.
    pub proof fn lemma_total(&self, a: int, b: int)
        requires
            0 <= a < self.count(),
            0 <= b < self.count(),
            a != b,
        ensures
            self.precedes(a, b) || self.precedes(b, a),
    {
        if let SortKeys::Text(k) = self {
            lemma_text_lt_total(k@[a]@, k@[b]@);
        }
    }

    /// The order on items is transitive.
    pub proof fn lemma_transitive(&self, a: int, b: int, c: int)
        requires
            0 <= a < self.count(),
            0 <= b < self.count(),
            0 <= c < self.count(),
            self.precedes(a, b),
            self.precedes(b, c),
        ensures
            self.precedes(a, c),
    {
        if let SortKeys::Text(k) = self {
            if text_lt(k@[b]@, k@[a]@) && text_lt(k@[c]@, k@[b]@) {
                lemma_text_lt_transitive(k@[c]@, k@[b]@, k@[a]@);
            }
        }
    }

    /// Number of items keyed.
    pub fn size(&self) -> (r: usize)
        ensures
            r == self.count(),
    {
        match self {
            SortKeys::Text(k) => k.len(),
            SortKeys::Number(k) => k.len(),
        }
    }

    /// Whether item `a` comes before item `b`.
    pub fn precedes_exec(&self, a: usize, b: usize) -> (r: bool)
        requires
            a < self.count(),
            b < self.count(),
        ensures
            r == self.precedes(a as int, b as int),
    {
        match self {
            SortKeys::Text(k) => text_less(&k[b], &k[a]) || (same_chars(&k[a], &k[b]) && a < b),
            SortKeys::Number(k) => k[a] > k[b] || (k[a] == k[b] && a < b),
        }
    }
}

/// `s` lists items in strictly increasing `precedes` order.
pub open spec fn in_order(keys: &SortKeys, s: Seq<usize>) -> bool {
    forall|i: int, j: int|
        #![trigger s[i], s[j]]
        0 <= i < j < s.len() ==> keys.precedes(s[i] as int, s[j] as int)
}

/// Every entry of `s` lies in `[lo, hi)`.
pub open spec fn within(s: Seq<usize>, lo: int, hi: int) -> bool {
    forall|k: int| 0 <= k < s.len() ==> lo <= #[trigger] s[k] < hi
}

fn merge(keys: &SortKeys, l: Vec<usize>, r: Vec<usize>, Ghost(lo): Ghost<int>, Ghost(mid): Ghost<int>, Ghost(hi): Ghost<int>) -> (out: Vec<usize>)
    requires
        0 <= lo <= mid <= hi <= keys.count(),
        within(l@, lo, mid),
        within(r@, mid, hi),
        in_order(keys, l@),
        in_order(keys, r@),
    ensures
        out@.len() == l@.len() + r@.len(),
        within(out@, lo, hi),
        in_order(keys, out@),
{
    let mut out: Vec<usize> = Vec::new();
    let mut i: usize = 0;
    let mut j: usize = 0;
    while i < l.len() || j < r.len()
        invariant
            0 <= lo <= mid <= hi <= keys.count(),
            within(l@, lo, mid),
            within(r@, mid, hi),
            in_order(keys, l@),
            in_order(keys, r@),
            i <= l@.len(),
            j <= r@.len(),
            out@.len() == i + j,
            within(out@, lo, hi),
            in_order(keys, out@),
            forall|a: int, b: int|
                #![trigger out@[a], l@[b]]
                0 <= a < out@.len() && i <= b < l@.len() ==> keys.precedes(out@[a] as int, l@[b] as int),
            forall|a: int, b: int|
                #![trigger out@[a], r@[b]]
                0 <= a < out@.len() && j <= b < r@.len() ==> keys.precedes(out@[a] as int, r@[b] as int),
        decreases l@.len() + r@.len() - i - j,
    {
        let take_left = j == r.len() || (i < l.len() && keys.precedes_exec(l[i], r[j]));
        if take_left {
            let x = l[i];
            proof {
                assert forall|b: int| #![trigger r@[b]] j <= b < r@.len() implies keys.precedes(x as int, r@[b] as int) by {
                    assert(keys.precedes(x as int, r@[j as int] as int));
                    if b > j {
                        keys.lemma_transitive(x as int, r@[j as int] as int, r@[b] as int);
                    }
                }
            }
            out.push(x);
            i = i + 1;
        } else {
            let x = r[j];
            proof {
                assert forall|b: int| #![trigger l@[b]] i <= b < l@.len() implies keys.precedes(x as int, l@[b] as int) by {
                    keys.lemma_total(l@[i as int] as int, x as int);
                    if b > i {
                        keys.lemma_transitive(x as int, l@[i as int] as int, l@[b] as int);
                    }
                }
            }
            out.push(x);
            j = j + 1;
        }
    }
    out
}

/// The items `lo..hi` in strictly increasing `precedes` order.
pub fn sort_range(keys: &SortKeys, lo: usize, hi: usize) -> (r: Vec<usize>)
    requires
        lo <= hi <= keys.count(),
    ensures
        r@.len() == hi - lo,
        within(r@, lo as int, hi as int),
        in_order(keys, r@),
    decreases hi - lo,
{
    if hi - lo == 0 {
        Vec::new()
    } else if hi - lo == 1 {
        let mut v: Vec<usize> = Vec::new();
        v.push(lo);
        v
    } else {
        let mid = lo + (hi - lo) / 2;
        let l = sort_range(keys, lo, mid);
        let r = sort_range(keys, mid, hi);
        merge(keys, l, r, Ghost(lo as int), Ghost(mid as int), Ghost(hi as int))
    }
}

/// Item `a` of `s` comes before item `b` when sorting on `column`: its text
/// is greater, or the texts are equal and `a` came first.
pub open spec fn column_precedes(s: Seq<Article>, column: Column, a: int, b: int) -> bool {
    text_lt(rendered(s[b], column), rendered(s[a], column)) || (rendered(s[a], column)
        == rendered(s[b], column) && a < b)
}

/// The score an article sorts by: its score, or 0 when absent.
pub open spec fn score_key(a: Article) -> int {
    match a.score {
        Some(v) => v as int,
        None => 0,
    }
}

/// Item `a` of `s` comes before item `b` when sorting on score.
pub open spec fn score_precedes(s: Seq<Article>, a: int, b: int) -> bool {
    score_key(s[a]) > score_key(s[b]) || (score_key(s[a]) == score_key(s[b]) && a < b)
}

/// `new` is `old` with its items moved to the positions `p` gives: item `k`
/// of `new` is item `p[k]` of `old`, and no item is used twice.
pub open spec fn is_reordering(old: Seq<Article>, new: Seq<Article>, p: Seq<int>) -> bool {
    &&& p.len() == old.len()
    &&& new.len() == old.len()
    &&& forall|k: int| 0 <= k < p.len() ==> 0 <= #[trigger] p[k] < old.len() && new[k] == old[p[k]]
    &&& forall|i: int, j: int| #![trigger p[i], p[j]] 0 <= i < j < p.len() ==> p[i] != p[j]
}

/// `new` is the stable descending sort of `old` on the text of `column`.
pub open spec fn sorted_by_column(old: Seq<Article>, new: Seq<Article>, column: Column) -> bool {
    exists|p: Seq<int>|
        #[trigger] is_reordering(old, new, p) && forall|i: int, j: int|
            #![trigger p[i], p[j]]
            0 <= i < j < p.len() ==> column_precedes(old, column, p[i], p[j])
}

/// `new` is the stable descending sort of `old` on score, absent scores as 0.
pub open spec fn sorted_by_score(old: Seq<Article>, new: Seq<Article>) -> bool {
    exists|p: Seq<int>|
        #[trigger] is_reordering(old, new, p) && forall|i: int, j: int|
            #![trigger p[i], p[j]]
            0 <= i < j < p.len() ==> score_precedes(old, p[i], p[j])
}

/// No item's text in `column` is greater than that of an item before it.
pub open spec fn descending_on(s: Seq<Article>, column: Column) -> bool {
    forall|i: int, j: int|
        #![trigger s[i], s[j]]
        0 <= i < j < s.len() ==> !text_lt(rendered(s[i], column), rendered(s[j], column))
}

fn copy_in_order(records: &Vec<Article>, order: &Vec<usize>) -> (r: Vec<Article>)
    requires
        within(order@, 0, records@.len() as int),
    ensures
        r@.len() == order@.len(),
        forall|k: int| 0 <= k < order@.len() ==> #[trigger] r@[k] == records@[order@[k] as int],
{
    let mut out: Vec<Article> = Vec::new();
    let mut k: usize = 0;
    while k < order.len()
        invariant
            within(order@, 0, records@.len() as int),
            k <= order@.len(),
            out@.len() == k,
            forall|m: int| 0 <= m < k ==> #[trigger] out@[m] == records@[order@[m] as int],
        decreases order@.len() - k,
    {
        out.push(records[order[k]].duplicate());
        k = k + 1;
    }
    out
}

proof fn lemma_order_is_reordering(
    old: Seq<Article>,
    new: Seq<Article>,
    keys: &SortKeys,
    order: Seq<usize>,
) -> (p: Seq<int>)
    requires
        keys.count() == old.len(),
        order.len() == old.len(),
        within(order, 0, old.len() as int),
        in_order(keys, order),
        new.len() == order.len(),
        forall|k: int| 0 <= k < order.len() ==> #[trigger] new[k] == old[order[k] as int],
    ensures
        is_reordering(old, new, p),
        forall|i: int, j: int| #![trigger p[i], p[j]] 0 <= i < j < p.len() ==> keys.precedes(p[i], p[j]),
{
    let p = order.map_values(|v: usize| v as int);
    assert forall|i: int, j: int| #![trigger p[i], p[j]] 0 <= i < j < p.len() implies p[i] != p[j] && keys.precedes(p[i], p[j]) by {
        assert(keys.precedes(order[i] as int, order[j] as int));
        if p[i] == p[j] {
            keys.lemma_irreflexive(p[i]);
        }
    }
    p
}

/// Sorts `records` in place, descending on the text of `column`; items with
/// equal text keep their order.
pub fn sort_by_column(records: &mut Vec<Article>, column: Column)
    ensures
        sorted_by_column(old(records)@, final(records)@, column),
{
    let n = records.len();
    let mut keys: Vec<Vec<char>> = Vec::new();
    let mut i: usize = 0;
    while i < n
        invariant
            n == records@.len(),
            i <= n,
            keys@.len() == i,
            forall|k: int| 0 <= k < i ==> #[trigger] keys@[k]@ == rendered(records@[k], column),
        decreases n - i,
    {
        let text = records[i].render(column);
        keys.push(chars_of(&text));
        i = i + 1;
    }
    let keys = SortKeys::Text(keys);
    let order = sort_range(&keys, 0, n);
    let sorted = copy_in_order(records, &order);
    proof {
        let p = lemma_order_is_reordering(records@, sorted@, &keys, order@);
        assert forall|i: int, j: int| #![trigger p[i], p[j]] 0 <= i < j < p.len() implies column_precedes(records@, column, p[i], p[j]) by {
            assert(keys.precedes(p[i], p[j]));
        }
        assert(is_reordering(records@, sorted@, p));
    }
    *records = sorted;
}

/// Sorts `records` in place, highest score first, an absent score counting
/// as 0; items with equal scores keep their order.
pub fn sort_by_score(records: &mut Vec<Article>)
    ensures
        sorted_by_score(old(records)@, final(records)@),
{
    let n = records.len();
    let mut keys: Vec<i32> = Vec::new();
    let mut i: usize = 0;
    while i < n
        invariant
            n == records@.len(),
            i <= n,
            keys@.len() == i,
            forall|k: int| 0 <= k < i ==> #[trigger] keys@[k] as int == score_key(records@[k]),
        decreases n - i,
    {
        let key = match records[i].score {
            Some(v) => v,
            None => 0,
        };
        keys.push(key);
        i = i + 1;
    }
    let keys = SortKeys::Number(keys);
    let order = sort_range(&keys, 0, n);
    let sorted = copy_in_order(records, &order);
    proof {
        let p = lemma_order_is_reordering(records@, sorted@, &keys, order@);
        assert forall|i: int, j: int| #![trigger p[i], p[j]] 0 <= i < j < p.len() implies score_precedes(records@, p[i], p[j]) by {
            assert(keys.precedes(p[i], p[j]));
        }
        assert(is_reordering(records@, sorted@, p));
    }
    *records = sorted;
}

proof fn lemma_increasing_lower(q: Seq<int>, k: int)
    requires
        0 <= k < q.len(),
        forall|i: int| 0 <= i < q.len() ==> 0 <= #[trigger] q[i],
        forall|i: int, j: int| #![trigger q[i], q[j]] 0 <= i < j < q.len() ==> q[i] < q[j],
    ensures
        q[k] >= k,
    decreases k,
{
    if k > 0 {
        lemma_increasing_lower(q, k - 1);
        assert(q[k - 1] < q[k]);
    }
}

proof fn lemma_increasing_upper(q: Seq<int>, k: int)
    requires
        0 <= k < q.len(),
        forall|i: int| 0 <= i < q.len() ==> #[trigger] q[i] < q.len(),
        forall|i: int, j: int| #![trigger q[i], q[j]] 0 <= i < j < q.len() ==> q[i] < q[j],
    ensures
        q[k] <= k,
    decreases q.len() - k,
{
    if k + 1 < q.len() {
        lemma_increasing_upper(q, k + 1);
        assert(q[k] < q[k + 1]);
    }
}

/// The stable sort of `old` on `column` is descending on `column`.
pub proof fn lemma_sorted_is_descending(old: Seq<Article>, new: Seq<Article>, column: Column)
    requires
        sorted_by_column(old, new, column),
    ensures
        descending_on(new, column),
{
    let p = choose|p: Seq<int>|
        #[trigger] is_reordering(old, new, p) && forall|i: int, j: int|
            #![trigger p[i], p[j]]
            0 <= i < j < p.len() ==> column_precedes(old, column, p[i], p[j]);
    assert forall|i: int, j: int| #![trigger new[i], new[j]] 0 <= i < j < new.len() implies !text_lt(rendered(new[i], column), rendered(new[j], column)) by {
        assert(column_precedes(old, column, p[i], p[j]));
        assert(new[i] == old[p[i]]);
        assert(new[j] == old[p[j]]);
        lemma_text_lt_total(rendered(new[i], column), rendered(new[j], column));
        lemma_text_lt_irreflexive(rendered(new[i], column));
    }
}

/// Sorting a sequence that is already descending on `column` leaves it as
/// it is: equal texts keep their order.
pub proof fn lemma_sort_of_descending(old: Seq<Article>, new: Seq<Article>, column: Column)
    requires
        descending_on(old, column),
        sorted_by_column(old, new, column),
    ensures
        new == old,
{
    let q = choose|p: Seq<int>|
        #[trigger] is_reordering(old, new, p) && forall|i: int, j: int|
            #![trigger p[i], p[j]]
            0 <= i < j < p.len() ==> column_precedes(old, column, p[i], p[j]);
    assert forall|i: int, j: int| #![trigger q[i], q[j]] 0 <= i < j < q.len() implies q[i] < q[j] by {
        assert(column_precedes(old, column, q[i], q[j]));
        if q[j] < q[i] {
            let a = q[j];
            let b = q[i];
            assert(!text_lt(rendered(old[a], column), rendered(old[b], column)));
            lemma_text_lt_total(rendered(old[a], column), rendered(old[b], column));
        }
        assert(q[i] != q[j]);
    }
    assert forall|k: int| 0 <= k < new.len() implies #[trigger] new[k] == old[k] by {
        lemma_increasing_lower(q, k);
        lemma_increasing_upper(q, k);
        assert(new[k] == old[q[k]]);
    }
    assert(new =~= old);
}

/// Sorting on the same column twice gives what sorting once gave.
pub proof fn lemma_sort_twice(s: Seq<Article>, t: Seq<Article>, u: Seq<Article>, column: Column)
    requires
        sorted_by_column(s, t, column),
        sorted_by_column(t, u, column),
    ensures
        u == t,
{
    lemma_sorted_is_descending(s, t, column);
    lemma_sort_of_descending(t, u, column);
}

} // verus!
