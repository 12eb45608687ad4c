//! Stable ordering of list rows by a whole-number or text key, ascending or
//! descending, as `sort_by` orders them: rows with equal keys keep their order.

use vstd::prelude::*;
use crate::market::MarketSortColumn;
use crate::text::{chars_of, lowercase_of, to_lowercase};
use crate::windows::WindowsSortField;

verus! {

/// The key a row is ordered by.
#[derive(Debug, Clone)]
pub enum SortKey {
    Number(u64),
    /// Text, compared character by character.
    Text(Vec<char>),
}

/// The plain value of a `SortKey`.
pub enum KeyView {
    Number(u64),
    Text(Seq<char>),
}

impl SortKey {
    pub open spec fn view(&self) -> KeyView {
        match self {
            SortKey::Number(n) => KeyView::Number(*n),
            SortKey::Text(t) => KeyView::Text(t@),
        }
    }
}

/// The keys of the rows, as plain values.
pub open spec fn key_views(keys: Seq<SortKey>) -> Seq<KeyView> {
    keys.map_values(|k: SortKey| k.view())
}

/// Text order: character by character, a proper prefix first (the order of
/// `str`'s comparison, whose UTF-8 byte order follows the characters' order).
pub open spec fn text_lt(a: Seq<char>, b: Seq<char>) -> bool
    decreases a.len(),
{
    if a.len() == 0 {
        b.len() > 0
    } else if b.len() == 0 {
        false
    } else if a[0] != b[0] {
        a[0] < b[0]
    } else {
        text_lt(a.drop_first(), b.drop_first())
    }
}

/// Key order: numbers by value, texts by `text_lt` (a number sorts before a
/// text, though rows of one list share a kind).
pub open spec fn key_lt(a: KeyView, b: KeyView) -> bool {
    match (a, b) {
        (KeyView::Number(x), KeyView::Number(y)) => x < y,
        (KeyView::Text(x), KeyView::Text(y)) => text_lt(x, y),
        (KeyView::Number(_), KeyView::Text(_)) => true,
        (KeyView::Text(_), KeyView::Number(_)) => false,
    }
}

/// Row `i` goes before row `j`: its key comes first in the chosen direction,
/// or the keys are equal and it came first.
pub open spec fn goes_before(keys: Seq<KeyView>, ascending: bool, i: int, j: int) -> bool {
    if ascending {
        key_lt(keys[i], keys[j]) || (keys[i] == keys[j] && i < j)
    } else {
        key_lt(keys[j], keys[i]) || (keys[i] == keys[j] && i < j)
    }
}

/// `order` lists every row of `keys` once, in the stable sorted order.
pub open spec fn is_stable_order(keys: Seq<KeyView>, ascending: bool, order: Seq<usize>) -> bool {
    &&& order.len() == keys.len()
    &&& order.no_duplicates()
    &&& forall|p: int| 0 <= p < order.len() ==> order[p] < keys.len()
    &&& forall|p: int, q: int| 0 <= p < q < order.len() ==> goes_before(keys, ascending, #[trigger] order[p] as int, #[trigger] order[q] as int)
}

pub proof fn lemma_text_lt_irreflexive(a: Seq<char>)
    ensures
        !text_lt(a, a),
    decreases a.len(),
{
    if a.len() > 0 {
        lemma_text_lt_irreflexive(a.drop_first());
    }
}

pub proof fn lemma_text_lt_transitive(a: Seq<char>, b: Seq<char>, c: Seq<char>)
    requires
        text_lt(a, b),
        text_lt(b, c),
    ensures
        text_lt(a, c),
    decreases a.len(),
{
    if a.len() > 0 && b.len() > 0 && c.len() > 0 && a[0] == b[0] && b[0] == c[0] {
        lemma_text_lt_transitive(a.drop_first(), b.drop_first(), c.drop_first());
    }
}

pub proof fn lemma_text_lt_total(a: Seq<char>, b: Seq<char>)
    requires
        a != b,
    ensures
        text_lt(a, b) || text_lt(b, a),
    decreases a.len(),
{
    if a.len() > 0 && b.len() > 0 && a[0] == b[0] {
        if a.drop_first() == b.drop_first() {
            assert(a =~= seq![a[0]] + a.drop_first());
            assert(b =~= seq![b[0]] + b.drop_first());
        }
        lemma_text_lt_total(a.drop_first(), b.drop_first());
    } else if a.len() == 0 && b.len() == 0 {
        assert(a =~= b);
    }
}

/// `goes_before` is a strict total order on the rows.
pub proof fn lemma_goes_before_order(keys: Seq<KeyView>, ascending: bool, i: int, j: int, k: int)
    ensures
        !goes_before(keys, ascending, i, i),
        i != j ==> (goes_before(keys, ascending, i, j) || goes_before(keys, ascending, j, i)),
        goes_before(keys, ascending, i, j) && goes_before(keys, ascending, j, k) ==> goes_before(keys, ascending, i, k),
        goes_before(keys, ascending, i, j) ==> !goes_before(keys, ascending, j, i),
{
    let (a, b, c) = (keys[i], keys[j], keys[k]);
    if let KeyView::Text(x) = a {
        lemma_text_lt_irreflexive(x);
        if let KeyView::Text(y) = b {
            if x != y {
                lemma_text_lt_total(x, y);
            }
            if text_lt(x, y) && text_lt(y, x) {
                lemma_text_lt_transitive(x, y, x);
            }
            if let KeyView::Text(z) = c {
                if text_lt(x, y) && text_lt(y, z) {
                    lemma_text_lt_transitive(x, y, z);
                }
                if text_lt(z, y) && text_lt(y, x) {
                    lemma_text_lt_transitive(z, y, x);
                }
                if text_lt(x, y) && y == z {
                }
            }
        }
    }
    if let KeyView::Text(y) = b {
        lemma_text_lt_irreflexive(y);
    }
}

/// Text key order, as `text_lt`.
fn text_less(a: &Vec<char>, b: &Vec<char>) -> (r: bool)
    ensures
        r == text_lt(a@, b@),
{
    let mut k: usize = 0;
    proof {
        assert(a@.skip(0) =~= a@);
        assert(b@.skip(0) =~= b@);
    }
    while k < a.len() && k < b.len()
        invariant
            k <= a@.len(),
            k <= b@.len(),
            text_lt(a@, b@) == text_lt(a@.skip(k as int), b@.skip(k as int)),
        decreases a@.len() - k,
    {
        proof {
            assert(a@.skip(k as int)[0] == a@[k as int]);
            assert(b@.skip(k as int)[0] == b@[k as int]);
            assert(a@.skip(k as int).drop_first() =~= a@.skip(k + 1));
            assert(b@.skip(k as int).drop_first() =~= b@.skip(k + 1));
        }
        if a[k] != b[k] {
            return a[k] < b[k];
        }
        k = k + 1;
    }
    proof {
        if k == a@.len() {
            assert(a@.skip(k as int).len() == 0);
        } else {
            assert(b@.skip(k as int).len() == 0);
        }
    }
    k == a.len() && k < b.len()
}

fn key_less(a: &SortKey, b: &SortKey) -> (r: bool)
    ensures
        r == key_lt(a.view(), b.view()),
{
    match (a, b) {
        (SortKey::Number(x), SortKey::Number(y)) => *x < *y,
        (SortKey::Text(x), SortKey::Text(y)) => text_less(x, y),
        (SortKey::Number(_), SortKey::Text(_)) => true,
        (SortKey::Text(_), SortKey::Number(_)) => false,
    }
}

fn key_same(a: &SortKey, b: &SortKey) -> (r: bool)
    ensures
        r == (a.view() == b.view()),
{
    match (a, b) {
        (SortKey::Number(x), SortKey::Number(y)) => *x == *y,
        (SortKey::Text(x), SortKey::Text(y)) => {
            if x.len() != y.len() {
                return false;
            }
            let mut k: usize = 0;
            while k < x.len()
                invariant
                    k <= x@.len(),
                    x@.len() == y@.len(),
                    a.view() == KeyView::Text(x@),
                    b.view() == KeyView::Text(y@),
                    forall|j: int| 0 <= j < k ==> x@[j] == y@[j],
                decreases x@.len() - k,
            {
                if x[k] != y[k] {
                    proof {
                        assert(x@[k as int] != y@[k as int]);
                        assert(x@ != y@);
                    }
                    return false;
                }
                k = k + 1;
            }
            proof {
                assert(x@ =~= y@);
            }
            true
        },
        _ => false,
    }
}

fn before(keys: &[SortKey], ascending: bool, i: usize, j: usize) -> (r: bool)
    requires
        i < keys@.len(),
        j < keys@.len(),
    ensures
        r == goes_before(key_views(keys@), ascending, i as int, j as int),
{
    let (a, b) = (&keys[i], &keys[j]);
    let lt = if ascending {
        key_less(a, b)
    } else {
        key_less(b, a)
    };
    lt || (key_same(a, b) && i < j)
}

/// The rows of `keys` in stable sorted order, ascending or descending: the
/// positions of the rows, each once.
pub fn stable_order(keys: &[SortKey], ascending: bool) -> (order: Vec<usize>)
    ensures
        is_stable_order(key_views(keys@), ascending, order@),
{
    let ghost kv = key_views(keys@);
    let n = keys.len();
    let mut order: Vec<usize> = Vec::new();
    let mut i: usize = 0;
    while i < n
        invariant
            n == keys@.len(),
            kv == key_views(keys@),
            kv.len() == n,
            i <= n,
            order@.len() == i,
            order@.no_duplicates(),
            forall|p: int| 0 <= p < order@.len() ==> order@[p] < i,
            forall|p: int, q: int| 0 <= p < q < order@.len() ==> goes_before(kv, ascending, #[trigger] order@[p] as int, #[trigger] order@[q] as int),
        decreases n - i,
    {
        let mut pos: usize = 0;
        while pos < order.len() && before(keys, ascending, order[pos], i)
            invariant
                n == keys@.len(),
                kv == key_views(keys@),
                kv.len() == n,
                i < n,
                pos <= order@.len(),
                forall|p: int| 0 <= p < order@.len() ==> order@[p] < i,
                forall|p: int| 0 <= p < pos ==> goes_before(kv, ascending, #[trigger] order@[p] as int, i as int),
            decreases order@.len() - pos,
        {
            pos = pos + 1;
        }
        let ghost old_order = order@;
        proof {
            if pos < old_order.len() {
                lemma_goes_before_order(kv, ascending, old_order[pos as int] as int, i as int, 0);
                assert(goes_before(kv, ascending, i as int, old_order[pos as int] as int));
                assert forall|q: int| pos <= q < old_order.len() implies goes_before(kv, ascending, i as int, #[trigger] old_order[q] as int) by {
                    if q > pos {
                        lemma_goes_before_order(kv, ascending, i as int, old_order[pos as int] as int, old_order[q] as int);
                    }
                }
            }
        }
        order.insert(pos, i);
        proof {
            let o = order@;
            assert(o == old_order.insert(pos as int, i));
            assert forall|p: int| 0 <= p < o.len() implies #[trigger] o[p] < i + 1 by {
                if p < pos {
                    assert(o[p] == old_order[p]);
                } else if p > pos {
                    assert(o[p] == old_order[p - 1]);
                }
            }
            assert forall|p: int, q: int| 0 <= p < q < o.len() implies goes_before(kv, ascending, #[trigger] o[p] as int, #[trigger] o[q] as int) by {
                if p < pos && q < pos {
                    assert(o[p] == old_order[p] && o[q] == old_order[q]);
                } else if p < pos && q == pos {
                    assert(o[p] == old_order[p]);
                } else if p < pos {
                    assert(o[p] == old_order[p] && o[q] == old_order[q - 1]);
                } else if p == pos {
                    assert(o[q] == old_order[q - 1]);
                } else {
                    assert(o[p] == old_order[p - 1] && o[q] == old_order[q - 1]);
                }
            }
            assert forall|p: int, q: int| 0 <= p < o.len() && 0 <= q < o.len() && p != q implies o[p] != o[q] by {
                if p != pos && q != pos {
                    let pp = if p < pos { p } else { p - 1 };
                    let qq = if q < pos { q } else { q - 1 };
                    assert(o[p] == old_order[pp] && o[q] == old_order[qq]);
                } else if p == pos {
                    let qq = if q < pos { q } else { q - 1 };
                    assert(o[q] == old_order[qq]);
                } else {
                    let pp = if p < pos { p } else { p - 1 };
                    assert(o[p] == old_order[pp]);
                }
            }
        }
        i = i + 1;
    }
    order
}

/// A text key: the text lowercased, as the lists order names and symbols.
pub fn lowercase_key(s: &str) -> (k: SortKey)
    ensures
        k.view() == KeyView::Text(lowercase_of(s@)),
{
    let lower = to_lowercase(s);
    SortKey::Text(chars_of(lower.as_str()))
}

/// The key a Windows process row is ordered by in sort field `field`: memory
/// and PID by value, the name lowercased; `None` for the CPU share, which is a
/// floating-point value.
pub fn process_sort_key(field: WindowsSortField, pid: u32, memory_bytes: u64, name: &str) -> (k: Option<SortKey>)
    ensures
        match field {
            WindowsSortField::Cpu => k is None,
            WindowsSortField::Memory => k matches Some(x) && x.view() == KeyView::Number(memory_bytes),
            WindowsSortField::Pid => k matches Some(x) && x.view() == KeyView::Number(pid as u64),
            WindowsSortField::Name => k matches Some(x) && x.view() == KeyView::Text(lowercase_of(name@)),
        },
{
    match field {
        WindowsSortField::Cpu => None,
        WindowsSortField::Memory => Some(SortKey::Number(memory_bytes)),
        WindowsSortField::Pid => Some(SortKey::Number(pid as u64)),
        WindowsSortField::Name => Some(lowercase_key(name)),
    }
}

/// The key a coin row is ordered by in sort column `column`: the rank by
/// value, the symbol lowercased; `None` for price, change and volume, which are
/// floating-point values.
pub fn coin_sort_key(column: MarketSortColumn, rank: u32, symbol: &str) -> (k: Option<SortKey>)
    ensures
        match column {
            MarketSortColumn::Rank => k matches Some(x) && x.view() == KeyView::Number(rank as u64),
            MarketSortColumn::Symbol => k matches Some(x) && x.view() == KeyView::Text(lowercase_of(symbol@)),
            _ => k is None,
        },
{
    match column {
        MarketSortColumn::Rank => Some(SortKey::Number(rank as u64)),
        MarketSortColumn::Symbol => Some(lowercase_key(symbol)),
        _ => None,
    }
}

} // verus!
