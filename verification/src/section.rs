//! A section of the panel: its rows with a divider between each two of them.

use vstd::prelude::*;

verus! {

/// One child of a section's list.
#[derive(Debug)]
pub enum SectionItem<T> {
    /// A row.
    Row(T),
    /// A faded horizontal divider.
    Divider,
}

/// The items of `s` with `sep` between each two neighbours.
pub open spec fn interspersed<T>(s: Seq<T>, sep: T) -> Seq<T>
    decreases s.len(),
{
    if s.len() <= 1 {
        s
    } else {
        seq![s[0], sep] + interspersed(s.drop_first(), sep)
    }
}

/// The rows `rows`, each wrapped as a section item.
pub open spec fn as_items<T>(rows: Seq<T>) -> Seq<SectionItem<T>> {
    rows.map_values(|r: T| SectionItem::Row(r))
}

/// A divider, made for each gap between two rows.
pub fn divider<T>() -> (res: SectionItem<T>)
    ensures
        res == SectionItem::<T>::Divider,
{
    SectionItem::Divider
}

/// Calls itertools' `intersperse_with`, with `divider` as the element maker, and
/// collects the result. The contract claims what itertools documents: each made
/// element stands between two neighbouring items, and the items keep their order.
#[verifier::external_body]
fn intersperse_with_dividers<T>(items: Vec<SectionItem<T>>) -> (res: Vec<SectionItem<T>>)
    ensures
        res@ == interspersed(items@, SectionItem::<T>::Divider),
{
    itertools::intersperse_with(items.into_iter(), divider::<T>).collect()
}

/// The children of a section that lists `rows`: the rows in order, with a
/// divider between each two.
pub fn section_children<T>(rows: Vec<T>) -> (res: Vec<SectionItem<T>>)
    ensures
        res@ == interspersed(as_items(rows@), SectionItem::<T>::Divider),
{
    let mut items: Vec<SectionItem<T>> = Vec::new();
    let mut rows = rows;
    let ghost all = rows@;
    while rows.len() > 0
        invariant
            rows@ == all.skip(items@.len() as int),
            items@.len() <= all.len(),
            items@ == as_items(all.take(items@.len() as int)),
        decreases rows@.len(),
    {
        let row = rows.remove(0);
        proof {
            assert(all.take(items@.len() as int + 1) =~= all.take(items@.len() as int).push(row));
        }
        items.push(SectionItem::Row(row));
        assert(items@ =~= as_items(all.take(items@.len() as int)));
        assert(rows@ =~= all.skip(items@.len() as int));
    }
    assert(all.take(all.len() as int) =~= all);
    intersperse_with_dividers(items)
}

/// The interspersed sequence holds the items at even positions and the
/// separator at odd positions, and is one shorter than twice the items.
pub proof fn lemma_interspersed<T>(s: Seq<T>, sep: T)
    ensures
        s.len() == 0 ==> interspersed(s, sep).len() == 0,
        s.len() > 0 ==> interspersed(s, sep).len() == 2 * s.len() - 1,
        forall|k: int| 0 <= k < s.len() ==> #[trigger] interspersed(s, sep)[2 * k] == s[k],
        forall|k: int| 0 <= k < s.len() - 1 ==> #[trigger] interspersed(s, sep)[2 * k + 1] == sep,
    decreases s.len(),
{
    if s.len() > 1 {
        let t = s.drop_first();
        lemma_interspersed(t, sep);
        let r = interspersed(s, sep);
        assert forall|k: int| 0 <= k < s.len() implies #[trigger] r[2 * k] == s[k] by {
            if k > 0 {
                assert(r[2 * k] == interspersed(t, sep)[2 * (k - 1)]);
            }
        }
        assert forall|k: int| 0 <= k < s.len() - 1 implies #[trigger] r[2 * k + 1] == sep by {
            if k > 0 {
                assert(r[2 * k + 1] == interspersed(t, sep)[2 * (k - 1) + 1]);
            }
        }
    }
}

/// Two lists agree: same length, dividers at the same places, and rows at the
/// same places that `same` relates.
pub open spec fn items_agree<T>(
    items1: Seq<SectionItem<T>>,
    items2: Seq<SectionItem<T>>,
    same: spec_fn(T, T) -> bool,
) -> bool {
    &&& items1.len() == items2.len()
    &&& forall|p: int|
        0 <= p < items1.len() ==> match (#[trigger] items1[p], items2[p]) {
            (SectionItem::Row(a), SectionItem::Row(b)) => same(a, b),
            (SectionItem::Divider, SectionItem::Divider) => true,
            _ => false,
        }
}

/// Rows that agree position by position give sections that agree.
pub proof fn lemma_interspersed_agree<T>(rows1: Seq<T>, rows2: Seq<T>, same: spec_fn(T, T) -> bool)
    requires
        rows1.len() == rows2.len(),
        forall|k: int| 0 <= k < rows1.len() ==> same(#[trigger] rows1[k], rows2[k]),
    ensures
        items_agree(
            interspersed(as_items(rows1), SectionItem::Divider),
            interspersed(as_items(rows2), SectionItem::Divider),
            same,
        ),
{
    let a1 = as_items(rows1);
    let a2 = as_items(rows2);
    let i1 = interspersed(a1, SectionItem::Divider);
    let i2 = interspersed(a2, SectionItem::Divider);
    lemma_interspersed(a1, SectionItem::Divider);
    lemma_interspersed(a2, SectionItem::Divider);
    assert forall|p: int| 0 <= p < i1.len() implies match (#[trigger] i1[p], i2[p]) {
        (SectionItem::Row(a), SectionItem::Row(b)) => same(a, b),
        (SectionItem::Divider, SectionItem::Divider) => true,
        _ => false,
    } by {
        let k = p / 2;
        if p % 2 == 0 {
            assert(p == 2 * k);
            assert(i1[2 * k] == a1[k]);
            assert(i2[2 * k] == a2[k]);
            assert(same(rows1[k], rows2[k]));
        } else {
            assert(p == 2 * k + 1);
            assert(i1[2 * k + 1] == SectionItem::<T>::Divider);
            assert(i2[2 * k + 1] == SectionItem::<T>::Divider);
        }
    }
}

} // verus!
