//! What has changed in the rows of the cache since they were last written out.
//!
//! Who keeps the rows on disk keeps them by the identifier of the feed. To bring what is
//! written up to the rows of the cache, a row is deleted where its feed is gone, and
//! written anew where it is not written as it stands.

use crate::rows::{EntryRow, FeedRow, FeedRowView};
use vstd::prelude::*;

verus! {

/// One change of what is written.
#[derive(Debug, PartialEq, Eq)]
pub enum RowChange {
    /// Delete the row of this identifier, with its entries.
    Delete(i64),
    /// Write this row in place of the row of its identifier, with its entries.
    Write(FeedRow),
}

/// The value of a [`RowChange`].
pub enum RowChangeView {
    Delete(int),
    Write(FeedRowView),
}

impl View for RowChange {
    type V = RowChangeView;

    open spec fn view(&self) -> RowChangeView {
        match self {
            RowChange::Delete(id) => RowChangeView::Delete(*id as int),
            RowChange::Write(row) => RowChangeView::Write(row@),
        }
    }
}

impl DeepView for RowChange {
    type V = RowChangeView;

    open spec fn deep_view(&self) -> RowChangeView {
        self@
    }
}

/// The rows as they are kept: by identifier. Of two rows of one identifier the later is
/// the one kept.
pub open spec fn table(rows: Seq<FeedRowView>) -> Map<int, FeedRowView>
    decreases rows.len(),
{
    if rows.len() == 0 {
        Map::empty()
    } else {
        table(rows.drop_last()).insert(rows.last().id, rows.last())
    }
}

/// What is kept after one change.
pub open spec fn changed(kept: Map<int, FeedRowView>, change: RowChangeView) -> Map<
    int,
    FeedRowView,
> {
    match change {
        RowChangeView::Delete(id) => kept.remove(id),
        RowChangeView::Write(row) => kept.insert(row.id, row),
    }
}

/// What is kept after the changes `changes`, one after the other.
pub open spec fn applied(kept: Map<int, FeedRowView>, changes: Seq<RowChangeView>) -> Map<
    int,
    FeedRowView,
>
    decreases changes.len(),
{
    if changes.len() == 0 {
        kept
    } else {
        changed(applied(kept, changes.drop_last()), changes.last())
    }
}

/// The identifiers of `rows`.
pub open spec fn ids(rows: Seq<FeedRowView>) -> Set<int> {
    Set::new(|id: int| exists|k: int| 0 <= k < rows.len() && (#[trigger] rows[k]).id == id)
}

/// Whether `row` is kept as it stands where `written` is kept.
pub open spec fn stands(written: Seq<FeedRowView>, row: FeedRowView) -> bool {
    table(written).dom().contains(row.id) && table(written)[row.id] == row
}

/// The deletions that bring `written` to `rows`: of each row of `written`, in their
/// order, whose identifier no row of `rows` has.
pub open spec fn deletions(written: Seq<FeedRowView>, rows: Seq<FeedRowView>) -> Seq<
    RowChangeView,
>
    decreases written.len(),
{
    if written.len() == 0 {
        Seq::empty()
    } else if ids(rows).contains(written.last().id) {
        deletions(written.drop_last(), rows)
    } else {
        deletions(written.drop_last(), rows).push(RowChangeView::Delete(written.last().id))
    }
}

/// The writes that bring `written` to the first `n` of `rows`: of each of these rows, in
/// their order, that is not kept as it stands, or comes after a row of its identifier.
pub open spec fn writes(written: Seq<FeedRowView>, rows: Seq<FeedRowView>, n: int) -> Seq<
    RowChangeView,
>
    decreases n,
{
    if n <= 0 {
        Seq::empty()
    } else if ids(rows.take(n - 1)).contains(rows[n - 1].id) || !stands(written, rows[n - 1]) {
        writes(written, rows, n - 1).push(RowChangeView::Write(rows[n - 1]))
    } else {
        writes(written, rows, n - 1)
    }
}

/// The changes that bring `written` to `rows`: the deletions, then the writes.
pub open spec fn changes_of(written: Seq<FeedRowView>, rows: Seq<FeedRowView>) -> Seq<
    RowChangeView,
> {
    deletions(written, rows) + writes(written, rows, rows.len() as int)
}

/// The rows are kept under their identifiers, and none else.
pub proof fn lemma_table_ids(rows: Seq<FeedRowView>)
    ensures
        table(rows).dom() == ids(rows),
    decreases rows.len(),
{
    if rows.len() > 0 {
        lemma_table_ids(rows.drop_last());
        assert forall|id: int| table(rows).dom().contains(id) <==> ids(rows).contains(id) by {
            if table(rows).dom().contains(id) {
                if id == rows.last().id {
                    assert(rows[rows.len() - 1].id == id);
                } else {
                    let k = choose|k: int|
                        0 <= k < rows.drop_last().len() && (#[trigger] rows.drop_last()[k]).id
                            == id;
                    assert(rows[k].id == id);
                }
            }
            if ids(rows).contains(id) {
                let k = choose|k: int| 0 <= k < rows.len() && (#[trigger] rows[k]).id == id;
                if k < rows.len() - 1 {
                    assert(rows.drop_last()[k].id == id);
                }
            }
        }
        assert(table(rows).dom() =~= ids(rows));
    } else {
        assert(table(rows).dom() =~= ids(rows));
    }
}

/// Of the rows of one identifier the last is the one kept.
pub proof fn lemma_table_last(rows: Seq<FeedRowView>, k: int)
    requires
        0 <= k < rows.len(),
        forall|j: int| k < j < rows.len() ==> (#[trigger] rows[j]).id != rows[k].id,
    ensures
        table(rows).dom().contains(rows[k].id),
        table(rows)[rows[k].id] == rows[k],
    decreases rows.len(),
{
    if k < rows.len() - 1 {
        assert(rows[rows.len() - 1].id != rows[k].id);
        assert forall|j: int| k < j < rows.drop_last().len() implies (
        #[trigger] rows.drop_last()[j]).id != rows.drop_last()[k].id by {
            assert(rows[j].id != rows[k].id);
        }
        lemma_table_last(rows.drop_last(), k);
    }
}

/// Whether two entry rows hold the same.
pub fn same_entry_row(a: &EntryRow, b: &EntryRow) -> (r: bool)
    ensures
        r == (a@ == b@),
{
    let published = match (&a.published, &b.published) {
        (Some(x), Some(y)) => *x == *y,
        (None, None) => true,
        _ => false,
    };
    a.title == b.title && published && a.text == b.text && a.links == b.links && a.media
        == b.media && a.read == b.read
}

/// Whether two rows hold the same: the same feed with the same entries in the same
/// order.
pub fn same_row(a: &FeedRow, b: &FeedRow) -> (r: bool)
    ensures
        r == (a@ == b@),
{
    let tags = match (&a.tags, &b.tags) {
        (Some(x), Some(y)) => *x == *y,
        (None, None) => true,
        _ => false,
    };
    if !(a.id == b.id && a.url == b.url && a.title == b.title && a.last_fetched == b.last_fetched
        && tags && a.position == b.position && a.entries.len() == b.entries.len()) {
        assert(a@.entries.len() == a.entries.len() && b@.entries.len() == b.entries.len());
        return false;
    }
    let mut i: usize = 0;
    while i < a.entries.len()
        invariant
            i <= a.entries.len(),
            a.entries.len() == b.entries.len(),
            forall|k: int| 0 <= k < i ==> (#[trigger] a@.entries[k]) == b@.entries[k],
        decreases a.entries.len() - i,
    {
        assert(a@.entries[i as int] == a.entries[i as int]@);
        assert(b@.entries[i as int] == b.entries[i as int]@);
        if !same_entry_row(&a.entries[i], &b.entries[i]) {
            return false;
        }
        i += 1;
    }
    assert(a@.entries =~= b@.entries);
    true
}

/// Whether one of `rows` has the identifier `id`.
fn has_id(rows: &Vec<FeedRow>, id: i64) -> (r: bool)
    ensures
        r == ids(rows.deep_view()).contains(id as int),
{
    let mut k: usize = 0;
    while k < rows.len()
        invariant
            k <= rows.len(),
            forall|j: int| 0 <= j < k ==> (#[trigger] rows.deep_view()[j]).id != id,
        decreases rows.len() - k,
    {
        assert(rows.deep_view()[k as int] == rows[k as int]@);
        if rows[k].id == id {
            return true;
        }
        k += 1;
    }
    false
}

/// Whether `row` is kept as it stands by who keeps `written`.
fn is_written(written: &Vec<FeedRow>, row: &FeedRow) -> (r: bool)
    ensures
        r == stands(written.deep_view(), row@),
{
    let ghost all = written.deep_view();
    let mut k: usize = written.len();
    while k > 0
        invariant
            k <= written.len(),
            all == written.deep_view(),
            forall|j: int| k <= j < all.len() ==> (#[trigger] all[j]).id != row@.id,
        decreases k,
    {
        k -= 1;
        assert(all[k as int] == written[k as int]@);
        if written[k].id == row.id {
            proof {
                lemma_table_last(all, k as int);
            }
            return same_row(&written[k], row);
        }
    }
    proof {
        lemma_table_ids(all);
    }
    false
}

/// What is to change in what is written so that it holds the rows `rows`, where it
/// holds the rows `written` now: a row of `written` is deleted where `rows` has none of
/// its identifier, and then each row of `rows` is written that is not kept as it stands.
/// Once the changes are made, what is kept is `rows`.
pub fn changes(written: &Vec<FeedRow>, rows: &Vec<FeedRow>) -> (r: Vec<RowChange>)
    ensures
        r.deep_view() == changes_of(written.deep_view(), rows.deep_view()),
        applied(table(written.deep_view()), r.deep_view()) == table(rows.deep_view()),
{
    let ghost was = table(written.deep_view());
    let ghost now = table(rows.deep_view());
    let ghost old_rows = written.deep_view();
    let ghost new_rows = rows.deep_view();
    let mut r: Vec<RowChange> = Vec::new();
    proof {
        lemma_table_ids(old_rows);
        lemma_table_ids(new_rows);
    }
    let mut k: usize = 0;
    while k < written.len()
        invariant
            k <= written.len(),
            old_rows == written.deep_view(),
            new_rows == rows.deep_view(),
            was == table(old_rows),
            now == table(new_rows),
            was.dom() == ids(old_rows),
            now.dom() == ids(new_rows),
            r.deep_view() == deletions(old_rows.take(k as int), new_rows),
            applied(was, r.deep_view()) == was.remove_keys(
                Set::new(
                    |id: int|
                        !now.dom().contains(id) && exists|j: int|
                            0 <= j < k && (#[trigger] old_rows[j]).id == id,
                ),
            ),
        decreases written.len() - k,
    {
        let ghost before = r.deep_view();
        let ghost gone = Set::new(
            |id: int|
                !now.dom().contains(id) && exists|j: int|
                    0 <= j < k && (#[trigger] old_rows[j]).id == id,
        );
        let ghost gone_next = Set::new(
            |id: int|
                !now.dom().contains(id) && exists|j: int|
                    0 <= j < k + 1 && (#[trigger] old_rows[j]).id == id,
        );
        assert(old_rows[k as int] == written[k as int]@);
        proof {
            assert(old_rows.take(k + 1).drop_last() =~= old_rows.take(k as int));
            assert(old_rows.take(k + 1).last() == old_rows[k as int]);
        }
        let id = written[k].id;
        if !has_id(rows, id) {
            let change = RowChange::Delete(id);
            r.push(change);
            proof {
                assert(r.deep_view() =~= before.push(change@));
                assert(r.deep_view().drop_last() =~= before);
                assert(gone_next =~= gone.insert(id as int)) by {
                    assert forall|x: int| gone_next.contains(x) <==> gone.insert(
                        id as int,
                    ).contains(x) by {
                        if gone_next.contains(x) && x != id {
                            let j = choose|j: int|
                                0 <= j < k + 1 && (#[trigger] old_rows[j]).id == x;
                            assert(j < k);
                        }
                        if gone.contains(x) {
                            let j = choose|j: int| 0 <= j < k && (#[trigger] old_rows[j]).id == x;
                            assert(0 <= j < k + 1);
                        }
                    }
                }
                assert(was.remove_keys(gone).remove(id as int) =~= was.remove_keys(gone_next));
            }
        } else {
            proof {
                assert(gone_next =~= gone) by {
                    assert forall|x: int| gone_next.contains(x) <==> gone.contains(x) by {
                        if gone_next.contains(x) {
                            let j = choose|j: int|
                                0 <= j < k + 1 && (#[trigger] old_rows[j]).id == x;
                            assert(j < k);
                        }
                        if gone.contains(x) {
                            let j = choose|j: int| 0 <= j < k && (#[trigger] old_rows[j]).id == x;
                            assert(0 <= j < k + 1);
                        }
                    }
                }
            }
        }
        k += 1;
    }
    let ghost left = applied(was, r.deep_view());
    let ghost deleted = r.deep_view();
    proof {
        assert(old_rows.take(old_rows.len() as int) =~= old_rows);
        assert(deleted + writes(old_rows, new_rows, 0) =~= deleted);
        assert(new_rows.take(0) =~= Seq::<FeedRowView>::empty());
        assert(left.union_prefer_right(table(new_rows.take(0))) =~= left);
        assert forall|id: int| left.dom().contains(id) implies now.dom().contains(id) by {
            if !now.dom().contains(id) {
                let j = choose|j: int| 0 <= j < old_rows.len() && (#[trigger] old_rows[j]).id == id;
                assert(0 <= j < k);
            }
        }
    }
    let mut i: usize = 0;
    while i < rows.len()
        invariant
            i <= rows.len(),
            old_rows == written.deep_view(),
            new_rows == rows.deep_view(),
            was == table(old_rows),
            now == table(new_rows),
            now.dom() == ids(new_rows),
            forall|id: int| left.dom().contains(id) ==> now.dom().contains(id),
            forall|id: int|
                was.dom().contains(id) && now.dom().contains(id) ==> left.dom().contains(id)
                    && left[id] == was[id],
            deleted == deletions(old_rows, new_rows),
            r.deep_view() == deleted + writes(old_rows, new_rows, i as int),
            applied(was, r.deep_view()) == left.union_prefer_right(table(new_rows.take(i as int))),
        decreases rows.len() - i,
    {
        let ghost before = r.deep_view();
        let ghost so_far = table(new_rows.take(i as int));
        let row = &rows[i];
        proof {
            assert(new_rows[i as int] == row@);
            assert(new_rows.take(i + 1).drop_last() =~= new_rows.take(i as int));
            assert(new_rows.take(i + 1).last() == row@);
            lemma_table_ids(new_rows.take(i as int));
        }
        let mut earlier = false;
        let mut j: usize = 0;
        while j < i
            invariant
                j <= i < rows.len(),
                new_rows == rows.deep_view(),
                earlier == exists|m: int|
                    0 <= m < j && (#[trigger] new_rows[m]).id == new_rows[i as int].id,
            decreases i - j,
        {
            assert(new_rows[j as int] == rows[j as int]@);
            assert(new_rows[i as int] == rows[i as int]@);
            if rows[j].id == rows[i].id {
                earlier = true;
            }
            j += 1;
        }
        proof {
            if earlier {
                let m = choose|m: int| 0 <= m < i && (#[trigger] new_rows[m]).id == row@.id;
                assert(new_rows.take(i as int)[m].id == row@.id);
            } else if so_far.dom().contains(row@.id) {
                let m = choose|m: int|
                    0 <= m < new_rows.take(i as int).len() && (#[trigger] new_rows.take(
                        i as int,
                    )[m]).id == row@.id;
                assert(new_rows[m].id == row@.id);
            }
            assert(earlier == so_far.dom().contains(row@.id));
            assert(now.dom().contains(row@.id));
        }
        if earlier || !is_written(written, row) {
            let change = RowChange::Write(row.clone());
            r.push(change);
            proof {
                assert(r.deep_view() =~= before.push(change@));
                assert(r.deep_view().drop_last() =~= before);
                assert(r.deep_view() =~= deleted + writes(old_rows, new_rows, i + 1));
                assert(left.union_prefer_right(so_far).insert(row@.id, row@)
                    =~= left.union_prefer_right(so_far.insert(row@.id, row@)));
            }
        } else {
            proof {
                assert(left.union_prefer_right(so_far) =~= left.union_prefer_right(
                    so_far.insert(row@.id, row@),
                ));
            }
        }
        i += 1;
    }
    proof {
        assert(new_rows.take(new_rows.len() as int) =~= new_rows);
        assert(left.union_prefer_right(now) =~= now);
    }
    r
}

} // verus!
