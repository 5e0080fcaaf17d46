use vstd::prelude::*;

verus! {

/// A story reduced to its id and title.
pub struct NewsItem {
    pub id: u32,
    pub title: String,
}

/// The stories whose id is positive, in their order.
pub open spec fn with_positive_ids(items: Seq<NewsItem>) -> Seq<NewsItem>
    decreases items.len(),
{
    if items.len() == 0 {
        Seq::empty()
    } else {
        let prev = with_positive_ids(items.drop_last());
        if items.last().id > 0 {
            prev.push(items.last())
        } else {
            prev
        }
    }
}

/// Every story with a positive id is kept and no other: nothing is kept of
/// no stories, one more story with a positive id is appended to the kept
/// ones, and one with id 0 changes nothing.
pub proof fn lemma_with_positive_ids_push(items: Seq<NewsItem>, item: NewsItem)
    ensures
        with_positive_ids(Seq::<NewsItem>::empty()) == Seq::<NewsItem>::empty(),
        item.id > 0 ==> with_positive_ids(items.push(item)) == with_positive_ids(items).push(item),
        item.id == 0 ==> with_positive_ids(items.push(item)) == with_positive_ids(items),
{
    assert(items.push(item).drop_last() =~= items);
}

/// When every id is positive, every story is kept, in order.
pub proof fn lemma_all_positive_ids_kept(items: Seq<NewsItem>)
    requires
        forall|i: int| 0 <= i < items.len() ==> #[trigger] items[i].id > 0,
    ensures
        with_positive_ids(items) == items,
    decreases items.len(),
{
    if items.len() > 0 {
        lemma_all_positive_ids_kept(items.drop_last());
        assert(items.drop_last().push(items.last()) =~= items);
    }
}

/// Every kept story has a positive id and is one of the stories.
pub proof fn lemma_kept_have_positive_ids(items: Seq<NewsItem>)
    ensures
        with_positive_ids(items).len() <= items.len(),
        forall|i: int|
            0 <= i < with_positive_ids(items).len() ==> #[trigger] with_positive_ids(items)[i].id > 0
                && items.contains(with_positive_ids(items)[i]),
    decreases items.len(),
{
    if items.len() > 0 {
        let p = items.drop_last();
        lemma_kept_have_positive_ids(p);
        assert forall|i: int| 0 <= i < with_positive_ids(items).len() implies #[trigger] with_positive_ids(
            items,
        )[i].id > 0 && items.contains(with_positive_ids(items)[i]) by {
            if i < with_positive_ids(p).len() {
                let x = with_positive_ids(p)[i];
                assert(with_positive_ids(items)[i] == x);
                assert(x.id > 0 && p.contains(x));
                let j = choose|j: int| 0 <= j < p.len() && p[j] == x;
                assert(items[j] == p[j]);
            } else {
                assert(items[items.len() - 1] == items.last());
            }
        }
    }
}

/// Keeps the stories whose id is positive.
pub fn keep_positive_ids(items: Vec<NewsItem>) -> (r: Vec<NewsItem>)
    ensures
        r@ == with_positive_ids(items@),
{
    let ghost all = items@;
    let mut kept: Vec<NewsItem> = Vec::new();
    for item in it: items.into_iter()
        invariant
            it.seq() == all,
            kept@ == with_positive_ids(all.take(it.index() as int)),
    {
        let ghost i = it.index();
        assert(all.take(i + 1).drop_last() =~= all.take(i as int));
        if item.id > 0 {
            kept.push(item);
        }
    }
    assert(all.take(all.len() as int) =~= all);
    kept
}

} // verus!
