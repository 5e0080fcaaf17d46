use vstd::prelude::*;
use crate::error::AppError;
use crate::news::{
    HnItem, HnItemView, NewsItem, NewsItemView, is_devops, is_devops_title, news_views,
    to_news_view,
};

verus! {

/// At most this many of the top stories are looked at for DevOps news.
pub const MAX_SCANNED_STORIES: usize = 200;

/// What a collection is after.
pub enum FetchKind {
    /// The first `n` top stories.
    Top { n: usize },
    /// The first `limit` DevOps stories among the first `MAX_SCANNED_STORIES` top stories.
    Devops { limit: usize },
}

/// Which reply a collection is waiting for.
pub enum FetchPhase {
    AwaitingStories,
    AwaitingItem,
    Finished,
}

/// What the caller is to do next.
pub enum FetchAction {
    /// Request the list of top story ids.
    GetStories,
    /// Request the story with this id.
    GetItem(u32),
    /// The collection is complete; these are the stories, in order.
    Done(Vec<NewsItem>),
}

/// How many of the `available` top story ids a collection looks at.
pub open spec fn scan_len_for(kind: FetchKind, available: nat) -> nat {
    match kind {
        FetchKind::Top { n } => if n < available { n as nat } else { available },
        FetchKind::Devops { .. } => if MAX_SCANNED_STORIES < available {
            MAX_SCANNED_STORIES as nat
        } else {
            available
        },
    }
}

/// The DevOps stories among the received items, in the order received.
pub open spec fn devops_selection(received: Seq<HnItemView>) -> Seq<NewsItemView>
    decreases received.len(),
{
    if received.len() == 0 {
        Seq::empty()
    } else {
        let prev = devops_selection(received.drop_last());
        let item = to_news_view(received.last());
        if is_devops_title(item.title) {
            prev.push(item)
        } else {
            prev
        }
    }
}

/// Every received item, as published.
pub open spec fn top_selection(received: Seq<HnItemView>) -> Seq<NewsItemView> {
    received.map_values(|h: HnItemView| to_news_view(h))
}

/// The stories that a collection of the given kind has gathered from the received items.
pub open spec fn selection(kind: FetchKind, received: Seq<HnItemView>) -> Seq<NewsItemView> {
    match kind {
        FetchKind::Top { .. } => top_selection(received),
        FetchKind::Devops { .. } => devops_selection(received),
    }
}

/// Whether a collection that scans `scan_len` ids and has received these items
/// requests one more item.
pub open spec fn more_needed(kind: FetchKind, scan_len: nat, received: Seq<HnItemView>) -> bool {
    &&& received.len() < scan_len
    &&& match kind {
        FetchKind::Top { .. } => true,
        FetchKind::Devops { limit } => devops_selection(received).len() < limit,
    }
}

/// Each item was requested while more were needed: the history of a collection.
pub open spec fn history_ok(kind: FetchKind, scan_len: nat, received: Seq<HnItemView>) -> bool {
    &&& received.len() <= scan_len
    &&& forall|j: int|
        0 <= j < received.len() ==> more_needed(kind, scan_len, #[trigger] received.take(j))
}

/// The first `n` elements of `s`, or all of them when there are fewer.
pub open spec fn first_n<A>(s: Seq<A>, n: nat) -> Seq<A> {
    if s.len() <= n {
        s
    } else {
        s.take(n as int)
    }
}

/// The state of one collection of stories: which ids it scans, what it has
/// received and gathered so far.
pub struct NewsFetch {
    kind: FetchKind,
    phase: FetchPhase,
    scan: Vec<u32>,
    cursor: usize,
    results: Vec<NewsItem>,
    received: Ghost<Seq<HnItemView>>,
}

impl NewsFetch {
    pub closed spec fn kind_of(self) -> FetchKind {
        self.kind
    }

    pub closed spec fn phase_of(self) -> FetchPhase {
        self.phase
    }

    /// The top story ids that the collection looks at, in order.
    pub closed spec fn scan_ids(self) -> Seq<u32> {
        self.scan@
    }

    /// The items received so far, in the order they were requested.
    pub closed spec fn received(self) -> Seq<HnItemView> {
        self.received@
    }

    pub closed spec fn wf(self) -> bool {
        &&& self.cursor == self.received@.len()
        &&& match self.phase {
            FetchPhase::AwaitingStories => {
                &&& self.scan@.len() == 0
                &&& self.received@.len() == 0
                &&& self.results@.len() == 0
            },
            FetchPhase::AwaitingItem => {
                &&& history_ok(self.kind, self.scan@.len() as nat, self.received@)
                &&& more_needed(self.kind, self.scan@.len() as nat, self.received@)
                &&& news_views(self.results@) == selection(self.kind, self.received@)
            },
            FetchPhase::Finished => history_ok(self.kind, self.scan@.len() as nat, self.received@),
        }
    }

    /// The action fits the state: the next item id while more are needed,
    /// else the gathered stories.
    pub open spec fn action_fits(self, a: FetchAction) -> bool {
        if more_needed(self.kind_of(), self.scan_ids().len(), self.received()) {
            &&& self.phase_of() == FetchPhase::AwaitingItem
            &&& a == FetchAction::GetItem(self.scan_ids()[self.received().len() as int])
        } else {
            &&& self.phase_of() == FetchPhase::Finished
            &&& match a {
                FetchAction::Done(items) => news_views(items@) == selection(
                    self.kind_of(),
                    self.received(),
                ),
                _ => false,
            }
        }
    }

    /// Starts collecting the first `n` top stories.
    pub fn top(n: usize) -> (r: (NewsFetch, FetchAction))
        ensures
            r.0.wf(),
            r.0.kind_of() == (FetchKind::Top { n }),
            r.0.phase_of() == FetchPhase::AwaitingStories,
            r.1 == FetchAction::GetStories,
    {
        let s = NewsFetch {
            kind: FetchKind::Top { n },
            phase: FetchPhase::AwaitingStories,
            scan: Vec::new(),
            cursor: 0,
            results: Vec::new(),
            received: Ghost(Seq::empty()),
        };
        (s, FetchAction::GetStories)
    }

    /// Starts collecting the first `limit` DevOps stories among the top stories.
    pub fn devops(limit: usize) -> (r: (NewsFetch, FetchAction))
        ensures
            r.0.wf(),
            r.0.kind_of() == (FetchKind::Devops { limit }),
            r.0.phase_of() == FetchPhase::AwaitingStories,
            r.1 == FetchAction::GetStories,
    {
        let s = NewsFetch {
            kind: FetchKind::Devops { limit },
            phase: FetchPhase::AwaitingStories,
            scan: Vec::new(),
            cursor: 0,
            results: Vec::new(),
            received: Ghost(Seq::empty()),
        };
        (s, FetchAction::GetStories)
    }

    /// Requests the next item, or hands out the gathered stories.
    fn decide(self) -> (r: (NewsFetch, FetchAction))
        requires
            self.cursor == self.received@.len(),
            history_ok(self.kind, self.scan@.len() as nat, self.received@),
            news_views(self.results@) == selection(self.kind, self.received@),
        ensures
            r.0.wf(),
            r.0.kind_of() == self.kind,
            r.0.scan_ids() == self.scan@,
            r.0.received() == self.received@,
            history_ok(r.0.kind_of(), r.0.scan_ids().len(), r.0.received()),
            r.0.action_fits(r.1),
    {
        let more = self.cursor < self.scan.len() && match &self.kind {
            FetchKind::Top { .. } => true,
            FetchKind::Devops { limit } => self.results.len() < *limit,
        };
        if more {
            let id = self.scan[self.cursor];
            let s = NewsFetch { phase: FetchPhase::AwaitingItem, ..self };
            (s, FetchAction::GetItem(id))
        } else {
            let s = NewsFetch {
                kind: self.kind,
                phase: FetchPhase::Finished,
                scan: self.scan,
                cursor: self.cursor,
                results: Vec::new(),
                received: self.received,
            };
            (s, FetchAction::Done(self.results))
        }
    }

    /// The list of top story ids arrived.
    pub fn on_stories(self, ids: Vec<u32>) -> (r: (NewsFetch, FetchAction))
        requires
            self.wf(),
            self.phase_of() == FetchPhase::AwaitingStories,
        ensures
            r.0.wf(),
            r.0.kind_of() == self.kind_of(),
            r.0.scan_ids() == ids@.take(scan_len_for(self.kind_of(), ids@.len()) as int),
            r.0.received() == Seq::<HnItemView>::empty(),
            history_ok(r.0.kind_of(), r.0.scan_ids().len(), r.0.received()),
            r.0.action_fits(r.1),
    {
        let available = ids.len();
        let bound: usize = match &self.kind {
            FetchKind::Top { n } => if *n < available { *n } else { available },
            FetchKind::Devops { .. } => if MAX_SCANNED_STORIES < available {
                MAX_SCANNED_STORIES
            } else {
                available
            },
        };
        let mut scan = ids;
        scan.truncate(bound);
        let s = NewsFetch { scan, ..self };
        proof {
            assert(news_views(s.results@) =~= selection(s.kind, s.received@));
        }
        s.decide()
    }

    /// The item that the last action asked for arrived.
    pub fn on_item(self, item: HnItem) -> (r: (NewsFetch, FetchAction))
        requires
            self.wf(),
            self.phase_of() == FetchPhase::AwaitingItem,
        ensures
            r.0.wf(),
            r.0.kind_of() == self.kind_of(),
            r.0.scan_ids() == self.scan_ids(),
            r.0.received() == self.received().push(item@),
            history_ok(r.0.kind_of(), r.0.scan_ids().len(), r.0.received()),
            r.0.action_fits(r.1),
    {
        let ghost old_received = self.received@;
        let ghost new_received = old_received.push(item@);
        let ghost scan_len = self.scan@.len() as nat;
        assert(more_needed(self.kind, scan_len, old_received));
        assert(news_views(self.results@) == selection(self.kind, old_received));
        assert(self.cursor < self.scan@.len());
        assert(self.scan@.len() == self.scan.len());
        let next_cursor = self.cursor + 1;
        let NewsFetch { kind, phase, scan, mut results, .. } = self;
        let ghost old_results = results@;
        let news = NewsItem::from_hn_item(item);
        match &kind {
            FetchKind::Top { .. } => {
                results.push(news);
                proof {
                    assert(news_views(old_results) == top_selection(old_received));
                    assert(news_views(results@) =~= top_selection(new_received)) by {
                        assert forall|i: int| 0 <= i < new_received.len() implies news_views(
                            results@,
                        )[i] == top_selection(new_received)[i] by {
                            if i < old_received.len() {
                                assert(results@[i] == old_results[i]);
                                assert(news_views(results@)[i] == news_views(old_results)[i]);
                                assert(top_selection(new_received)[i] == top_selection(
                                    old_received,
                                )[i]);
                            }
                        }
                    }
                }
            },
            FetchKind::Devops { .. } => {
                let keep = is_devops(news.title.as_str());
                assert(new_received.drop_last() =~= old_received);
                if keep {
                    results.push(news);
                    assert(news_views(results@) =~= news_views(old_results).push(news@));
                }
            },
        }
        proof {
            assert forall|j: int| 0 <= j < new_received.len() implies more_needed(
                kind,
                scan_len,
                #[trigger] new_received.take(j),
            ) by {
                if j < old_received.len() {
                    assert(new_received.take(j) =~= old_received.take(j));
                } else {
                    assert(new_received.take(j) =~= old_received);
                }
            }
        }
        let s = NewsFetch {
            kind,
            phase,
            scan,
            cursor: next_cursor,
            results,
            received: Ghost(new_received),
        };
        s.decide()
    }

    /// A request failed: the collection ends with an internal error carrying the message.
    pub fn on_failure(self, message: String) -> (r: AppError)
        ensures
            r == AppError::Internal(message),
    {
        AppError::Internal(message)
    }
}

/// The scan looks at the leading top story ids only: no more than there are,
/// the first `n` of them when collecting top stories, and at most
/// `MAX_SCANNED_STORIES` when collecting DevOps stories.
pub proof fn lemma_scan_bounds(kind: FetchKind, available: nat)
    ensures
        scan_len_for(kind, available) <= available,
        kind matches FetchKind::Top { n } ==> scan_len_for(kind, available) == if n < available {
            n as nat
        } else {
            available
        },
        kind matches FetchKind::Devops { .. } ==> scan_len_for(kind, available)
            <= MAX_SCANNED_STORIES,
        MAX_SCANNED_STORIES == 200,
        kind matches FetchKind::Devops { .. } ==> scan_len_for(kind, available) == if available
            <= 200 {
            available
        } else {
            200
        },
{
}

/// A DevOps collection scans the same ids whatever its limit: the first 200
/// of the received list, or all of them when there are fewer.
pub proof fn lemma_devops_scan_ignores_limit(limit1: usize, limit2: usize, available: nat)
    ensures
        scan_len_for(FetchKind::Devops { limit: limit1 }, available) == scan_len_for(
            FetchKind::Devops { limit: limit2 },
            available,
        ),
        available <= 200 ==> scan_len_for(FetchKind::Devops { limit: limit1 }, available)
            == available,
        available > 200 ==> scan_len_for(FetchKind::Devops { limit: limit1 }, available) == 200,
{
}

/// A top-stories collection publishes every received item, one story per
/// item and in the same position: same id and url, the item's title, author
/// and score where present, and `""`, `""`, 0 where absent.
pub proof fn lemma_top_selection_publishes_each_item(received: Seq<HnItemView>)
    ensures
        top_selection(received).len() == received.len(),
        forall|i: int|
            0 <= i < received.len() ==> {
                let story = #[trigger] top_selection(received)[i];
                let h = received[i];
                &&& story == to_news_view(h)
                &&& story.id == h.id
                &&& story.url == h.url
                &&& (h.title matches Some(t) ==> story.title == t)
                &&& (h.title is None ==> story.title == Seq::<char>::empty())
                &&& (h.by matches Some(a) ==> story.author == a)
                &&& (h.by is None ==> story.author == Seq::<char>::empty())
                &&& (h.score matches Some(x) ==> story.score == x)
                &&& (h.score is None ==> story.score == 0)
            },
{
}

/// Receiving one more item adds it, published, at the end of a top-stories
/// selection.
pub proof fn lemma_top_selection_push(received: Seq<HnItemView>, h: HnItemView)
    ensures
        top_selection(received.push(h)) == top_selection(received).push(to_news_view(h)),
{
    assert(top_selection(received.push(h)) =~= top_selection(received).push(to_news_view(h)));
}

/// Receiving one more item adds it, published, at the end of a DevOps
/// selection exactly when its title is DevOps-related; otherwise the
/// selection is unchanged. Nothing is selected from no items.
pub proof fn lemma_devops_selection_push(received: Seq<HnItemView>, h: HnItemView)
    ensures
        devops_selection(Seq::<HnItemView>::empty()) == Seq::<NewsItemView>::empty(),
        is_devops_title(to_news_view(h).title) ==> devops_selection(received.push(h))
            == devops_selection(received).push(to_news_view(h)),
        !is_devops_title(to_news_view(h).title) ==> devops_selection(received.push(h))
            == devops_selection(received),
{
    assert(received.push(h).drop_last() =~= received);
}

/// When a collection wants another item: a top-stories collection while
/// fewer items than scanned ids have arrived; a DevOps collection while that
/// holds and it has gathered fewer than `limit` stories.
pub proof fn lemma_more_needed_exactly(kind: FetchKind, scan_len: nat, received: Seq<HnItemView>)
    ensures
        kind matches FetchKind::Top { .. } ==> (more_needed(kind, scan_len, received) <==> received.len()
            < scan_len),
        kind matches FetchKind::Devops { limit } ==> (more_needed(kind, scan_len, received) <==> (
        received.len() < scan_len && devops_selection(received).len() < limit)),
{
}

/// One more received item adds at most one story to the DevOps selection.
proof fn lemma_devops_selection_step(stories: Seq<HnItemView>, m: int)
    requires
        0 < m <= stories.len(),
    ensures
        devops_selection(stories.take(m)) == devops_selection(stories.take(m - 1))
            || devops_selection(stories.take(m)) == devops_selection(stories.take(m - 1)).push(
            to_news_view(stories[m - 1]),
        ),
{
    assert(stories.take(m).drop_last() =~= stories.take(m - 1));
}

/// The DevOps selection of a shorter prefix is a prefix of that of a longer one.
proof fn lemma_devops_selection_prefix(stories: Seq<HnItemView>, j: int, m: int)
    requires
        0 <= j <= m <= stories.len(),
    ensures
        devops_selection(stories.take(j)).len() <= devops_selection(stories.take(m)).len(),
        devops_selection(stories.take(m)).take(devops_selection(stories.take(j)).len() as int)
            == devops_selection(stories.take(j)),
    decreases m - j,
{
    if j < m {
        lemma_devops_selection_prefix(stories, j, m - 1);
        lemma_devops_selection_step(stories, m);
        let small = devops_selection(stories.take(j));
        let mid = devops_selection(stories.take(m - 1));
        let big = devops_selection(stories.take(m));
        if big != mid {
            assert(big.take(small.len() as int) =~= mid.take(small.len() as int));
        }
    } else {
        let sel = devops_selection(stories.take(j));
        assert(sel.take(sel.len() as int) =~= sel);
    }
}

/// The DevOps collection returns the first `limit` DevOps stories among the
/// scanned ones, whatever the stories after the last requested one are: if
/// the items received are the first `k` of `stories`, each requested while more
/// were needed, and no more are needed, then what was gathered is the first
/// `limit` DevOps stories of all of `stories` (all of them when there are fewer).
pub proof fn lemma_devops_collects_first_matches(limit: usize, stories: Seq<HnItemView>, k: int)
    requires
        0 <= k <= stories.len(),
        history_ok(FetchKind::Devops { limit }, stories.len(), stories.take(k)),
        !more_needed(FetchKind::Devops { limit }, stories.len(), stories.take(k)),
    ensures
        devops_selection(stories.take(k)) == first_n(devops_selection(stories), limit as nat),
        devops_selection(stories.take(k)).len() <= limit,
{
    let kind = FetchKind::Devops { limit };
    let received = stories.take(k);
    if k > 0 {
        assert(more_needed(kind, stories.len(), received.take(k - 1)));
        assert(received.take(k - 1) =~= stories.take(k - 1));
        lemma_devops_selection_step(stories, k);
    }
    assert(stories.take(stories.len() as int) =~= stories);
    if k < stories.len() {
        lemma_devops_selection_prefix(stories, k, stories.len() as int);
        let whole = devops_selection(stories);
        if whole.len() <= limit {
            assert(whole.take(limit as int) =~= whole);
        }
    }
}

/// Every story in a DevOps selection has a DevOps title and is the published
/// form of one of the received items.
pub proof fn lemma_devops_selection_only_matches(received: Seq<HnItemView>)
    ensures
        forall|i: int|
            0 <= i < devops_selection(received).len() ==> is_devops_title(
                #[trigger] devops_selection(received)[i].title,
            ),
        forall|i: int|
            0 <= i < devops_selection(received).len() ==> exists|j: int|
                0 <= j < received.len() && #[trigger] devops_selection(received)[i] == to_news_view(
                    received[j],
                ),
    decreases received.len(),
{
    if received.len() > 0 {
        let prefix = received.drop_last();
        lemma_devops_selection_only_matches(prefix);
        let sel = devops_selection(received);
        let prev = devops_selection(prefix);
        assert forall|i: int| 0 <= i < sel.len() implies exists|j: int|
            0 <= j < received.len() && #[trigger] sel[i] == to_news_view(received[j]) by {
            if i < prev.len() {
                let j = choose|j: int| 0 <= j < prefix.len() && prev[i] == to_news_view(prefix[j]);
                assert(received[j] == prefix[j]);
            } else {
                assert(sel[i] == to_news_view(received[received.len() - 1]));
            }
        }
    }
}

/// A finished DevOps collection hands out the first `limit` DevOps stories of
/// everything it scans: whatever the scanned stories that it never requested
/// (`rest`) would have been, what it gathered is the first `limit` DevOps
/// stories of the received ones followed by them.
pub proof fn lemma_devops_done_is_first_matches(f: NewsFetch, limit: usize, rest: Seq<HnItemView>)
    requires
        f.kind_of() == (FetchKind::Devops { limit }),
        history_ok(f.kind_of(), f.scan_ids().len(), f.received()),
        !more_needed(f.kind_of(), f.scan_ids().len(), f.received()),
        f.received().len() + rest.len() == f.scan_ids().len(),
    ensures
        selection(f.kind_of(), f.received()) == first_n(
            devops_selection(f.received() + rest),
            limit as nat,
        ),
        selection(f.kind_of(), f.received()).len() <= limit,
{
    let stories = f.received() + rest;
    let k = f.received().len() as int;
    assert(stories.take(k) =~= f.received());
    lemma_devops_collects_first_matches(limit, stories, k);
}

/// A finished top-stories collection has received one item for each scanned id.
pub proof fn lemma_top_done_covers_scan(f: NewsFetch, n: usize)
    requires
        f.kind_of() == (FetchKind::Top { n }),
        history_ok(f.kind_of(), f.scan_ids().len(), f.received()),
        !more_needed(f.kind_of(), f.scan_ids().len(), f.received()),
    ensures
        f.received().len() == f.scan_ids().len(),
        selection(f.kind_of(), f.received()).len() == f.scan_ids().len(),
{
}

/// Two DevOps collections over the same scanned stories, with limits
/// `limit1 <= limit2`: the smaller result is a prefix of the larger, and it is
/// either full (`limit1` stories) or equal to the larger. (Both collections scan
/// the same ids, and by `lemma_devops_done_is_first_matches` each hands out
/// `first_n` of the DevOps selection of the scanned stories.)
pub proof fn lemma_devops_results_nest(stories: Seq<HnItemView>, limit1: usize, limit2: usize)
    requires
        limit1 <= limit2,
    ensures
        first_n(devops_selection(stories), limit1 as nat).len() <= first_n(
            devops_selection(stories),
            limit2 as nat,
        ).len(),
        first_n(devops_selection(stories), limit2 as nat).take(
            first_n(devops_selection(stories), limit1 as nat).len() as int,
        ) == first_n(devops_selection(stories), limit1 as nat),
        first_n(devops_selection(stories), limit1 as nat).len() == limit1 || first_n(
            devops_selection(stories),
            limit1 as nat,
        ) == first_n(devops_selection(stories), limit2 as nat),
{
    let sel = devops_selection(stories);
    let r1 = first_n(sel, limit1 as nat);
    let r2 = first_n(sel, limit2 as nat);
    assert(r2.take(r1.len() as int) =~= r1);
}

/// Two top-stories collections over the same story list, with `n1 <= n2`
/// (`stories` holds the item of every listed id, in list order): the smaller
/// result is a prefix of the larger, and it has `min(n1, len)` stories where
/// `len` is the size of the larger result.
pub proof fn lemma_top_results_nest(stories: Seq<HnItemView>, n1: usize, n2: usize)
    requires
        n1 <= n2,
    ensures
        ({
            let k1 = scan_len_for(FetchKind::Top { n: n1 }, stories.len()) as int;
            let k2 = scan_len_for(FetchKind::Top { n: n2 }, stories.len()) as int;
            &&& k1 <= k2
            &&& top_selection(stories.take(k2)).take(k1) == top_selection(stories.take(k1))
            &&& top_selection(stories.take(k1)).len() == if n1 < top_selection(
                stories.take(k2),
            ).len() {
                n1 as int
            } else {
                top_selection(stories.take(k2)).len() as int
            }
        }),
{
    let k1 = scan_len_for(FetchKind::Top { n: n1 }, stories.len()) as int;
    let k2 = scan_len_for(FetchKind::Top { n: n2 }, stories.len()) as int;
    assert(top_selection(stories.take(k2)).take(k1) =~= top_selection(stories.take(k1)));
}

} // verus!
