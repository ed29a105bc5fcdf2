//! The consumer side of the feed pipeline: a per-frame aggregator that merges
//! entries and thumbnail results, which arrive out of order, into a list kept
//! sorted by feed position, and tracks when a refresh session has settled.

use vstd::prelude::*;

verus! {

/// The feed the news page reads unless told otherwise.
pub const RSS_URL: &'static str = "https://www.tagesschau.de/xml/rss2/";

/// The thumbnail of an entry: the shared placeholder, or a fetched bitmap.
pub enum Thumbnail<I> {
    Placeholder,
    Image(I),
}

/// One feed entry as the panel shows it.
pub struct NewsItem<I> {
    /// Zero-based index of the entry in the feed; unique within a session.
    pub position: usize,
    pub title: String,
    pub link: String,
    pub description: String,
    pub image: Thumbnail<I>,
    /// Whether the thumbnail outcome of this entry is known.
    pub image_updated: bool,
}

/// What enrichment found for one entry.
pub enum Outcome<I> {
    Image(I),
    NoImage,
}

/// The result of enriching the entry at `pos`, tagged with its session.
pub struct ImgPos<I> {
    pub session: u64,
    pub pos: usize,
    pub outcome: Outcome<I>,
}

/// A message on the entries channel.
pub enum FeedEvent<I> {
    /// The feed was read (or failed to be): it holds `total` entries.
    Listed { session: u64, total: usize },
    /// One entry of the feed.
    Item { session: u64, item: NewsItem<I> },
}

/// The life cycle of a refresh session.
#[derive(PartialEq, Eq, Structural, Clone, Copy, Debug)]
pub enum Phase {
    /// No refresh has been started.
    Idle,
    /// Waiting for the feed to be read.
    Fetching,
    /// The entry count is known; entries or thumbnails are still pending.
    Listing,
    /// Every entry is listed and its thumbnail outcome is known.
    Settled,
}

/// Why a refresh could not start.
#[derive(PartialEq, Eq, Structural, Clone, Copy, Debug)]
pub enum RefreshError {
    /// No feed URL is configured.
    MissingUrl,
}

/// What one tick hands back to be sent again on its channel.
pub struct Requeue<I> {
    pub item: Option<FeedEvent<I>>,
    pub image: Option<ImgPos<I>>,
}

/// The news page: its feed URL and the state of the current refresh session.
pub struct News<I> {
    pub rss_url: String,
    pub session: u64,
    pub phase: Phase,
    /// The number of entries of the feed, once it is known.
    pub item_count: usize,
    /// The number of entries whose thumbnail outcome is known.
    pub image_load_counter: usize,
    pub items: Vec<NewsItem<I>>,
}

/// Strictly increasing positions: sorted, no duplicates.
pub open spec fn sorted_by_position<I>(s: Seq<NewsItem<I>>) -> bool {
    forall|i: int, j: int| 0 <= i < j < s.len() ==> s[i].position < s[j].position
}

/// Whether some entry of `s` has position `p`.
pub open spec fn has_position<I>(s: Seq<NewsItem<I>>, p: usize) -> bool {
    exists|i: int| 0 <= i < s.len() && s[i].position == p
}

/// The number of entries of `s` whose thumbnail outcome is known.
pub open spec fn ready_count<I>(s: Seq<NewsItem<I>>) -> nat
    decreases s.len(),
{
    if s.len() == 0 {
        0
    } else {
        ready_count(s.drop_last()) + if s.last().image_updated {
            1nat
        } else {
            0nat
        }
    }
}

/// An entry as it is listed: its thumbnail is the placeholder, not yet resolved.
pub open spec fn fresh<I>(item: NewsItem<I>) -> NewsItem<I> {
    NewsItem { image: Thumbnail::Placeholder, image_updated: false, ..item }
}

/// An entry once enrichment has reported `outcome` for it.
pub open spec fn resolved<I>(item: NewsItem<I>, outcome: Outcome<I>) -> NewsItem<I> {
    NewsItem {
        image: match outcome {
            Outcome::Image(img) => Thumbnail::Image(img),
            Outcome::NoImage => item.image,
        },
        image_updated: true,
        ..item
    }
}

/// The session that follows `s`.
pub open spec fn next_session(s: u64) -> u64 {
    if s == u64::MAX {
        0
    } else {
        (s + 1) as u64
    }
}

proof fn lemma_ready_count_bound<I>(s: Seq<NewsItem<I>>)
    ensures
        ready_count(s) <= s.len(),
        ready_count(s) == s.len() ==> forall|i: int| 0 <= i < s.len() ==> s[i].image_updated,
        (forall|i: int| 0 <= i < s.len() ==> s[i].image_updated) ==> ready_count(s) == s.len(),
    decreases s.len(),
{
    if s.len() > 0 {
        lemma_ready_count_bound(s.drop_last());
        assert forall|i: int| 0 <= i < s.len() - 1 implies s.drop_last()[i] == s[i] by {}
    }
}

proof fn lemma_ready_count_insert<I>(s: Seq<NewsItem<I>>, k: int, x: NewsItem<I>)
    requires
        0 <= k <= s.len(),
    ensures
        ready_count(s.insert(k, x)) == ready_count(s) + if x.image_updated {
            1nat
        } else {
            0nat
        },
    decreases s.len(),
{
    if k == s.len() {
        assert(s.insert(k, x).drop_last() =~= s);
    } else {
        lemma_ready_count_insert(s.drop_last(), k, x);
        assert(s.insert(k, x).drop_last() =~= s.drop_last().insert(k, x));
    }
}

proof fn lemma_ready_count_update<I>(s: Seq<NewsItem<I>>, k: int, x: NewsItem<I>)
    requires
        0 <= k < s.len(),
    ensures
        ready_count(s.update(k, x)) + (if s[k].image_updated {
            1nat
        } else {
            0nat
        }) == ready_count(s) + if x.image_updated {
            1nat
        } else {
            0nat
        },
    decreases s.len(),
{
    if k == s.len() - 1 {
        assert(s.update(k, x).drop_last() =~= s.drop_last());
    } else {
        lemma_ready_count_update(s.drop_last(), k, x);
        assert(s.update(k, x).drop_last() =~= s.drop_last().update(k, x));
    }
}

/// In a list sorted strictly by position, each position is at least its index.
proof fn lemma_position_at_least_index<I>(s: Seq<NewsItem<I>>, i: int)
    requires
        sorted_by_position(s),
        0 <= i < s.len(),
    ensures
        s[i].position >= i,
    decreases i,
{
    if i > 0 {
        lemma_position_at_least_index(s, i - 1);
    }
}

/// A list sorted strictly by position, with every position below `total`,
/// holds at most `total` entries.
proof fn lemma_len_bound<I>(s: Seq<NewsItem<I>>, total: usize)
    requires
        sorted_by_position(s),
        forall|i: int| 0 <= i < s.len() ==> s[i].position < total,
    ensures
        s.len() <= total,
{
    if s.len() > 0 {
        lemma_position_at_least_index(s, s.len() - 1);
    }
}

/// The index at which an entry with position `p` belongs in `items`: every
/// entry before it has a smaller position, every entry from it on a position
/// at least `p`.
fn find_slot<I>(items: &Vec<NewsItem<I>>, p: usize) -> (k: usize)
    requires
        sorted_by_position(items@),
    ensures
        k <= items@.len(),
        forall|i: int| 0 <= i < k ==> items@[i].position < p,
        forall|i: int| k <= i < items@.len() ==> items@[i].position >= p,
{
    let mut lo: usize = 0;
    let mut hi: usize = items.len();
    while lo < hi
        invariant
            lo <= hi <= items@.len(),
            sorted_by_position(items@),
            forall|i: int| 0 <= i < lo ==> items@[i].position < p,
            forall|i: int| hi <= i < items@.len() ==> items@[i].position >= p,
        decreases hi - lo,
    {
        let mid: usize = lo + (hi - lo) / 2;
        if items[mid].position < p {
            lo = mid + 1;
        } else {
            hi = mid;
        }
    }
    lo
}

impl<I> News<I> {
    /// Whether the entry count of the current session is known.
    pub open spec fn listed(&self) -> bool {
        self.phase == Phase::Listing || self.phase == Phase::Settled
    }

    /// Whether a refresh session is running.
    pub open spec fn in_progress(&self) -> bool {
        self.phase == Phase::Fetching || self.phase == Phase::Listing
    }

    /// The state invariant of the page.
    pub open spec fn wf(&self) -> bool {
        &&& sorted_by_position(self.items@)
        &&& self.image_load_counter == ready_count(self.items@)
        &&& forall|i: int|
            0 <= i < self.items@.len() ==> (self.items@[i].image is Image
                ==> self.items@[i].image_updated)
        &&& if self.listed() {
            &&& forall|i: int| 0 <= i < self.items@.len() ==> self.items@[i].position < self.item_count
            &&& (self.phase == Phase::Settled <==> self.image_load_counter == self.item_count)
        } else {
            &&& self.items@.len() == 0
            &&& self.item_count == 0
        }
    }

    /// Every entry of the feed is listed, and each one's thumbnail outcome is known.
    pub open spec fn all_resolved(&self) -> bool {
        &&& self.listed()
        &&& self.items@.len() == self.item_count
        &&& forall|i: int| 0 <= i < self.items@.len() ==> self.items@[i].image_updated
    }

    /// `self` is `pre` after the entries channel delivered `event`; `back` is
    /// what is handed back to be delivered again later.
    pub open spec fn item_step(
        self,
        pre: Self,
        event: Option<FeedEvent<I>>,
        back: Option<FeedEvent<I>>,
    ) -> bool {
        match event {
            Some(FeedEvent::Listed { session, total }) => {
                &&& back is None
                &&& if pre.phase == Phase::Fetching && session == pre.session {
                    self == (News {
                        phase: if total == 0 {
                            Phase::Settled
                        } else {
                            Phase::Listing
                        },
                        item_count: total,
                        ..pre
                    })
                } else {
                    self == pre
                }
            },
            Some(FeedEvent::Item { session, item }) => {
                if session == pre.session && pre.phase == Phase::Fetching {
                    back == event && self == pre
                } else if session == pre.session && pre.phase == Phase::Listing && item.position
                    < pre.item_count && !has_position(pre.items@, item.position) {
                    &&& back is None
                    &&& exists|k: int|
                        0 <= k <= pre.items@.len() && self.items@ == pre.items@.insert(
                            k,
                            fresh(item),
                        )
                    &&& self.rss_url == pre.rss_url
                    &&& self.session == pre.session
                    &&& self.phase == pre.phase
                    &&& self.item_count == pre.item_count
                    &&& self.image_load_counter == pre.image_load_counter
                } else {
                    back is None && self == pre
                }
            },
            None => back is None && self == pre,
        }
    }

    /// `self` is `pre` after the image channel delivered `result`; `back` is
    /// what is handed back to be delivered again later.
    pub open spec fn image_step(
        self,
        pre: Self,
        result: Option<ImgPos<I>>,
        back: Option<ImgPos<I>>,
    ) -> bool {
        match result {
            Some(res) => {
                if res.session == pre.session && (pre.phase == Phase::Fetching || (pre.phase
                    == Phase::Listing && res.pos < pre.item_count && !has_position(
                    pre.items@,
                    res.pos,
                ))) {
                    back == result && self == pre
                } else if res.session == pre.session && pre.phase == Phase::Listing
                    && has_position(pre.items@, res.pos) {
                    &&& back is None
                    &&& forall|k: int|
                        0 <= k < pre.items@.len() && pre.items@[k].position == res.pos ==> if pre.items@[k].image_updated {
                            self == pre
                        } else {
                            &&& self.items@ == pre.items@.update(
                                k,
                                resolved(pre.items@[k], res.outcome),
                            )
                            &&& self.image_load_counter == pre.image_load_counter + 1
                            &&& self.phase == if self.image_load_counter == pre.item_count {
                                Phase::Settled
                            } else {
                                Phase::Listing
                            }
                            &&& self.rss_url == pre.rss_url
                            &&& self.session == pre.session
                            &&& self.item_count == pre.item_count
                        }
                } else {
                    back is None && self == pre
                }
            },
            None => back is None && self == pre,
        }
    }

    /// A page with no session yet, reading the default feed [`RSS_URL`].
    pub fn new() -> (r: Self)
        ensures
            r.wf(),
            r.rss_url@ == RSS_URL@,
            r.phase == Phase::Idle,
            r.session == 0,
            r.items@.len() == 0,
    {
        Self::with_url(RSS_URL.to_owned())
    }

    /// A page with no session yet, reading the feed at `rss_url`.
    pub fn with_url(rss_url: String) -> (r: Self)
        ensures
            r.wf(),
            r.rss_url == rss_url,
            r.phase == Phase::Idle,
            r.session == 0,
            r.item_count == 0,
            r.image_load_counter == 0,
            r.items@.len() == 0,
    {
        News {
            rss_url,
            session: 0,
            phase: Phase::Idle,
            item_count: 0,
            image_load_counter: 0,
            items: Vec::new(),
        }
    }

    /// Starts a new session, abandoning the current one: the list is cleared
    /// and the page waits for the feed. Returns the new session's tag, which
    /// the messages of that session carry. An empty feed URL is refused and
    /// changes nothing.
    pub fn refresh(&mut self) -> (r: Result<u64, RefreshError>)
        requires
            old(self).wf(),
        ensures
            final(self).wf(),
            old(self).rss_url@.len() == 0 <==> r is Err,
            r is Err ==> r == Err::<u64, RefreshError>(RefreshError::MissingUrl) && *final(self) == *old(self),
            r is Ok ==> {
                &&& r == Ok::<u64, RefreshError>(final(self).session)
                &&& final(self).session == next_session(old(self).session)
                &&& final(self).rss_url == old(self).rss_url
                &&& final(self).phase == Phase::Fetching
                &&& final(self).item_count == 0
                &&& final(self).image_load_counter == 0
                &&& final(self).items@.len() == 0
            },
    {
        if self.rss_url.as_str().is_empty() {
            return Err(RefreshError::MissingUrl);
        }
        self.items = Vec::new();
        self.item_count = 0;
        self.image_load_counter = 0;
        self.phase = Phase::Fetching;
        self.session = if self.session == u64::MAX {
            0
        } else {
            self.session + 1
        };
        Ok(self.session)
    }

    /// Whether a refresh session is running.
    pub fn is_loading(&self) -> (r: bool)
        ensures
            r == self.in_progress(),
    {
        self.phase == Phase::Fetching || self.phase == Phase::Listing
    }

    /// Takes one message of the entries channel. The entry count opens the
    /// listing; an entry is inserted at its place by position, unless its
    /// position is already listed or out of range; an entry that comes before
    /// the count is handed back. Messages of another session are dropped.
    pub fn receive_item(&mut self, event: Option<FeedEvent<I>>) -> (back: Option<FeedEvent<I>>)
        requires
            old(self).wf(),
        ensures
            final(self).wf(),
            final(self).item_step(*old(self), event, back),
    {
        match event {
            None => None,
            Some(FeedEvent::Listed { session, total }) => {
                if self.phase == Phase::Fetching && session == self.session {
                    self.item_count = total;
                    self.phase = if total == 0 {
                        Phase::Settled
                    } else {
                        Phase::Listing
                    };
                }
                None
            },
            Some(FeedEvent::Item { session, item }) => {
                if session != self.session {
                    return None;
                }
                if self.phase == Phase::Fetching {
                    return Some(FeedEvent::Item { session, item });
                }
                if self.phase != Phase::Listing || item.position >= self.item_count {
                    return None;
                }
                let k = find_slot(&self.items, item.position);
                if k < self.items.len() && self.items[k].position == item.position {
                    return None;
                }
                proof {
                    assert(!has_position(self.items@, item.position)) by {
                        if has_position(self.items@, item.position) {
                            let j = choose|j: int|
                                0 <= j < self.items@.len() && self.items@[j].position
                                    == item.position;
                            if j < k {
                            } else {
                                assert(self.items@[j].position >= self.items@[k as int].position);
                            }
                        }
                    }
                    lemma_ready_count_insert(self.items@, k as int, fresh(item));
                }
                let NewsItem { position, title, link, description, image: _, image_updated: _ } =
                    item;
                let entry = NewsItem {
                    position,
                    title,
                    link,
                    description,
                    image: Thumbnail::Placeholder,
                    image_updated: false,
                };
                let ghost pre = self.items@;
                self.items.insert(k, entry);
                proof {
                    let s = self.items@;
                    assert(s == pre.insert(k as int, entry));
                    assert forall|i: int, j: int| 0 <= i < j < s.len() implies s[i].position
                        < s[j].position by {
                        if i < k && j > k {
                            assert(s[j] == pre[j - 1]);
                        } else if i > k {
                            assert(s[i] == pre[i - 1] && s[j] == pre[j - 1]);
                        } else if j < k {
                        } else if i == k {
                            assert(s[j] == pre[j - 1]);
                        } else {
                            assert(s[i] == pre[i]);
                        }
                    }
                }
                None
            },
        }
    }

    /// Takes one message of the image channel. A result for a listed entry
    /// whose outcome is not yet known resolves it (a bitmap replaces the
    /// placeholder; no image leaves it) and counts it; a result for an entry
    /// not yet listed is handed back. Results of another session, for an
    /// entry already resolved, or out of range, are dropped.
    pub fn receive_image(&mut self, result: Option<ImgPos<I>>) -> (back: Option<ImgPos<I>>)
        requires
            old(self).wf(),
        ensures
            final(self).wf(),
            final(self).image_step(*old(self), result, back),
    {
        match result {
            None => None,
            Some(ImgPos { session, pos, outcome }) => {
                if session != self.session {
                    return None;
                }
                if self.phase == Phase::Fetching {
                    return Some(ImgPos { session, pos, outcome });
                }
                if self.phase != Phase::Listing || pos >= self.item_count {
                    return None;
                }
                let k = find_slot(&self.items, pos);
                if k >= self.items.len() || self.items[k].position != pos {
                    proof {
                        assert(!has_position(self.items@, pos)) by {
                            if has_position(self.items@, pos) {
                                let j = choose|j: int|
                                    0 <= j < self.items@.len() && self.items@[j].position == pos;
                                if j > k {
                                    assert(self.items@[j].position > self.items@[k as int].position);
                                }
                            }
                        }
                    }
                    return Some(ImgPos { session, pos, outcome });
                }
                if self.items[k].image_updated {
                    return None;
                }
                let ghost pre = *self;
                let ghost res = ImgPos { session, pos, outcome };
                let NewsItem { position, title, link, description, image, image_updated: _ } =
                    self.items.remove(k);
                let image = match outcome {
                    Outcome::Image(img) => Thumbnail::Image(img),
                    Outcome::NoImage => image,
                };
                let entry = NewsItem {
                    position,
                    title,
                    link,
                    description,
                    image,
                    image_updated: true,
                };
                self.items.insert(k, entry);
                proof {
                    assert(self.items@ =~= pre.items@.update(
                        k as int,
                        resolved(pre.items@[k as int], res.outcome),
                    ));
                    lemma_ready_count_update(pre.items@, k as int, entry);
                    lemma_ready_count_bound(pre.items@);
                    lemma_len_bound(pre.items@, pre.item_count);
                }
                self.image_load_counter = self.image_load_counter + 1;
                if self.image_load_counter == self.item_count {
                    self.phase = Phase::Settled;
                }
                proof {
                    assert forall|j: int|
                        0 <= j < pre.items@.len() && pre.items@[j].position == res.pos implies j
                        == k by {
                        if j < k {
                        } else if j > k {
                        }
                    }
                }
                None
            },
        }
    }

    /// One frame of the page: takes at most one message of each channel, the
    /// entry first, and hands back what must be delivered again. Outside a
    /// running session nothing changes and everything is dropped.
    pub fn tick(&mut self, event: Option<FeedEvent<I>>, result: Option<ImgPos<I>>) -> (r: Requeue<I>)
        requires
            old(self).wf(),
        ensures
            final(self).wf(),
            sorted_by_position(final(self).items@),
            !old(self).in_progress() ==> *final(self) == *old(self) && r.item is None
                && r.image is None,
            old(self).in_progress() ==> exists|mid: Self|
                #[trigger] mid.item_step(*old(self), event, r.item) && mid.wf()
                    && final(self).image_step(mid, result, r.image),
    {
        if !self.is_loading() {
            return Requeue { item: None, image: None };
        }
        let item = self.receive_item(event);
        let ghost mid = *self;
        let image = self.receive_image(result);
        assert(mid.item_step(*old(self), event, item) && mid.wf() && self.image_step(
            mid,
            result,
            image,
        ));
        Requeue { item, image }
    }
}

/// The number of resolved entries never exceeds the entry count, and a
/// session is settled exactly when every entry of the feed is listed with its
/// thumbnail outcome known.
pub proof fn lemma_completion<I>(news: News<I>)
    requires
        news.wf(),
    ensures
        news.image_load_counter <= news.item_count,
        news.phase == Phase::Settled <==> news.all_resolved(),
{
    lemma_ready_count_bound(news.items@);
    if news.listed() {
        lemma_len_bound(news.items@, news.item_count);
    }
}

/// Delivering two entries with the same position lists that position at most
/// once: once it is listed, a second delivery leaves the list as it was.
pub proof fn lemma_insertion_idempotent<I>(
    s0: News<I>,
    s1: News<I>,
    s2: News<I>,
    e1: FeedEvent<I>,
    e2: FeedEvent<I>,
    b1: Option<FeedEvent<I>>,
    b2: Option<FeedEvent<I>>,
    p: usize,
)
    requires
        s0.wf(),
        s1.wf(),
        s2.wf(),
        s1.item_step(s0, Some(e1), b1),
        s2.item_step(s1, Some(e2), b2),
        e1 matches FeedEvent::Item { item, .. } && item.position == p,
        e2 matches FeedEvent::Item { item, .. } && item.position == p,
    ensures
        has_position(s1.items@, p) ==> s2.items@ == s1.items@,
        forall|i: int, j: int|
            0 <= i < s2.items@.len() && 0 <= j < s2.items@.len() && s2.items@[i].position == p
                && s2.items@[j].position == p ==> i == j,
{
    assert forall|i: int, j: int|
        0 <= i < s2.items@.len() && 0 <= j < s2.items@.len() && s2.items@[i].position == p
            && s2.items@[j].position == p implies i == j by {
        if i < j {
        } else if j < i {
        }
    }
}

/// An entry whose enrichment found no image is resolved with the placeholder
/// kept, and every other entry stays as it was.
pub proof fn lemma_no_image_resolves<I>(
    pre: News<I>,
    post: News<I>,
    pos: usize,
    back: Option<ImgPos<I>>,
)
    requires
        pre.wf(),
        pre.phase == Phase::Listing,
        post.image_step(pre, Some(ImgPos { session: pre.session, pos, outcome: Outcome::NoImage }), back),
    ensures
        forall|k: int|
            0 <= k < pre.items@.len() && pre.items@[k].position == pos
                && !pre.items@[k].image_updated ==> {
                &&& back is None
                &&& post.items@.len() == pre.items@.len()
                &&& post.items@[k].image_updated
                &&& post.items@[k].image is Placeholder
                &&& forall|j: int| 0 <= j < pre.items@.len() && j != k ==> post.items@[j] == pre.items@[j]
            },
{
    assert forall|k: int|
        0 <= k < pre.items@.len() && pre.items@[k].position == pos
            && !pre.items@[k].image_updated implies {
            &&& back is None
            &&& post.items@.len() == pre.items@.len()
            &&& post.items@[k].image_updated
            &&& post.items@[k].image is Placeholder
            &&& forall|j: int| 0 <= j < pre.items@.len() && j != k ==> post.items@[j] == pre.items@[j]
        } by {
        assert(has_position(pre.items@, pos));
        assert(!(pre.items@[k].image is Image));
    }
}

/// Applying one result to a page whose entries keep their positions: the
/// entry at `pos`, if any, is the one that may change.
proof fn lemma_step_keeps_positions<I>(
    pre: News<I>,
    post: News<I>,
    r: ImgPos<I>,
    back: Option<ImgPos<I>>,
)
    requires
        pre.wf(),
        post.image_step(pre, Some(r), back),
    ensures
        post.items@.len() == pre.items@.len(),
        forall|j: int|
            0 <= j < pre.items@.len() && pre.items@[j].position != r.pos ==> post.items@[j]
                == pre.items@[j],
        forall|j: int|
            0 <= j < pre.items@.len() ==> post.items@[j].position == pre.items@[j].position,
{
    if r.session == pre.session && pre.phase == Phase::Listing && has_position(pre.items@, r.pos) {
        let k = choose|k: int| 0 <= k < pre.items@.len() && pre.items@[k].position == r.pos;
        assert(post.items@.len() == pre.items@.len());
    }
}

/// Results for two different listed entries lead to the same page whichever
/// of them arrives first.
pub proof fn lemma_results_commute<I>(
    pre: News<I>,
    a1: News<I>,
    a2: News<I>,
    b1: News<I>,
    b2: News<I>,
    r1: ImgPos<I>,
    r2: ImgPos<I>,
    x1: Option<ImgPos<I>>,
    x2: Option<ImgPos<I>>,
    y1: Option<ImgPos<I>>,
    y2: Option<ImgPos<I>>,
)
    requires
        pre.wf(),
        a1.wf(),
        a2.wf(),
        b1.wf(),
        b2.wf(),
        a1.image_step(pre, Some(r1), x1),
        a2.image_step(a1, Some(r2), x2),
        b1.image_step(pre, Some(r2), y1),
        b2.image_step(b1, Some(r1), y2),
        r1.pos != r2.pos,
        has_position(pre.items@, r1.pos),
        has_position(pre.items@, r2.pos),
    ensures
        a2.items@ == b2.items@,
        a2.image_load_counter == b2.image_load_counter,
        a2.phase == b2.phase,
        a2.item_count == b2.item_count,
        a2.session == b2.session,
        a2.rss_url == b2.rss_url,
{
    let k1 = choose|k: int| 0 <= k < pre.items@.len() && pre.items@[k].position == r1.pos;
    let k2 = choose|k: int| 0 <= k < pre.items@.len() && pre.items@[k].position == r2.pos;
    lemma_step_keeps_positions(pre, a1, r1, x1);
    lemma_step_keeps_positions(pre, b1, r2, y1);
    lemma_step_keeps_positions(a1, a2, r2, x2);
    lemma_step_keeps_positions(b1, b2, r1, y2);
    assert(has_position(a1.items@, r2.pos) && a1.items@[k2].position == r2.pos);
    assert(has_position(b1.items@, r1.pos) && b1.items@[k1].position == r1.pos);
    lemma_completion(a1);
    lemma_completion(b1);
    lemma_completion(pre);
    if pre.phase == Phase::Listing && r1.session == pre.session && r2.session == pre.session {
        let u1 = resolved(pre.items@[k1], r1.outcome);
        let u2 = resolved(pre.items@[k2], r2.outcome);
        if !pre.items@[k1].image_updated && !pre.items@[k2].image_updated {
            assert(a1.items@ == pre.items@.update(k1, u1));
            assert(b1.items@ == pre.items@.update(k2, u2));
            assert(a1.phase == Phase::Listing) by {
                if a1.phase == Phase::Settled {
                    assert(a1.items@[k2] == pre.items@[k2]);
                }
            }
            assert(b1.phase == Phase::Listing) by {
                if b1.phase == Phase::Settled {
                    assert(b1.items@[k1] == pre.items@[k1]);
                }
            }
            assert(a1.items@[k2] == pre.items@[k2]);
            assert(b1.items@[k1] == pre.items@[k1]);
            assert(a2.items@ == a1.items@.update(k2, u2));
            assert(b2.items@ == b1.items@.update(k1, u1));
            assert(a2.items@ =~= b2.items@);
        } else if !pre.items@[k1].image_updated {
            assert(b1 == pre);
            assert(a1.items@[k2] == pre.items@[k2]);
            if a1.phase == Phase::Listing {
                assert(a2 == a1);
            }
        } else if !pre.items@[k2].image_updated {
            assert(a1 == pre);
            assert(b1.items@[k1] == pre.items@[k1]);
            if b1.phase == Phase::Listing {
                assert(b2 == b1);
            }
        } else {
            assert(a1 == pre);
            assert(b1 == pre);
        }
    }
}

} // verus!
