//! The producer side of the feed pipeline: turning the fetched feed document
//! into the ordered messages of one refresh session and the per-entry
//! enrichment jobs, and the pieces of work each enrichment job decides on.

use crate::news::{FeedEvent, ImgPos, NewsItem, Outcome, Thumbnail};
use vstd::prelude::*;

verus! {

/// The pattern that locates an entry's thumbnail URL in its body: the first
/// capture group is the URL.
pub const IMG_PATTERN: &'static str = "<img src=\"([^\"]+)\"";

/// One entry as the feed document gives it; a field the document lacks is `None`.
pub struct FeedRecord {
    pub title: Option<String>,
    pub link: Option<String>,
    pub description: Option<String>,
    pub content: Option<String>,
}

/// The entries that the feed parser reads from `bytes`, in document order, or
/// `None` when it does not accept the document.
pub uninterp spec fn feed_of(bytes: Seq<u8>) -> Option<Seq<FeedRecord>>;

/// The first capture group of the leftmost match of the regular expression
/// `pattern` in `haystack` (empty where the group takes no part in the match),
/// or `None` when the pattern does not compile or does not match.
pub uninterp spec fn capture_of(pattern: Seq<char>, haystack: Seq<char>) -> Option<Seq<char>>;

#[verifier::external_type_specification]
#[verifier::external_body]
pub struct ExRssError(rss::Error);

/// Relies on rss::Channel::read_from: it parses the document alone, and
/// its items, in document order, give each record's title, link,
/// description and content.
#[verifier::external_body]
fn read_channel(bytes: &[u8]) -> (r: Result<Vec<FeedRecord>, rss::Error>)
    ensures
        match r {
            Ok(v) => feed_of(bytes@) == Some(v@),
            Err(_) => feed_of(bytes@) is None,
        },
{
    rss::Channel::read_from(bytes).map(
        |c|
            c.items().iter().map(
                |i|
                    FeedRecord {
                        title: i.title().map(|t| t.to_string()),
                        link: i.link().map(|t| t.to_string()),
                        description: i.description().map(|t| t.to_string()),
                        content: i.content().map(|t| t.to_string()),
                    },
            ).collect(),
    )
}

/// Relies on regex::Regex::new and regex::Regex::captures: compile `pattern`
/// and take the first capture group of its leftmost match in `haystack`.
#[verifier::external_body]
fn first_capture(pattern: &str, haystack: &str) -> (r: Option<String>)
    ensures
        r is Some <==> capture_of(pattern@, haystack@) is Some,
        r matches Some(s) ==> capture_of(pattern@, haystack@) == Some(s@),
{
    match regex::Regex::new(pattern) {
        Ok(re) => re.captures(haystack).map(|c| c.get(1).map_or("", |m| m.as_str()).to_string()),
        Err(_) => None,
    }
}

/// Why the feed document could not be read.
#[derive(PartialEq, Eq, Structural, Clone, Copy, Debug)]
pub enum FeedError {
    /// The document is not a feed the parser accepts.
    Malformed,
}

/// One enrichment job: the entry at `position` of `session`, with its body.
pub struct Job {
    pub session: u64,
    pub position: usize,
    pub content: Option<String>,
}

/// Everything one refresh session sends: the entry count, then the entries
/// in feed order, and the enrichment jobs, one per entry.
pub struct Dispatch<I> {
    pub listed: FeedEvent<I>,
    pub entries: Vec<FeedEvent<I>>,
    pub jobs: Vec<Job>,
}

/// The text of an optional field, empty where it is absent.
pub open spec fn or_empty(o: Option<String>) -> Seq<char> {
    match o {
        Some(s) => s@,
        None => Seq::empty(),
    }
}

/// The view of an optional text.
pub open spec fn opt_view(o: Option<String>) -> Option<Seq<char>> {
    match o {
        Some(s) => Some(s@),
        None => None,
    }
}

/// The records a session lists: those of the fetched document, or none where
/// the fetch or the parse failed.
pub open spec fn listing_of(fetched: Option<Seq<u8>>) -> Seq<FeedRecord> {
    match fetched {
        Some(b) => match feed_of(b) {
            Some(s) => s,
            None => Seq::empty(),
        },
        None => Seq::empty(),
    }
}

/// `item` is the fresh entry at position `i` made from `rec`.
pub open spec fn is_entry_of<I>(item: NewsItem<I>, i: int, rec: FeedRecord) -> bool {
    &&& item.position == i
    &&& item.title@ == or_empty(rec.title)
    &&& item.link@ == or_empty(rec.link)
    &&& item.description@ == or_empty(rec.description)
    &&& item.image is Placeholder
    &&& !item.image_updated
}

/// The view of a fetched document, `None` where the fetch failed.
pub open spec fn fetched_view(fetched: Option<&[u8]>) -> Option<Seq<u8>> {
    match fetched {
        Some(b) => Some(b@),
        None => None,
    }
}

/// `ev` carries, for session `session`, the fresh entry at position `i` made from `rec`.
pub open spec fn is_item_of<I>(ev: FeedEvent<I>, session: u64, i: int, rec: FeedRecord) -> bool {
    match ev {
        FeedEvent::Item { session: s, item } => s == session && is_entry_of(item, i, rec),
        FeedEvent::Listed { .. } => false,
    }
}

/// `job` enriches, for session `session`, the entry at position `i` made from `rec`.
pub open spec fn is_job_of(job: Job, session: u64, i: int, rec: FeedRecord) -> bool {
    &&& job.session == session
    &&& job.position == i
    &&& opt_view(job.content) == opt_view(rec.content)
}

/// The text of a body that may be absent.
pub open spec fn body_of(content: Option<&str>) -> Seq<char> {
    match content {
        Some(c) => c@,
        None => Seq::empty(),
    }
}

/// Reads the feed document `bytes`.
pub fn get_channel(bytes: &[u8]) -> (r: Result<Vec<FeedRecord>, FeedError>)
    ensures
        match r {
            Ok(v) => feed_of(bytes@) == Some(v@),
            Err(e) => feed_of(bytes@) is None && e == FeedError::Malformed,
        },
{
    match read_channel(bytes) {
        Ok(v) => Ok(v),
        Err(_) => Err(FeedError::Malformed),
    }
}

fn text_or_empty(o: &Option<String>) -> (r: String)
    ensures
        r@ == or_empty(*o),
{
    match o {
        Some(s) => s.clone(),
        None => String::new(),
    }
}

fn clone_text(o: &Option<String>) -> (r: Option<String>)
    ensures
        opt_view(r) == opt_view(*o),
{
    match o {
        Some(s) => Some(s.clone()),
        None => None,
    }
}

/// Builds the fresh entry at `position` from the record `rec`: absent fields
/// become empty text, and the thumbnail is the placeholder, unresolved.
pub fn new_item<I>(position: usize, rec: &FeedRecord) -> (r: NewsItem<I>)
    ensures
        is_entry_of(r, position as int, *rec),
{
    NewsItem {
        position,
        title: text_or_empty(&rec.title),
        link: text_or_empty(&rec.link),
        description: text_or_empty(&rec.description),
        image: Thumbnail::Placeholder,
        image_updated: false,
    }
}

/// Plans the session `session` from the fetched feed document (`None` where
/// the fetch failed): the count of entries, each entry at its position in
/// feed order, and one enrichment job per entry. A failed fetch or parse
/// lists nothing.
pub fn get_items<I>(session: u64, fetched: Option<&[u8]>) -> (r: Dispatch<I>)
    ensures
        r.listed == (FeedEvent::<I>::Listed {
            session,
            total: listing_of(fetched_view(fetched)).len() as usize,
        }),
        r.entries@.len() == listing_of(fetched_view(fetched)).len(),
        r.jobs@.len() == listing_of(fetched_view(fetched)).len(),
        forall|i: int|
            0 <= i < r.entries@.len() ==> is_item_of(
                #[trigger] r.entries@[i],
                session,
                i,
                listing_of(fetched_view(fetched))[i],
            ),
        forall|i: int|
            0 <= i < r.jobs@.len() ==> is_job_of(
                #[trigger] r.jobs@[i],
                session,
                i,
                listing_of(fetched_view(fetched))[i],
            ),
{
    let records = match fetched {
        Some(b) => match get_channel(b) {
            Ok(v) => v,
            Err(_) => Vec::new(),
        },
        None => Vec::new(),
    };
    assert(records@ =~= listing_of(fetched_view(fetched)));
    let mut entries: Vec<FeedEvent<I>> = Vec::new();
    let mut jobs: Vec<Job> = Vec::new();
    let mut i: usize = 0;
    while i < records.len()
        invariant
            i <= records@.len(),
            entries@.len() == i,
            jobs@.len() == i,
            forall|j: int|
                0 <= j < i ==> is_item_of(#[trigger] entries@[j], session, j, records@[j]),
            forall|j: int|
                0 <= j < i ==> is_job_of(#[trigger] jobs@[j], session, j, records@[j]),
        decreases records@.len() - i,
    {
        let rec = &records[i];
        entries.push(FeedEvent::Item { session, item: new_item(i, rec) });
        jobs.push(Job { session, position: i, content: clone_text(&rec.content) });
        i = i + 1;
    }
    Dispatch { listed: FeedEvent::Listed { session, total: records.len() }, entries, jobs }
}

/// Extracts the thumbnail URL from an entry's body: the first capture of
/// [`IMG_PATTERN`]. An absent body is searched as empty text.
pub fn get_image_url(content: Option<&str>) -> (r: Option<String>)
    ensures
        opt_view(r) == capture_of(IMG_PATTERN@, body_of(content)),
{
    let body: &str = match content {
        Some(c) => c,
        None => "",
    };
    proof {
        reveal_strlit("");
        assert(body@ =~= body_of(content));
    }
    first_capture(IMG_PATTERN, body)
}

/// The result that an enrichment job reports for the entry at `pos`:
/// the decoded bitmap if there is one, and no image where the entry had no
/// thumbnail URL or its fetch or decode failed.
pub fn get_image<I>(session: u64, pos: usize, image: Option<I>) -> (r: ImgPos<I>)
    ensures
        r.session == session,
        r.pos == pos,
        r.outcome == match image {
            Some(img) => Outcome::Image(img),
            None => Outcome::<I>::NoImage,
        },
{
    let outcome = match image {
        Some(img) => Outcome::Image(img),
        None => Outcome::NoImage,
    };
    ImgPos { session, pos, outcome }
}

} // verus!
