use infoapp::feed::{get_channel, get_image, get_image_url, get_items, FeedError};
use infoapp::news::{
    FeedEvent, ImgPos, News, NewsItem, Outcome, Phase, RefreshError, Thumbnail, RSS_URL,
};

const FEED: &str = r#"<?xml version="1.0" encoding="UTF-8"?>
<rss version="2.0" xmlns:content="http://purl.org/rss/1.0/modules/content/">
<channel>
<title>Sample</title>
<link>http://example.com/</link>
<description>A sample feed</description>
<item>
<title>First</title>
<link>http://example.com/1</link>
<description>One</description>
<content:encoded><![CDATA[<p><img src="http://example.com/1.jpg" alt="x"/></p>]]></content:encoded>
</item>
<item>
<title>Second</title>
<link>http://example.com/2</link>
<content:encoded><![CDATA[<p>no picture</p>]]></content:encoded>
</item>
<item>
<title>Third</title>
<description>Three</description>
</item>
</channel>
</rss>"#;

fn item(position: usize, title: &str) -> NewsItem<u32> {
    NewsItem {
        position,
        title: title.to_string(),
        link: String::new(),
        description: String::new(),
        image: Thumbnail::Placeholder,
        image_updated: false,
    }
}

fn entry(session: u64, position: usize) -> FeedEvent<u32> {
    FeedEvent::Item { session, item: item(position, &format!("entry {}", position)) }
}

fn image(session: u64, pos: usize, bitmap: Option<u32>) -> ImgPos<u32> {
    get_image(session, pos, bitmap)
}

fn started(total: usize) -> (News<u32>, u64) {
    let mut news: News<u32> = News::with_url("http://example.com/feed".to_string());
    let session = news.refresh().unwrap();
    assert_eq!(news.phase, Phase::Fetching);
    news.tick(Some(FeedEvent::Listed { session, total }), None);
    (news, session)
}

fn positions(news: &News<u32>) -> Vec<usize> {
    news.items.iter().map(|i| i.position).collect()
}

fn thumbnails(news: &News<u32>) -> Vec<Option<u32>> {
    news.items
        .iter()
        .map(|i| match i.image {
            Thumbnail::Image(b) => Some(b),
            Thumbnail::Placeholder => None,
        })
        .collect()
}

#[test]
fn default_page_reads_default_feed() {
    let news: News<u32> = News::new();
    assert_eq!(news.rss_url, RSS_URL);
    assert_eq!(news.phase, Phase::Idle);
    assert!(!news.is_loading());
    assert!(news.items.is_empty());
}

#[test]
fn refresh_without_url_is_refused() {
    let mut news: News<u32> = News::with_url(String::new());
    assert_eq!(news.refresh(), Err(RefreshError::MissingUrl));
    assert_eq!(news.phase, Phase::Idle);
    assert_eq!(news.session, 0);
}

#[test]
fn refresh_starts_next_session() {
    let mut news: News<u32> = News::with_url("u".to_string());
    assert_eq!(news.refresh(), Ok(1));
    assert_eq!(news.refresh(), Ok(2));
    assert_eq!(news.phase, Phase::Fetching);
    news.session = u64::MAX;
    assert_eq!(news.refresh(), Ok(0));
}

#[test]
fn three_entries_one_failed_image() {
    let (mut news, s) = started(3);
    assert_eq!(news.phase, Phase::Listing);
    for p in 0..3 {
        news.tick(Some(entry(s, p)), None);
    }
    news.tick(None, Some(image(s, 2, Some(22))));
    news.tick(None, Some(image(s, 1, None)));
    assert_eq!(news.phase, Phase::Listing);
    news.tick(None, Some(image(s, 0, Some(20))));
    assert_eq!(news.items.len(), 3);
    assert!(news.items.iter().all(|i| i.image_updated));
    assert_eq!(thumbnails(&news), vec![Some(20), None, Some(22)]);
    assert_eq!(news.image_load_counter, 3);
    assert_eq!(news.item_count, 3);
    assert_eq!(news.phase, Phase::Settled);
    assert!(!news.is_loading());
}

#[test]
fn failed_feed_fetch_settles_empty() {
    let mut news: News<u32> = News::with_url("u".to_string());
    let s = news.refresh().unwrap();
    let plan = get_items::<u32>(s, None);
    assert!(plan.entries.is_empty());
    assert!(plan.jobs.is_empty());
    news.tick(Some(plan.listed), None);
    assert!(news.items.is_empty());
    assert_eq!(news.item_count, 0);
    assert_eq!(news.phase, Phase::Settled);
}

#[test]
fn malformed_feed_settles_empty() {
    assert_eq!(get_channel(b"not a feed").err(), Some(FeedError::Malformed));
    let mut news: News<u32> = News::with_url("u".to_string());
    let s = news.refresh().unwrap();
    let plan = get_items::<u32>(s, Some(b"not a feed"));
    assert!(plan.entries.is_empty());
    news.tick(Some(plan.listed), None);
    assert_eq!(news.phase, Phase::Settled);
    assert_eq!(news.item_count, 0);
}

#[test]
fn new_refresh_drops_old_session() {
    let (mut news, old) = started(5);
    for p in 0..5 {
        news.tick(Some(entry(old, p)), None);
    }
    news.tick(None, Some(image(old, 0, Some(1))));
    news.tick(None, Some(image(old, 1, Some(2))));
    news.tick(None, Some(image(old, 2, None)));
    assert_eq!(news.image_load_counter, 3);
    let new = news.refresh().unwrap();
    assert_ne!(new, old);
    assert!(news.items.is_empty());
    let back = news.tick(Some(FeedEvent::Listed { session: new, total: 2 }), Some(image(old, 3, Some(4))));
    assert!(back.image.is_none());
    assert_eq!(news.phase, Phase::Listing);
    let back = news.tick(Some(entry(old, 4)), Some(image(old, 4, Some(5))));
    assert!(back.item.is_none());
    assert!(back.image.is_none());
    assert!(news.items.is_empty());
    assert_eq!(news.image_load_counter, 0);
    assert_eq!(news.item_count, 2);
    assert_eq!(news.phase, Phase::Listing);
}

#[test]
fn entries_are_kept_sorted() {
    let (mut news, s) = started(5);
    for p in [3, 0, 4, 1, 2] {
        news.tick(Some(entry(s, p)), None);
        let ps = positions(&news);
        assert!(ps.windows(2).all(|w| w[0] < w[1]));
    }
    assert_eq!(positions(&news), vec![0, 1, 2, 3, 4]);
}

#[test]
fn duplicate_entry_is_listed_once() {
    let (mut news, s) = started(3);
    news.tick(Some(entry(s, 1)), None);
    news.tick(Some(FeedEvent::Item { session: s, item: item(1, "again") }), None);
    assert_eq!(positions(&news), vec![1]);
    assert_eq!(news.items[0].title, "entry 1");
}

#[test]
fn out_of_range_entry_is_dropped() {
    let (mut news, s) = started(2);
    let back = news.tick(Some(entry(s, 2)), None);
    assert!(back.item.is_none());
    assert!(news.items.is_empty());
}

#[test]
fn reverse_results_give_same_list() {
    let run = |order: Vec<usize>| {
        let (mut news, s) = started(4);
        for p in 0..4 {
            news.tick(Some(entry(s, p)), None);
        }
        for p in order {
            let bitmap = if p == 2 { None } else { Some(10 + p as u32) };
            news.tick(None, Some(image(s, p, bitmap)));
        }
        news
    };
    let forward = run(vec![0, 1, 2, 3]);
    let reverse = run(vec![3, 2, 1, 0]);
    assert_eq!(positions(&forward), positions(&reverse));
    assert_eq!(thumbnails(&forward), thumbnails(&reverse));
    assert_eq!(thumbnails(&forward), vec![Some(10), Some(11), None, Some(13)]);
    assert_eq!(forward.image_load_counter, reverse.image_load_counter);
    assert_eq!(forward.phase, Phase::Settled);
    assert_eq!(reverse.phase, Phase::Settled);
}

#[test]
fn body_without_image_resolves_to_placeholder() {
    let url = get_image_url(Some("<p>only text</p>"));
    assert_eq!(url, None);
    let (mut news, s) = started(2);
    news.tick(Some(entry(s, 0)), None);
    news.tick(Some(entry(s, 1)), None);
    let result = get_image(s, 0, None::<u32>);
    assert!(matches!(result.outcome, Outcome::NoImage));
    news.tick(None, Some(result));
    assert!(news.items[0].image_updated);
    assert!(matches!(news.items[0].image, Thumbnail::Placeholder));
    assert!(!news.items[1].image_updated);
    news.tick(None, Some(image(s, 1, Some(9))));
    assert_eq!(news.phase, Phase::Settled);
}

#[test]
fn result_before_entry_is_handed_back() {
    let (mut news, s) = started(2);
    let back = news.tick(None, Some(image(s, 1, Some(3))));
    let again = back.image.expect("handed back");
    assert_eq!(again.pos, 1);
    news.tick(Some(entry(s, 1)), None);
    let back = news.tick(None, Some(again));
    assert!(back.image.is_none());
    assert_eq!(thumbnails(&news), vec![Some(3)]);
    assert_eq!(news.image_load_counter, 1);
}

#[test]
fn entry_before_count_is_handed_back() {
    let mut news: News<u32> = News::with_url("u".to_string());
    let s = news.refresh().unwrap();
    let back = news.tick(Some(entry(s, 0)), Some(image(s, 0, Some(1))));
    assert!(back.item.is_some());
    assert!(back.image.is_some());
    assert!(news.items.is_empty());
}

#[test]
fn tick_outside_session_changes_nothing() {
    let mut news: News<u32> = News::with_url("u".to_string());
    let back = news.tick(Some(FeedEvent::Listed { session: 0, total: 3 }), None);
    assert!(back.item.is_none());
    assert_eq!(news.phase, Phase::Idle);
    assert_eq!(news.item_count, 0);
}

#[test]
fn second_result_for_resolved_entry_is_dropped() {
    let (mut news, s) = started(2);
    news.tick(Some(entry(s, 0)), None);
    news.tick(None, Some(image(s, 0, Some(1))));
    news.tick(None, Some(image(s, 0, Some(2))));
    assert_eq!(thumbnails(&news), vec![Some(1)]);
    assert_eq!(news.image_load_counter, 1);
}

#[test]
fn feed_document_is_planned_in_order() {
    let plan = get_items::<u32>(7, Some(FEED.as_bytes()));
    match plan.listed {
        FeedEvent::Listed { session, total } => {
            assert_eq!(session, 7);
            assert_eq!(total, 3);
        }
        _ => panic!("expected the entry count"),
    }
    assert_eq!(plan.entries.len(), 3);
    let titles: Vec<String> = plan
        .entries
        .iter()
        .map(|e| match e {
            FeedEvent::Item { session, item } => {
                assert_eq!(*session, 7);
                assert!(!item.image_updated);
                format!("{}|{}|{}|{}", item.position, item.title, item.link, item.description)
            }
            _ => panic!("expected an entry"),
        })
        .collect();
    assert_eq!(
        titles,
        vec![
            "0|First|http://example.com/1|One",
            "1|Second|http://example.com/2|",
            "2|Third||Three"
        ]
    );
    assert_eq!(plan.jobs.len(), 3);
    assert_eq!(plan.jobs[1].position, 1);
    let urls: Vec<Option<String>> =
        plan.jobs.iter().map(|j| get_image_url(j.content.as_deref())).collect();
    assert_eq!(urls, vec![Some("http://example.com/1.jpg".to_string()), None, None]);
}

#[test]
fn full_refresh_from_document() {
    let mut news: News<u32> = News::with_url("u".to_string());
    let s = news.refresh().unwrap();
    let plan = get_items::<u32>(s, Some(FEED.as_bytes()));
    news.tick(Some(plan.listed), None);
    let mut results = Vec::new();
    for job in &plan.jobs {
        let found = get_image_url(job.content.as_deref()).map(|u| u.len() as u32);
        results.push(get_image(job.session, job.position, found));
    }
    let mut entries: std::collections::VecDeque<FeedEvent<u32>> = plan.entries.into_iter().collect();
    let mut pending: std::collections::VecDeque<ImgPos<u32>> = results.into_iter().rev().collect();
    let mut frames = 0;
    while news.is_loading() && frames < 20 {
        let back = news.tick(entries.pop_front(), pending.pop_front());
        if let Some(e) = back.item {
            entries.push_back(e);
        }
        if let Some(r) = back.image {
            pending.push_back(r);
        }
        frames += 1;
    }
    assert_eq!(positions(&news), vec![0, 1, 2]);
    assert_eq!(thumbnails(&news), vec![Some(24), None, None]);
    assert_eq!(news.phase, Phase::Settled);
}

#[test]
fn image_url_takes_first_match() {
    let body = r#"<p><img src="a.png"> and <img src="b.png"></p>"#;
    assert_eq!(get_image_url(Some(body)), Some("a.png".to_string()));
    assert_eq!(get_image_url(Some(r#"<img src="">"#)), None);
    assert_eq!(get_image_url(None), None);
}
