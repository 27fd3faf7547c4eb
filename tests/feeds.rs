use feed_ranker::classify::{classify, tags_from_hits};
use feed_ranker::feed::{ingest_documents, parse_feed, FeedDocument};
use feed_ranker::store::ArticleStore;
use feed_ranker::model::ArticleCategory;
use feed_ranker::parse::{build_article, choose_image, FeedEnclosure, FeedItem};

fn empty_item() -> FeedItem {
    FeedItem {
        title: None,
        link: None,
        description: None,
        content: None,
        guid: None,
        pub_date: None,
        author: None,
        dc_creator: None,
        enclosure: None,
        media_content_url: None,
    }
}

#[test]
fn classify_adds_detected_topics_in_rule_order() {
    let tags = classify("Tauri apps with React", "Built in Rust", ArticleCategory::Web);
    assert_eq!(tags, vec![ArticleCategory::Web, ArticleCategory::Rust, ArticleCategory::React, ArticleCategory::Tauri]);
}

#[test]
fn classify_drops_leading_general_when_specialised() {
    let tags = classify("New LLM tooling", "", ArticleCategory::General);
    assert_eq!(tags, vec![ArticleCategory::AI]);
    let plain = classify("Gardening tips", "", ArticleCategory::General);
    assert_eq!(plain, vec![ArticleCategory::General]);
}

#[test]
fn classify_matches_whole_words_only() {
    let tags = classify("Trusty rusted tools", "said the reactor", ArticleCategory::Kotlin);
    assert_eq!(tags, vec![ArticleCategory::Kotlin]);
    let again = classify("Trusty rusted tools", "said the reactor", ArticleCategory::Kotlin);
    assert_eq!(tags, again);
}

#[test]
fn classify_does_not_repeat_the_source() {
    let tags = classify("RUST news", "", ArticleCategory::Rust);
    assert_eq!(tags, vec![ArticleCategory::Rust]);
}

#[test]
fn article_fields_and_fallbacks() {
    let mut item = empty_item();
    item.title = Some("Android 15".to_string());
    item.link = Some("http://x/1".to_string());
    item.description = Some("é".repeat(300));
    item.dc_creator = Some("Ann".to_string());
    let a = build_article(&item, ArticleCategory::General);
    assert_eq!(a.id, "http://x/1");
    assert_eq!(a.url, "http://x/1");
    assert_eq!(a.summary.chars().count(), 250);
    assert_eq!(a.author, Some("Ann".to_string()));
    assert_eq!(a.tags, vec![ArticleCategory::Android]);
    assert!(a.feedback.is_none());
    assert_eq!(a.published_at, "");

    let mut item = empty_item();
    item.guid = Some("g-1".to_string());
    item.link = Some("http://x/2".to_string());
    item.author = Some("Bob".to_string());
    item.dc_creator = Some("Ann".to_string());
    let b = build_article(&item, ArticleCategory::Rust);
    assert_eq!(b.id, "g-1");
    assert_eq!(b.author, Some("Bob".to_string()));
    assert_eq!(b.title, "");

    let c = build_article(&empty_item(), ArticleCategory::Web);
    assert_eq!(c.id, "");
}

#[test]
fn image_resolution_order() {
    let mut item = empty_item();
    item.description = Some("<p><img class=\"x\" src=\"http://img/d.png\"></p>".to_string());
    item.content = Some("<img src='http://img/c.png'>".to_string());
    assert_eq!(build_article(&item, ArticleCategory::Web).image_url, Some("http://img/d.png".to_string()));

    item.media_content_url = Some("http://img/m.png".to_string());
    assert_eq!(build_article(&item, ArticleCategory::Web).image_url, Some("http://img/m.png".to_string()));

    item.enclosure = Some(FeedEnclosure { url: "http://a/audio.mp3".to_string(), mime_type: "audio/mpeg".to_string() });
    assert_eq!(build_article(&item, ArticleCategory::Web).image_url, Some("http://img/m.png".to_string()));

    item.enclosure = Some(FeedEnclosure { url: "http://img/e.jpg".to_string(), mime_type: "image/jpeg".to_string() });
    assert_eq!(build_article(&item, ArticleCategory::Web).image_url, Some("http://img/e.jpg".to_string()));

    let mut item = empty_item();
    item.description = Some("no picture".to_string());
    item.content = Some("<img alt=\"c\" src=\"http://img/c.png\">".to_string());
    assert_eq!(build_article(&item, ArticleCategory::Web).image_url, Some("http://img/c.png".to_string()));
}

#[test]
fn image_beyond_scan_limit_is_ignored() {
    let mut item = empty_item();
    item.description = Some(format!("{}<img src=\"http://img/late.png\">", "x".repeat(5000)));
    assert_eq!(build_article(&item, ArticleCategory::Web).image_url, None);
}

#[test]
fn rss_document_is_parsed() {
    let doc = r#"<?xml version="1.0"?>
<rss version="2.0" xmlns:dc="http://purl.org/dc/elements/1.1/">
<channel>
<title>T</title><link>http://site</link><description>D</description>
<item>
<title>Rust 1.85 Released with Async improvements</title>
<link>http://site/rust</link>
<guid>rust-185</guid>
<description>Release notes &lt;img src="http://site/logo.png"&gt;</description>
<pubDate>Thu, 20 Feb 2025 00:00:00 +0000</pubDate>
<dc:creator>Core Team</dc:creator>
</item>
<item>
<title>Weekly links</title>
<link>http://site/weekly</link>
</item>
</channel>
</rss>"#;
    let articles = parse_feed(doc.as_bytes(), ArticleCategory::General).unwrap();
    assert_eq!(articles.len(), 2);
    assert_eq!(articles[0].id, "rust-185");
    assert_eq!(articles[0].tags, vec![ArticleCategory::Rust]);
    assert_eq!(articles[0].image_url, Some("http://site/logo.png".to_string()));
    assert_eq!(articles[0].author, Some("Core Team".to_string()));
    assert_eq!(articles[0].published_at, "Thu, 20 Feb 2025 00:00:00 +0000");
    assert_eq!(articles[1].id, "http://site/weekly");
    assert_eq!(articles[1].tags, vec![ArticleCategory::General]);
}

#[test]
fn malformed_document_is_an_error() {
    assert!(parse_feed(b"not a feed", ArticleCategory::Rust).is_err());
}

#[test]
fn tags_from_pattern_hits() {
    assert_eq!(tags_from_hits(ArticleCategory::General, &vec![false, false, false, false, true]), vec![ArticleCategory::AI]);
    assert_eq!(tags_from_hits(ArticleCategory::General, &vec![false; 5]), vec![ArticleCategory::General]);
    assert_eq!(
        tags_from_hits(ArticleCategory::Web, &vec![true, true, false, true, false]),
        vec![ArticleCategory::Web, ArticleCategory::Rust, ArticleCategory::React, ArticleCategory::Tauri]
    );
    assert_eq!(tags_from_hits(ArticleCategory::Android, &vec![false, false, true, false, false]), vec![ArticleCategory::Android]);
}

#[test]
fn image_choice_from_found_images() {
    let mut item = empty_item();
    assert_eq!(choose_image(&item, None, Some("c".to_string())), Some("c".to_string()));
    assert_eq!(choose_image(&item, Some("d".to_string()), Some("c".to_string())), Some("d".to_string()));
    item.enclosure = Some(FeedEnclosure { url: "e".to_string(), mime_type: "image/png".to_string() });
    assert_eq!(choose_image(&item, Some("d".to_string()), None), Some("e".to_string()));
}

#[test]
fn ingestion_skips_and_reports_bad_documents() {
    let good = |title: &str, link: &str| {
        format!(
            "<?xml version=\"1.0\"?><rss version=\"2.0\"><channel><title>T</title><link>http://s</link><description>D</description><item><title>{}</title><link>{}</link></item></channel></rss>",
            title, link
        )
        .into_bytes()
    };
    let documents = vec![
        FeedDocument { body: good("Rust news", "http://s/1"), category: ArticleCategory::General },
        FeedDocument { body: b"garbage".to_vec(), category: ArticleCategory::Web },
        FeedDocument { body: good("React news", "http://s/2"), category: ArticleCategory::Web },
    ];
    let mut store = ArticleStore::new();
    let report = ingest_documents(&mut store, &documents);
    assert_eq!(report.new_items, 2);
    assert_eq!(report.failures.len(), 1);
    let rows = store.all_articles();
    assert_eq!(rows[0].url, "http://s/1");
    assert_eq!(rows[0].tags, vec![ArticleCategory::Rust]);
    assert_eq!(rows[1].tags, vec![ArticleCategory::Web, ArticleCategory::React]);
}
