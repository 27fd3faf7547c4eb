use vstd::prelude::*;
use crate::model::{lemma_views_concat, views, Article, ArticleCategory, ArticleView};
use crate::store::{new_count, upsert_all, ArticleStore};
use crate::parse::{article_of, articles_from_items, FeedEnclosure, FeedItem};

verus! {

#[verifier::external_type_specification]
#[verifier::external_body]
pub struct ExItem(rss::Item);

#[verifier::external_type_specification]
#[verifier::external_body]
pub struct ExEnclosure(rss::Enclosure);

#[verifier::external_type_specification]
#[verifier::external_body]
pub struct ExGuid(rss::Guid);

#[verifier::external_type_specification]
#[verifier::external_body]
pub struct ExDublinCoreExtension(rss::extension::dublincore::DublinCoreExtension);

/// Relies on `rss::Item::title`.
pub assume_specification[ rss::Item::title ](item: &rss::Item) -> Option<&str>;

/// Relies on `rss::Item::link`.
pub assume_specification[ rss::Item::link ](item: &rss::Item) -> Option<&str>;

/// Relies on `rss::Item::description`.
pub assume_specification[ rss::Item::description ](item: &rss::Item) -> Option<&str>;

/// Relies on `rss::Item::content`.
pub assume_specification[ rss::Item::content ](item: &rss::Item) -> Option<&str>;

/// Relies on `rss::Item::author`.
pub assume_specification[ rss::Item::author ](item: &rss::Item) -> Option<&str>;

/// Relies on `rss::Item::pub_date`.
pub assume_specification[ rss::Item::pub_date ](item: &rss::Item) -> Option<&str>;

/// Relies on `rss::Item::guid`.
pub assume_specification[ rss::Item::guid ](item: &rss::Item) -> Option<&rss::Guid>;

/// Relies on `rss::Item::enclosure`.
pub assume_specification[ rss::Item::enclosure ](item: &rss::Item) -> Option<&rss::Enclosure>;

/// Relies on `rss::Item::dublin_core_ext`.
pub assume_specification[ rss::Item::dublin_core_ext ](item: &rss::Item) -> Option<
    &rss::extension::dublincore::DublinCoreExtension,
>;

/// Relies on `rss::Guid::value`.
pub assume_specification[ rss::Guid::value ](guid: &rss::Guid) -> &str;

/// Relies on `rss::Enclosure::url`.
pub assume_specification[ rss::Enclosure::url ](enclosure: &rss::Enclosure) -> &str;

/// Relies on `rss::Enclosure::mime_type`.
pub assume_specification[ rss::Enclosure::mime_type ](enclosure: &rss::Enclosure) -> &str;

/// Relies on `rss::extension::dublincore::DublinCoreExtension::creators`.
pub assume_specification[ rss::extension::dublincore::DublinCoreExtension::creators ](
    ext: &rss::extension::dublincore::DublinCoreExtension,
) -> &[String];

/// Relies on `rss::Item::extensions` and `rss::extension::Extension::attrs`:
/// the `url` attribute of the first `media:content` element of the item.
#[verifier::external_body]
fn media_content_url(item: &rss::Item) -> Option<String> {
    item.extensions().get("media").and_then(|m| m.get("content")).and_then(|c| c.first()).and_then(
        |e| e.attrs().get("url"),
    ).map(|u| u.to_string())
}

fn owned(o: Option<&str>) -> Option<String> {
    match o {
        Some(s) => Some(s.to_owned()),
        None => None,
    }
}

/// The fields of an RSS item that articles are built from.
fn feed_item(item: &rss::Item) -> FeedItem {
    let guid = match item.guid() {
        Some(g) => Some(g.value().to_owned()),
        None => None,
    };
    let dc_creator = match item.dublin_core_ext() {
        Some(dc) => {
            let creators = dc.creators();
            if creators.len() > 0 {
                Some(creators[0].clone())
            } else {
                None
            }
        },
        None => None,
    };
    let enclosure = match item.enclosure() {
        Some(e) => Some(FeedEnclosure { url: e.url().to_owned(), mime_type: e.mime_type().to_owned() }),
        None => None,
    };
    FeedItem {
        title: owned(item.title()),
        link: owned(item.link()),
        description: owned(item.description()),
        content: owned(item.content()),
        guid,
        pub_date: owned(item.pub_date()),
        author: owned(item.author()),
        dc_creator,
        enclosure,
        media_content_url: media_content_url(item),
    }
}

/// The items of an RSS document as `rss::Channel::read_from` reads them,
/// each taken apart by `feed_item`; none where the document does not parse.
pub uninterp spec fn feed_items_of(content: Seq<u8>) -> Option<Seq<FeedItem>>;

/// Relies on `rss::Channel::read_from` and `rss::Channel::items`: the items
/// of the document, in document order, or the parser's message.
#[verifier::external_body]
fn read_feed_items(content: &[u8]) -> (r: Result<Vec<FeedItem>, String>)
    ensures
        match r {
            Ok(items) => feed_items_of(content@) == Some(items@),
            Err(_) => feed_items_of(content@).is_none(),
        },
{
    match rss::Channel::read_from(content) {
        Ok(channel) => Ok(channel.items().iter().map(feed_item).collect()),
        Err(e) => Err(e.to_string()),
    }
}

/// The articles that feed items from a source of category `source` become.
pub open spec fn feed_articles(items: Seq<FeedItem>, source: ArticleCategory) -> Seq<ArticleView> {
    items.map_values(|item: FeedItem| article_of(item, source))
}

/// Parses one RSS document from a source of category `source` into its
/// articles, in feed order; a malformed document gives the parser's message.
pub fn parse_feed(content: &[u8], source: ArticleCategory) -> (r: Result<Vec<Article>, String>)
    ensures
        r.is_ok() == feed_items_of(content@).is_some(),
        match r {
            Ok(articles) => {
                &&& views(articles@) == feed_articles(feed_items_of(content@)->0, source)
                &&& forall|i: int| 0 <= i < articles@.len() ==> (#[trigger] articles@[i]).wf()
            },
            Err(_) => true,
        },
{
    match read_feed_items(content) {
        Ok(items) => {
            let articles = articles_from_items(&items, source);
            proof {
                assert(views(articles@) =~= feed_articles(items@, source));
            }
            Ok(articles)
        },
        Err(message) => Err(message),
    }
}

} // verus!

verus! {

/// The body of one fetched feed and the category of its source.
pub struct FeedDocument {
    pub body: Vec<u8>,
    pub category: ArticleCategory,
}

/// What one ingestion pass did.
pub struct IngestReport {
    /// Articles whose url was not stored before.
    pub new_items: usize,
    /// The parser's message for each document that could not be read.
    pub failures: Vec<String>,
}

/// The articles of one fetched document; none where it does not parse.
pub open spec fn document_articles(doc: FeedDocument) -> Seq<ArticleView> {
    match feed_items_of(doc.body@) {
        Some(items) => feed_articles(items, doc.category),
        None => seq![],
    }
}

/// The articles of all documents that parse, in document order.
pub open spec fn ingested_batch(docs: Seq<FeedDocument>) -> Seq<ArticleView>
    decreases docs.len(),
{
    if docs.len() == 0 {
        seq![]
    } else {
        ingested_batch(docs.drop_last()) + document_articles(docs.last())
    }
}

/// How many documents do not parse.
pub open spec fn failed_count(docs: Seq<FeedDocument>) -> nat
    decreases docs.len(),
{
    if docs.len() == 0 {
        0
    } else {
        failed_count(docs.drop_last()) + if feed_items_of(docs.last().body@).is_none() {
            1nat
        } else {
            0
        }
    }
}

/// Parses every document, skips (and reports) those that do not parse, and
/// upserts the articles of all the others as one batch, in document order.
pub fn ingest_documents(store: &mut ArticleStore, documents: &Vec<FeedDocument>) -> (r: IngestReport)
    requires
        old(store).wf(),
    ensures
        final(store).wf(),
        final(store)@ == upsert_all(old(store)@, ingested_batch(documents@)),
        r.new_items == new_count(old(store)@, ingested_batch(documents@)),
        r.failures@.len() == failed_count(documents@),
{
    let mut batch: Vec<Article> = Vec::new();
    let mut failures: Vec<String> = Vec::new();
    let mut i: usize = 0;
    while i < documents.len()
        invariant
            i <= documents@.len(),
            forall|k: int| 0 <= k < batch@.len() ==> (#[trigger] batch@[k]).wf(),
            views(batch@) == ingested_batch(documents@.subrange(0, i as int)),
            failures@.len() == failed_count(documents@.subrange(0, i as int)),
        decreases documents@.len() - i,
    {
        let doc = &documents[i];
        proof {
            assert(documents@.subrange(0, i + 1).drop_last() =~= documents@.subrange(0, i as int));
            assert(documents@.subrange(0, i + 1).last() == *doc);
        }
        match parse_feed(doc.body.as_slice(), doc.category) {
            Ok(mut articles) => {
                let ghost before = batch@;
                let ghost added = articles@;
                batch.append(&mut articles);
                proof {
                    lemma_views_concat(before, added);
                    assert forall|k: int| 0 <= k < batch@.len() implies (#[trigger] batch@[k]).wf() by {
                        if k < before.len() {
                            assert(batch@[k] == before[k]);
                        } else {
                            assert(batch@[k] == added[k - before.len()]);
                        }
                    }
                }
            },
            Err(message) => {
                failures.push(message);
                proof {
                    assert(document_articles(*doc) =~= Seq::<ArticleView>::empty());
                    assert(views(batch@) =~= views(batch@) + document_articles(*doc));
                }
            },
        }
        i += 1;
    }
    proof {
        assert(documents@.subrange(0, i as int) =~= documents@);
    }
    let new_items = store.upsert_many(batch);
    IngestReport { new_items, failures }
}

} // verus!

verus! {

/// The configured feed sources, each with the category of its articles.
pub open spec fn feed_sources() -> Seq<(&'static str, ArticleCategory)> {
    seq![
        ("https://blog.rust-lang.org/feed.xml", ArticleCategory::Rust),
        ("https://this-week-in-rust.org/rss.xml", ArticleCategory::Rust),
        ("https://feeds.feedburner.com/blogspot/hsDu", ArticleCategory::Android),
        ("https://androidweekly.net/rss", ArticleCategory::Android),
        ("https://tauri.app/blog/rss.xml", ArticleCategory::Tauri),
        ("https://devblogs.microsoft.com/typescript/feed/", ArticleCategory::TypeScript),
        ("https://css-tricks.com/feed/", ArticleCategory::Web),
        ("https://www.smashingmagazine.com/feed/", ArticleCategory::Web),
        ("https://web.dev/feed.xml", ArticleCategory::Web),
        ("https://fettblog.eu/feed.xml", ArticleCategory::TypeScript),
        ("https://levelup.gitconnected.com/feed", ArticleCategory::Web),
        ("https://2ality.com/feeds/posts.xml", ArticleCategory::TypeScript),
        ("https://react.dev/feed.xml", ArticleCategory::React),
        ("https://overreacted.io/rss.xml", ArticleCategory::React),
        ("https://tkdodo.eu/blog/rss.xml", ArticleCategory::React),
        ("https://kentcdodds.com/blog/rss.xml", ArticleCategory::React),
        ("https://www.joshwcomeau.com/rss.xml", ArticleCategory::React),
        ("https://robinwieruch.de/index.xml", ArticleCategory::React),
        ("https://ui.dev/blog/rss", ArticleCategory::React),
        ("https://www.developerway.com/rss.xml", ArticleCategory::React),
        ("https://openai.com/blog/rss.xml", ArticleCategory::AI),
        ("https://blogs.microsoft.com/ai/feed/", ArticleCategory::AI),
        ("https://news.ycombinator.com/rss", ArticleCategory::General),
        ("https://dev.to/feed", ArticleCategory::General),
    ]
}

/// The feed sources to fetch on a refresh.
pub fn get_feeds() -> (r: Vec<(&'static str, ArticleCategory)>)
    ensures
        r@ == feed_sources(),
{
    vec![
        ("https://blog.rust-lang.org/feed.xml", ArticleCategory::Rust),
        ("https://this-week-in-rust.org/rss.xml", ArticleCategory::Rust),
        ("https://feeds.feedburner.com/blogspot/hsDu", ArticleCategory::Android),
        ("https://androidweekly.net/rss", ArticleCategory::Android),
        ("https://tauri.app/blog/rss.xml", ArticleCategory::Tauri),
        ("https://devblogs.microsoft.com/typescript/feed/", ArticleCategory::TypeScript),
        ("https://css-tricks.com/feed/", ArticleCategory::Web),
        ("https://www.smashingmagazine.com/feed/", ArticleCategory::Web),
        ("https://web.dev/feed.xml", ArticleCategory::Web),
        ("https://fettblog.eu/feed.xml", ArticleCategory::TypeScript),
        ("https://levelup.gitconnected.com/feed", ArticleCategory::Web),
        ("https://2ality.com/feeds/posts.xml", ArticleCategory::TypeScript),
        ("https://react.dev/feed.xml", ArticleCategory::React),
        ("https://overreacted.io/rss.xml", ArticleCategory::React),
        ("https://tkdodo.eu/blog/rss.xml", ArticleCategory::React),
        ("https://kentcdodds.com/blog/rss.xml", ArticleCategory::React),
        ("https://www.joshwcomeau.com/rss.xml", ArticleCategory::React),
        ("https://robinwieruch.de/index.xml", ArticleCategory::React),
        ("https://ui.dev/blog/rss", ArticleCategory::React),
        ("https://www.developerway.com/rss.xml", ArticleCategory::React),
        ("https://openai.com/blog/rss.xml", ArticleCategory::AI),
        ("https://blogs.microsoft.com/ai/feed/", ArticleCategory::AI),
        ("https://news.ycombinator.com/rss", ArticleCategory::General),
        ("https://dev.to/feed", ArticleCategory::General),
    ]
}

} // verus!
