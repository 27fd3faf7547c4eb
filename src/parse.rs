use vstd::prelude::*;
use crate::classify::{classification, classify};
use crate::model::{copy_opt_string, opt_str_view, Article, ArticleCategory, ArticleView};
use crate::text::{
    regex_capture, regex_first_group, starts_with_seq, str_starts_with, take_chars,
    truncate_chars,
};

verus! {

/// Characters of a description kept as the summary.
pub const SUMMARY_LIMIT: usize = 250;

/// Characters of a body scanned for an inline image.
pub const IMAGE_SCAN_LIMIT: usize = 5000;

/// An `<img ... src="...">` tag; group 1 is the source.
pub open spec fn img_pattern() -> &'static str {
    "<img[^>]+src=[\"']([^\"']+)[\"']"
}

/// A media enclosure of a feed item.
#[derive(Clone, Debug)]
pub struct FeedEnclosure {
    pub url: String,
    pub mime_type: String,
}

/// The fields of one feed item that articles are built from.
#[derive(Clone, Debug)]
pub struct FeedItem {
    pub title: Option<String>,
    pub link: Option<String>,
    pub description: Option<String>,
    pub content: Option<String>,
    pub guid: Option<String>,
    pub pub_date: Option<String>,
    pub author: Option<String>,
    /// The first Dublin Core creator, if any.
    pub dc_creator: Option<String>,
    pub enclosure: Option<FeedEnclosure>,
    /// The `url` attribute of the first media-extension content block.
    pub media_content_url: Option<String>,
}

pub open spec fn or_empty(o: Option<String>) -> Seq<char> {
    match o {
        Some(s) => s@,
        None => seq![],
    }
}

/// The image of an item, given the inline images found in its description
/// and in its content: an image enclosure, else a media-extension content
/// url, else the description's image, else the content's.
pub open spec fn pick_image(
    item: FeedItem,
    description_image: Option<Seq<char>>,
    content_image: Option<Seq<char>>,
) -> Option<Seq<char>> {
    let enclosure_image = match item.enclosure {
        Some(e) => if starts_with_seq(e.mime_type@, "image"@) {
            Some(e.url@)
        } else {
            None
        },
        None => None,
    };
    if enclosure_image.is_some() {
        enclosure_image
    } else if item.media_content_url.is_some() {
        opt_str_view(item.media_content_url)
    } else if description_image.is_some() {
        description_image
    } else {
        content_image
    }
}

/// The first inline image of a body, scanned up to a bounded prefix.
pub open spec fn inline_image(body: Option<String>) -> Option<Seq<char>> {
    regex_first_group(img_pattern()@, take_chars(or_empty(body), IMAGE_SCAN_LIMIT as nat))
}

/// The image of an item.
pub open spec fn image_of(item: FeedItem) -> Option<Seq<char>> {
    pick_image(item, inline_image(item.description), inline_image(item.content))
}

/// The author field, else the first Dublin Core creator.
pub open spec fn author_of(item: FeedItem) -> Option<Seq<char>> {
    if item.author.is_some() {
        opt_str_view(item.author)
    } else {
        opt_str_view(item.dc_creator)
    }
}

/// The guid, else the link, else the empty text.
pub open spec fn id_of(item: FeedItem) -> Seq<char> {
    if item.guid.is_some() {
        or_empty(item.guid)
    } else {
        or_empty(item.link)
    }
}

/// The article a feed item of a source of category `source` becomes.
pub open spec fn article_of(item: FeedItem, source: ArticleCategory) -> ArticleView {
    ArticleView {
        id: id_of(item),
        title: or_empty(item.title),
        summary: take_chars(or_empty(item.description), SUMMARY_LIMIT as nat),
        url: or_empty(item.link),
        tags: classification(or_empty(item.title), or_empty(item.description), source),
        published_at: or_empty(item.pub_date),
        feedback: None,
        image_url: image_of(item),
        author: author_of(item),
    }
}

fn text_or_empty(o: &Option<String>) -> (r: String)
    ensures
        r@ == or_empty(*o),
{
    match o {
        Some(s) => s.clone(),
        None => String::new(),
    }
}

fn find_inline_image(body: &Option<String>) -> (r: Option<String>)
    ensures
        opt_str_view(r) == inline_image(*body),
{
    let text = text_or_empty(body);
    let head = truncate_chars(text.as_str(), IMAGE_SCAN_LIMIT);
    regex_capture("<img[^>]+src=[\"']([^\"']+)[\"']", head.as_str())
}

/// The image of `item`, given the inline images found in its description
/// and its content.
pub fn choose_image(
    item: &FeedItem,
    description_image: Option<String>,
    content_image: Option<String>,
) -> (r: Option<String>)
    ensures
        opt_str_view(r) == pick_image(
            *item,
            opt_str_view(description_image),
            opt_str_view(content_image),
        ),
{
    if let Some(e) = &item.enclosure {
        if str_starts_with(e.mime_type.as_str(), "image") {
            return Some(e.url.clone());
        }
    }
    if item.media_content_url.is_some() {
        return copy_opt_string(&item.media_content_url);
    }
    if description_image.is_some() {
        description_image
    } else {
        content_image
    }
}

fn find_image(item: &FeedItem) -> (r: Option<String>)
    ensures
        opt_str_view(r) == image_of(*item),
{
    let description_image = find_inline_image(&item.description);
    let content_image = find_inline_image(&item.content);
    choose_image(item, description_image, content_image)
}

/// Builds the article for one feed item from a source of category `source`.
pub fn build_article(item: &FeedItem, source: ArticleCategory) -> (r: Article)
    ensures
        r@ == article_of(*item, source),
        r.wf(),
{
    let title = text_or_empty(&item.title);
    let description = text_or_empty(&item.description);
    let tags = classify(title.as_str(), description.as_str(), source);
    proof {
        crate::classify::lemma_classification_shape(title@, description@, source);
    }
    let id = if item.guid.is_some() {
        text_or_empty(&item.guid)
    } else {
        text_or_empty(&item.link)
    };
    let author = if item.author.is_some() {
        copy_opt_string(&item.author)
    } else {
        copy_opt_string(&item.dc_creator)
    };
    Article {
        id,
        title,
        summary: truncate_chars(description.as_str(), SUMMARY_LIMIT),
        url: text_or_empty(&item.link),
        tags,
        published_at: text_or_empty(&item.pub_date),
        feedback: None,
        image_url: find_image(item),
        author,
    }
}

/// The articles of a feed's items, in feed order.
pub fn articles_from_items(items: &Vec<FeedItem>, source: ArticleCategory) -> (r: Vec<Article>)
    ensures
        r@.len() == items@.len(),
        forall|i: int| 0 <= i < items@.len() ==> (#[trigger] r@[i])@ == article_of(items@[i], source),
        forall|i: int| 0 <= i < r@.len() ==> (#[trigger] r@[i]).wf(),
{
    let mut r: Vec<Article> = Vec::new();
    let mut i: usize = 0;
    while i < items.len()
        invariant
            i <= items@.len(),
            r@.len() == i,
            forall|k: int| 0 <= k < i ==> (#[trigger] r@[k])@ == article_of(items@[k], source),
            forall|k: int| 0 <= k < i ==> (#[trigger] r@[k]).wf(),
        decreases items@.len() - i,
    {
        r.push(build_article(&items[i], source));
        i += 1;
    }
    r
}

} // verus!
