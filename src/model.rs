use vstd::prelude::*;

verus! {

/// Topic tag of an article, also used as a user-interest key.
/// `Other` stands for any tag this library does not recognise.
#[derive(Clone, Copy, Debug, PartialEq, Eq, Structural)]
pub enum ArticleCategory {
    Rust,
    Tauri,
    React,
    TypeScript,
    Android,
    Kotlin,
    Web,
    AI,
    General,
    Other,
}

/// A distinct number for each category, used to bound the size of a tag set.
pub open spec fn category_index(c: ArticleCategory) -> int {
    match c {
        ArticleCategory::Rust => 0,
        ArticleCategory::Tauri => 1,
        ArticleCategory::React => 2,
        ArticleCategory::TypeScript => 3,
        ArticleCategory::Android => 4,
        ArticleCategory::Kotlin => 5,
        ArticleCategory::Web => 6,
        ArticleCategory::AI => 7,
        ArticleCategory::General => 8,
        ArticleCategory::Other => 9,
    }
}

/// A tag list without repetitions holds at most one entry per category.
pub proof fn lemma_distinct_tags_bounded(tags: Seq<ArticleCategory>)
    requires
        tags.no_duplicates(),
    ensures
        tags.len() <= 10,
{
    let idx = tags.map_values(|c: ArticleCategory| category_index(c));
    assert(idx.no_duplicates()) by {
        assert forall|i: int, j: int|
            0 <= i < idx.len() && 0 <= j < idx.len() && i != j implies idx[i] != idx[j] by {
            assert(tags[i] != tags[j]);
        }
    }
    idx.unique_seq_to_set();
    let full = vstd::set_lib::set_int_range(0, 10);
    vstd::set_lib::lemma_int_range(0, 10);
    assert(idx.to_set().subset_of(full));
    vstd::set_lib::lemma_len_subset(idx.to_set(), full);
}

/// Explicit judgement of one article by the user.
#[derive(Clone, Debug)]
pub struct Feedback {
    pub is_helpful: bool,
    pub reason: String,
    pub created_at: String,
}

pub struct FeedbackView {
    pub is_helpful: bool,
    pub reason: Seq<char>,
    pub created_at: Seq<char>,
}

impl View for Feedback {
    type V = FeedbackView;

    open spec fn view(&self) -> FeedbackView {
        FeedbackView {
            is_helpful: self.is_helpful,
            reason: self.reason@,
            created_at: self.created_at@,
        }
    }
}

pub open spec fn opt_str_view(o: Option<String>) -> Option<Seq<char>> {
    match o {
        Some(s) => Some(s@),
        None => None,
    }
}

pub open spec fn opt_feedback_view(o: Option<Feedback>) -> Option<FeedbackView> {
    match o {
        Some(f) => Some(f@),
        None => None,
    }
}

/// One item of a syndication feed, as stored and ranked.
#[derive(Clone, Debug)]
pub struct Article {
    pub id: String,
    pub title: String,
    pub summary: String,
    pub url: String,
    pub tags: Vec<ArticleCategory>,
    pub published_at: String,
    pub feedback: Option<Feedback>,
    pub image_url: Option<String>,
    pub author: Option<String>,
}

pub struct ArticleView {
    pub id: Seq<char>,
    pub title: Seq<char>,
    pub summary: Seq<char>,
    pub url: Seq<char>,
    pub tags: Seq<ArticleCategory>,
    pub published_at: Seq<char>,
    pub feedback: Option<FeedbackView>,
    pub image_url: Option<Seq<char>>,
    pub author: Option<Seq<char>>,
}

impl View for Article {
    type V = ArticleView;

    open spec fn view(&self) -> ArticleView {
        ArticleView {
            id: self.id@,
            title: self.title@,
            summary: self.summary@,
            url: self.url@,
            tags: self.tags@,
            published_at: self.published_at@,
            feedback: opt_feedback_view(self.feedback),
            image_url: opt_str_view(self.image_url),
            author: opt_str_view(self.author),
        }
    }
}

/// The views of a sequence of articles.
pub open spec fn views(s: Seq<Article>) -> Seq<ArticleView> {
    s.map_values(|a: Article| a@)
}

/// The views of a sequence of feedback entries.
pub open spec fn feedback_views(s: Seq<Feedback>) -> Seq<FeedbackView> {
    s.map_values(|f: Feedback| f@)
}

pub proof fn lemma_views_push(s: Seq<Article>, a: Article)
    ensures
        views(s.push(a)) == views(s).push(a@),
{
    assert(views(s.push(a)) =~= views(s).push(a@));
}

pub proof fn lemma_views_concat(s: Seq<Article>, t: Seq<Article>)
    ensures
        views(s + t) == views(s) + views(t),
{
    assert(views(s + t) =~= views(s) + views(t));
}

impl ArticleView {
    /// The tag list is an ordered set: no category appears twice.
    pub open spec fn wf(self) -> bool {
        self.tags.no_duplicates()
    }

    pub open spec fn is_judged(self) -> bool {
        self.feedback.is_some()
    }
}

impl Article {
    pub open spec fn wf(&self) -> bool {
        self@.wf()
    }
}

/// Short free-text summary of the user's inferred taste.
#[derive(Clone, Debug)]
pub struct UserPersona {
    pub description: String,
    pub last_updated: String,
}

/// The categories the user explicitly asked for.
#[derive(Clone, Debug)]
pub struct UserPreferences {
    pub interested_tags: Vec<ArticleCategory>,
}

pub fn copy_opt_string(o: &Option<String>) -> (r: Option<String>)
    ensures
        opt_str_view(r) == opt_str_view(*o),
{
    match o {
        Some(s) => Some(s.clone()),
        None => None,
    }
}

pub fn copy_feedback(f: &Feedback) -> (r: Feedback)
    ensures
        r@ == f@,
{
    Feedback { is_helpful: f.is_helpful, reason: f.reason.clone(), created_at: f.created_at.clone() }
}

pub fn copy_opt_feedback(o: &Option<Feedback>) -> (r: Option<Feedback>)
    ensures
        opt_feedback_view(r) == opt_feedback_view(*o),
{
    match o {
        Some(f) => Some(copy_feedback(f)),
        None => None,
    }
}

pub fn copy_tags(tags: &Vec<ArticleCategory>) -> (r: Vec<ArticleCategory>)
    ensures
        r@ == tags@,
{
    let mut r: Vec<ArticleCategory> = Vec::new();
    let mut i: usize = 0;
    while i < tags.len()
        invariant
            i <= tags.len(),
            r@ == tags@.subrange(0, i as int),
        decreases tags.len() - i,
    {
        r.push(tags[i]);
        i += 1;
        proof {
            assert(r@ =~= tags@.subrange(0, i as int));
        }
    }
    proof {
        assert(r@ =~= tags@);
    }
    r
}

pub fn copy_article(a: &Article) -> (r: Article)
    ensures
        r@ == a@,
{
    Article {
        id: a.id.clone(),
        title: a.title.clone(),
        summary: a.summary.clone(),
        url: a.url.clone(),
        tags: copy_tags(&a.tags),
        published_at: a.published_at.clone(),
        feedback: copy_opt_feedback(&a.feedback),
        image_url: copy_opt_string(&a.image_url),
        author: copy_opt_string(&a.author),
    }
}

} // verus!

verus! {

/// Whether no category appears twice in `tags`.
pub fn tags_distinct(tags: &Vec<ArticleCategory>) -> (r: bool)
    ensures
        r == tags@.no_duplicates(),
{
    let mut i: usize = 0;
    while i < tags.len()
        invariant
            i <= tags@.len(),
            forall|x: int, y: int| 0 <= x < y < tags@.len() && x < i ==> tags@[x] != tags@[y],
        decreases tags@.len() - i,
    {
        let mut j: usize = i + 1;
        while j < tags.len()
            invariant
                i < tags@.len(),
                i + 1 <= j <= tags@.len(),
                forall|x: int, y: int| 0 <= x < y < tags@.len() && x < i ==> tags@[x] != tags@[y],
                forall|y: int| i < y < j ==> tags@[i as int] != tags@[y],
            decreases tags@.len() - j,
        {
            if tags[i] == tags[j] {
                return false;
            }
            j += 1;
        }
        i += 1;
    }
    true
}

/// Whether every article's tags are an ordered set.
pub fn all_well_formed(articles: &Vec<Article>) -> (r: bool)
    ensures
        r == forall|i: int| 0 <= i < articles@.len() ==> (#[trigger] articles@[i]).wf(),
{
    let mut i: usize = 0;
    while i < articles.len()
        invariant
            i <= articles@.len(),
            forall|k: int| 0 <= k < i ==> (#[trigger] articles@[k]).wf(),
        decreases articles@.len() - i,
    {
        if !tags_distinct(&articles[i].tags) {
            return false;
        }
        i += 1;
    }
    true
}

} // verus!
