use vstd::prelude::*;
use crate::model::{Article, ArticleCategory, ArticleView, lemma_distinct_tags_bounded};
use crate::text::{chars_of, contains_seq, lower_of, lowercase, seq_contains};

verus! {

pub const SCORE_HIGH_IMPACT: i32 = 10;
pub const SCORE_MEDIUM_IMPACT: i32 = 3;
pub const SCORE_NEGATIVE: i32 = -20;
pub const SCORE_EXPLICIT_INTEREST: i32 = 50;
pub const SCORE_TAG_BONUS_HIGH: i32 = 5;
pub const SCORE_TAG_BONUS_LOW: i32 = 2;
pub const SCORE_READ_PENALTY: i32 = -1000;

pub open spec fn high_impact_words() -> Seq<&'static str> {
    seq![
        "rust", "tauri", "react", "typescript", "javascript", "android", "kotlin",
        "webassembly", "wasm", "docker", "kubernetes", "llvm", "compiler",
    ]
}

pub open spec fn medium_impact_words() -> Seq<&'static str> {
    seq![
        "code", "programming", "developer", "api", "frontend", "backend", "database",
        "algorithm", "git", "linux", "windows", "macos", "design pattern", "refactoring",
    ]
}

pub open spec fn negative_words() -> Seq<&'static str> {
    seq![
        "stock", "market", "buffett", "berkshire", "invest", "politics", "crime", "murder",
        "sport", "celebrity", "gossip", "bitcoin", "crypto", "blockchain",
    ]
}

fn high_impact_keywords() -> (r: Vec<&'static str>)
    ensures
        r@ == high_impact_words(),
{
    vec![
        "rust", "tauri", "react", "typescript", "javascript", "android", "kotlin",
        "webassembly", "wasm", "docker", "kubernetes", "llvm", "compiler",
    ]
}

fn medium_impact_keywords() -> (r: Vec<&'static str>)
    ensures
        r@ == medium_impact_words(),
{
    vec![
        "code", "programming", "developer", "api", "frontend", "backend", "database",
        "algorithm", "git", "linux", "windows", "macos", "design pattern", "refactoring",
    ]
}

fn negative_keywords() -> (r: Vec<&'static str>)
    ensures
        r@ == negative_words(),
{
    vec![
        "stock", "market", "buffett", "berkshire", "invest", "politics", "crime", "murder",
        "sport", "celebrity", "gossip", "bitcoin", "crypto", "blockchain",
    ]
}

/// A keyword counts once when it occurs in the title, the summary or both.
pub open spec fn keyword_hit(title: Seq<char>, summary: Seq<char>, word: Seq<char>) -> bool {
    contains_seq(title, word) || contains_seq(summary, word)
}

/// `weight` for each word of `words` that occurs in the title or the summary.
pub open spec fn keyword_points(
    title: Seq<char>,
    summary: Seq<char>,
    words: Seq<&'static str>,
    weight: int,
) -> int
    decreases words.len(),
{
    if words.len() == 0 {
        0
    } else {
        keyword_points(title, summary, words.drop_last(), weight) + if keyword_hit(
            title,
            summary,
            words.last()@,
        ) {
            weight
        } else {
            0
        }
    }
}

/// The fixed bonus a tag earns by itself.
pub open spec fn tag_bonus(c: ArticleCategory) -> int {
    match c {
        ArticleCategory::Rust | ArticleCategory::Tauri | ArticleCategory::React
        | ArticleCategory::Android => SCORE_TAG_BONUS_HIGH as int,
        ArticleCategory::General => 0,
        _ => SCORE_TAG_BONUS_LOW as int,
    }
}

pub open spec fn one_tag_points(c: ArticleCategory, interests: Seq<ArticleCategory>) -> int {
    (if interests.contains(c) {
        SCORE_EXPLICIT_INTEREST as int
    } else {
        0
    }) + tag_bonus(c)
}

pub open spec fn tag_points(tags: Seq<ArticleCategory>, interests: Seq<ArticleCategory>) -> int
    decreases tags.len(),
{
    if tags.len() == 0 {
        0
    } else {
        tag_points(tags.drop_last(), interests) + one_tag_points(tags.last(), interests)
    }
}

/// Everything an article earns from keywords, given its lowercased title and summary.
pub open spec fn text_points(title_lower: Seq<char>, summary_lower: Seq<char>) -> int {
    keyword_points(title_lower, summary_lower, high_impact_words(), SCORE_HIGH_IMPACT as int)
        + keyword_points(title_lower, summary_lower, medium_impact_words(), SCORE_MEDIUM_IMPACT as int)
        + keyword_points(title_lower, summary_lower, negative_words(), SCORE_NEGATIVE as int)
}

/// The penalty of an article the user has already judged.
pub open spec fn judged_penalty(a: ArticleView) -> int {
    if a.feedback.is_some() {
        SCORE_READ_PENALTY as int
    } else {
        0
    }
}

/// The relevance of an article for a user with the given interests.
pub open spec fn relevance(a: ArticleView, interests: Seq<ArticleCategory>) -> int {
    text_points(lower_of(a.title), lower_of(a.summary)) + tag_points(a.tags, interests)
        + judged_penalty(a)
}

/// What an article earns from high- and medium-impact keywords and from its tags.
pub open spec fn positive_points(a: ArticleView, interests: Seq<ArticleCategory>) -> int {
    let t = lower_of(a.title);
    let s = lower_of(a.summary);
    keyword_points(t, s, high_impact_words(), SCORE_HIGH_IMPACT as int) + keyword_points(
        t,
        s,
        medium_impact_words(),
        SCORE_MEDIUM_IMPACT as int,
    ) + tag_points(a.tags, interests)
}

/// A judged article scores at most the read penalty plus its positive
/// contributions, whatever the interests, and so always falls at or below the
/// cutoff of -10 that ranking applies.
pub proof fn lemma_judged_article_buried(a: ArticleView, interests: Seq<ArticleCategory>)
    requires
        a.wf(),
        a.feedback.is_some(),
    ensures
        relevance(a, interests) <= SCORE_READ_PENALTY + positive_points(a, interests),
        relevance(a, interests) <= -10,
{
    let t = lower_of(a.title);
    let s = lower_of(a.summary);
    lemma_keyword_points_bounds(t, s, high_impact_words(), 10);
    lemma_keyword_points_bounds(t, s, medium_impact_words(), 3);
    lemma_keyword_points_bounds(t, s, negative_words(), -20);
    lemma_tag_points_bounds(a.tags, interests);
    lemma_distinct_tags_bounded(a.tags);
}

proof fn lemma_keyword_points_bounds(
    title: Seq<char>,
    summary: Seq<char>,
    words: Seq<&'static str>,
    weight: int,
)
    ensures
        weight >= 0 ==> 0 <= keyword_points(title, summary, words, weight) <= weight * words.len(),
        weight < 0 ==> weight * words.len() <= keyword_points(title, summary, words, weight) <= 0,
    decreases words.len(),
{
    if words.len() > 0 {
        lemma_keyword_points_bounds(title, summary, words.drop_last(), weight);
        assert(weight * words.len() == weight * (words.len() - 1) + weight) by (nonlinear_arith);
    }
}

proof fn lemma_tag_points_bounds(tags: Seq<ArticleCategory>, interests: Seq<ArticleCategory>)
    ensures
        0 <= tag_points(tags, interests) <= 55 * tags.len(),
    decreases tags.len(),
{
    if tags.len() > 0 {
        lemma_tag_points_bounds(tags.drop_last(), interests);
    }
}

/// Adds `weight` for each word of `words` found in either text.
fn add_keyword_points(
    title: &Vec<char>,
    summary: &Vec<char>,
    words: &Vec<&'static str>,
    weight: i32,
) -> (r: i32)
    requires
        words@.len() <= 20,
        -20 <= weight <= 10,
    ensures
        r == keyword_points(title@, summary@, words@, weight as int),
{
    let mut acc: i32 = 0;
    let mut i: usize = 0;
    while i < words.len()
        invariant
            i <= words@.len(),
            words@.len() <= 20,
            -20 <= weight <= 10,
            acc == keyword_points(title@, summary@, words@.subrange(0, i as int), weight as int),
            -20 * i <= acc <= 10 * i,
        decreases words@.len() - i,
    {
        let w = chars_of(words[i]);
        let hit = seq_contains(title, &w) || seq_contains(summary, &w);
        proof {
            assert(words@.subrange(0, i + 1).drop_last() =~= words@.subrange(0, i as int));
        }
        if hit {
            acc = acc + weight;
        }
        i += 1;
    }
    proof {
        assert(words@.subrange(0, i as int) =~= words@);
    }
    acc
}

/// Whether `c` is one of `interests`.
pub fn contains_category(c: ArticleCategory, interests: &[ArticleCategory]) -> (r: bool)
    ensures
        r == interests@.contains(c),
{
    let mut i: usize = 0;
    while i < interests.len()
        invariant
            i <= interests@.len(),
            forall|k: int| 0 <= k < i ==> interests@[k] != c,
        decreases interests@.len() - i,
    {
        if interests[i] == c {
            return true;
        }
        i += 1;
    }
    false
}

/// Relevance of `article` for a user interested in `user_interests`:
/// keyword weights over the lowercased title and summary, tag bonuses, and a
/// large penalty once the article has been judged.
pub fn calculate_relevance_score(article: &Article, user_interests: &[ArticleCategory]) -> (r: i32)
    requires
        article.wf(),
    ensures
        r == relevance(article@, user_interests@),
{
    let title_lower = lowercase(article.title.as_str());
    let summary_lower = lowercase(article.summary.as_str());
    score_lowercased(article, title_lower.as_str(), summary_lower.as_str(), user_interests)
}

/// The relevance of `article` given its title and summary already
/// lowercased: keyword points over those texts, plus tag points and the
/// penalty for a judged article.
pub fn score_lowercased(
    article: &Article,
    title_lower: &str,
    summary_lower: &str,
    user_interests: &[ArticleCategory],
) -> (r: i32)
    requires
        article.wf(),
    ensures
        r == text_points(title_lower@, summary_lower@) + tag_points(article.tags@, user_interests@)
            + judged_penalty(article@),
{
    let title_lower = chars_of(title_lower);
    let summary_lower = chars_of(summary_lower);

    let high = add_keyword_points(&title_lower, &summary_lower, &high_impact_keywords(), SCORE_HIGH_IMPACT);
    let medium = add_keyword_points(&title_lower, &summary_lower, &medium_impact_keywords(), SCORE_MEDIUM_IMPACT);
    let negative = add_keyword_points(&title_lower, &summary_lower, &negative_keywords(), SCORE_NEGATIVE);
    proof {
        lemma_keyword_points_bounds(title_lower@, summary_lower@, high_impact_words(), 10);
        lemma_keyword_points_bounds(title_lower@, summary_lower@, medium_impact_words(), 3);
        lemma_keyword_points_bounds(title_lower@, summary_lower@, negative_words(), -20);
        lemma_distinct_tags_bounded(article.tags@);
    }
    let mut tags_score: i32 = 0;
    let mut i: usize = 0;
    while i < article.tags.len()
        invariant
            i <= article.tags@.len(),
            article.tags@.len() <= 10,
            tags_score == tag_points(article.tags@.subrange(0, i as int), user_interests@),
            0 <= tags_score <= 55 * i,
        decreases article.tags@.len() - i,
    {
        let tag = article.tags[i];
        proof {
            assert(article.tags@.subrange(0, i + 1).drop_last() =~= article.tags@.subrange(0, i as int));
        }
        if contains_category(tag, user_interests) {
            tags_score = tags_score + SCORE_EXPLICIT_INTEREST;
        }
        match tag {
            ArticleCategory::Rust | ArticleCategory::Tauri | ArticleCategory::React
            | ArticleCategory::Android => {
                tags_score = tags_score + SCORE_TAG_BONUS_HIGH;
            },
            ArticleCategory::General => {},
            _ => {
                tags_score = tags_score + SCORE_TAG_BONUS_LOW;
            },
        }
        i += 1;
    }
    proof {
        assert(article.tags@.subrange(0, i as int) =~= article.tags@);
    }
    let mut score: i32 = high + medium + negative + tags_score;
    if article.feedback.is_some() {
        score = score + SCORE_READ_PENALTY;
    }
    score
}

} // verus!
