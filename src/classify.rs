use vstd::prelude::*;
use crate::model::ArticleCategory;
use crate::scorer::contains_category;
use crate::text::{join_with_space, regex_finds, regex_is_match};

verus! {

/// Topic patterns, matched case-insensitively on word boundaries, with the
/// tag each one adds.
pub open spec fn topic_rules() -> Seq<(&'static str, ArticleCategory)> {
    seq![
        ("(?i)\\brust\\b", ArticleCategory::Rust),
        ("(?i)\\breact\\b", ArticleCategory::React),
        ("(?i)\\bandroid\\b", ArticleCategory::Android),
        ("(?i)\\btauri\\b", ArticleCategory::Tauri),
        ("(?i)\\b(ai|llm|gpt|generative)\\b", ArticleCategory::AI),
    ]
}

fn topic_rule_table() -> (r: Vec<(&'static str, ArticleCategory)>)
    ensures
        r@ == topic_rules(),
{
    vec![
        ("(?i)\\brust\\b", ArticleCategory::Rust),
        ("(?i)\\breact\\b", ArticleCategory::React),
        ("(?i)\\bandroid\\b", ArticleCategory::Android),
        ("(?i)\\btauri\\b", ArticleCategory::Tauri),
        ("(?i)\\b(ai|llm|gpt|generative)\\b", ArticleCategory::AI),
    ]
}

/// `tags` after each rule in turn appended its tag where its pattern
/// matched (`hits`, one entry per rule) and the tag is not there yet.
pub open spec fn expand_tags(
    tags: Seq<ArticleCategory>,
    hits: Seq<bool>,
    rules: Seq<(&'static str, ArticleCategory)>,
) -> Seq<ArticleCategory>
    decreases rules.len(),
{
    if rules.len() == 0 {
        tags
    } else {
        let t = expand_tags(tags, hits, rules.drop_last());
        let tag = rules.last().1;
        if hits[rules.len() - 1] && !t.contains(tag) {
            t.push(tag)
        } else {
            t
        }
    }
}

/// The text the topic patterns run against.
pub open spec fn classified_text(title: Seq<char>, summary: Seq<char>) -> Seq<char> {
    title + seq![' '] + summary
}

/// Which topic patterns match `text`.
pub open spec fn topic_hits(text: Seq<char>) -> Seq<bool> {
    topic_rules().map_values(|r: (&'static str, ArticleCategory)| regex_finds(r.0@, text))
}

/// The tags of an article from a source of category `source` whose text
/// matched the topic patterns as `hits` says: the source tag, then each
/// matched topic; a leading `General` gives way when anything more specific
/// was found.
pub open spec fn tags_for_hits(source: ArticleCategory, hits: Seq<bool>) -> Seq<ArticleCategory> {
    let tags = expand_tags(seq![source], hits, topic_rules());
    if tags.len() > 1 && tags[0] == ArticleCategory::General {
        tags.drop_first()
    } else {
        tags
    }
}

/// The tags of an article with this title and summary.
pub open spec fn classification(
    title: Seq<char>,
    summary: Seq<char>,
    source: ArticleCategory,
) -> Seq<ArticleCategory> {
    tags_for_hits(source, topic_hits(classified_text(title, summary)))
}

/// Some topic pattern matched.
pub open spec fn detects_topic(hits: Seq<bool>) -> bool {
    exists|i: int| 0 <= i < topic_rules().len() && #[trigger] hits[i]
}

/// Tags of `title` and `summary` for an article from a feed of category `source`.
pub fn classify(title: &str, summary: &str, source: ArticleCategory) -> (r: Vec<ArticleCategory>)
    ensures
        r@ == classification(title@, summary@, source),
{
    let text = join_with_space(title, summary);
    let rules = topic_rule_table();
    let mut hits: Vec<bool> = Vec::new();
    let mut i: usize = 0;
    while i < rules.len()
        invariant
            i <= rules@.len(),
            rules@ == topic_rules(),
            hits@ == topic_hits(text@).subrange(0, i as int),
        decreases rules@.len() - i,
    {
        let (pattern, _) = rules[i];
        hits.push(regex_is_match(pattern, text.as_str()));
        proof {
            assert(hits@ =~= topic_hits(text@).subrange(0, i + 1));
        }
        i += 1;
    }
    proof {
        assert(hits@ =~= topic_hits(text@));
    }
    tags_from_hits(source, &hits)
}

/// Tags for an article from a source of category `source`, given which
/// topic patterns its text matched, one entry per rule in rule order.
pub fn tags_from_hits(source: ArticleCategory, hits: &Vec<bool>) -> (r: Vec<ArticleCategory>)
    requires
        hits@.len() == topic_rules().len(),
    ensures
        r@ == tags_for_hits(source, hits@),
{
    let rules = topic_rule_table();
    let mut tags: Vec<ArticleCategory> = vec![source];
    let mut i: usize = 0;
    while i < rules.len()
        invariant
            i <= rules@.len(),
            rules@ == topic_rules(),
            hits@.len() == rules@.len(),
            tags@ == expand_tags(seq![source], hits@, rules@.subrange(0, i as int)),
        decreases rules@.len() - i,
    {
        let (_, tag) = rules[i];
        proof {
            assert(rules@.subrange(0, i + 1).drop_last() =~= rules@.subrange(0, i as int));
        }
        if hits[i] && !contains_category(tag, tags.as_slice()) {
            tags.push(tag);
        }
        i += 1;
    }
    proof {
        assert(rules@.subrange(0, i as int) =~= rules@);
    }
    if tags.len() > 1 && tags[0] == ArticleCategory::General {
        tags.remove(0);
        proof {
            assert(tags@ =~= expand_tags(seq![source], hits@, topic_rules()).drop_first());
        }
    }
    tags
}

proof fn lemma_expand_shape(
    source: ArticleCategory,
    hits: Seq<bool>,
    rules: Seq<(&'static str, ArticleCategory)>,
)
    requires
        hits.len() >= rules.len(),
        forall|i: int| 0 <= i < rules.len() ==> rules[i].1 != ArticleCategory::General,
    ensures
        ({
            let t = expand_tags(seq![source], hits, rules);
            &&& t.len() >= 1
            &&& t[0] == source
            &&& t.no_duplicates()
            &&& forall|i: int| 1 <= i < t.len() ==> t[i] != ArticleCategory::General
            &&& (source == ArticleCategory::General && exists|i: int|
                0 <= i < rules.len() && #[trigger] hits[i]) ==> t.len() >= 2
        }),
    decreases rules.len(),
{
    if rules.len() > 0 {
        let prev = rules.drop_last();
        lemma_expand_shape(source, hits, prev);
        let t = expand_tags(seq![source], hits, prev);
        let tag = rules.last().1;
        let n = rules.len() - 1;
        if source == ArticleCategory::General && (exists|i: int| 0 <= i < rules.len() && #[trigger] hits[i])
            && !(exists|i: int| 0 <= i < prev.len() && #[trigger] hits[i]) {
            let k = choose|k: int| 0 <= k < rules.len() && #[trigger] hits[k];
            assert(k == n);
            assert(!t.contains(tag) || t.len() >= 2) by {
                if t.contains(tag) {
                    let j = choose|j: int| 0 <= j < t.len() && t[j] == tag;
                    assert(rules[n].1 == tag);
                    assert(j != 0);
                }
            }
        }
        if hits[n] && !t.contains(tag) {
            assert(rules[n].1 == tag);
            let u = t.push(tag);
            assert forall|i: int, j: int| 0 <= i < u.len() && 0 <= j < u.len() && i != j implies u[i]
                != u[j] by {
                if i == t.len() as int {
                    assert(t.contains(u[j]) || j == t.len() as int);
                } else if j == t.len() as int {
                    assert(t.contains(u[i]));
                }
            }
        }
    }
}

/// Once a topic is detected, the generic `General` tag is neither the first
/// nor the only entry (nor any entry at all); the tag list never repeats a
/// tag and is never empty. The tags are a function of the hits alone, so of
/// title, summary and source alone.
pub proof fn lemma_tags_shape(source: ArticleCategory, hits: Seq<bool>)
    requires
        hits.len() == topic_rules().len(),
    ensures
        tags_for_hits(source, hits).len() >= 1,
        tags_for_hits(source, hits).no_duplicates(),
        detects_topic(hits) ==> {
            &&& tags_for_hits(source, hits)[0] != ArticleCategory::General
            &&& !tags_for_hits(source, hits).contains(ArticleCategory::General)
        },
{
    let rules = topic_rules();
    assert forall|i: int| 0 <= i < rules.len() implies rules[i].1 != ArticleCategory::General by {
        assert(rules[i] == topic_rules()[i]);
    }
    lemma_expand_shape(source, hits, rules);
    let t = expand_tags(seq![source], hits, rules);
    let r = tags_for_hits(source, hits);
    if detects_topic(hits) {
        if source == ArticleCategory::General {
            assert(r == t.drop_first());
            assert forall|i: int| 0 <= i < r.len() implies r[i] != ArticleCategory::General by {
                assert(r[i] == t[i + 1]);
            }
        } else {
            assert(r == t);
            assert forall|i: int| 0 <= i < r.len() implies r[i] != ArticleCategory::General by {
                if i != 0 {
                    assert(t[i] != ArticleCategory::General);
                }
            }
        }
    }
    if t.len() > 1 && t[0] == ArticleCategory::General {
        assert forall|i: int, j: int| 0 <= i < r.len() && 0 <= j < r.len() && i != j implies r[i]
            != r[j] by {
            assert(r[i] == t[i + 1] && r[j] == t[j + 1]);
        }
    }
}

/// Classification of a title and summary: the same inputs give the same
/// tags; the list is never empty and never repeats a tag; and once a topic
/// pattern matches the text, `General` is not among the tags.
pub proof fn lemma_classification_shape(
    title: Seq<char>,
    summary: Seq<char>,
    source: ArticleCategory,
)
    ensures
        forall|t2: Seq<char>, s2: Seq<char>|
            t2 == title && s2 == summary ==> #[trigger] classification(t2, s2, source)
                == classification(title, summary, source),
        classification(title, summary, source).len() >= 1,
        classification(title, summary, source).no_duplicates(),
        detects_topic(topic_hits(classified_text(title, summary))) ==> {
            &&& classification(title, summary, source)[0] != ArticleCategory::General
            &&& !classification(title, summary, source).contains(ArticleCategory::General)
        },
{
    lemma_tags_shape(source, topic_hits(classified_text(title, summary)));
}

} // verus!
