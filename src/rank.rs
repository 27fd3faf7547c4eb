use vstd::prelude::*;
use crate::model::{
    copy_article, lemma_views_concat, lemma_views_push, Article, ArticleCategory, ArticleView, views,
    UserPersona,
};
use crate::scorer::{calculate_relevance_score, relevance};
use vstd::string::StrSliceExecFns;
use crate::text::{append, take_chars, truncate_chars, chars_of, json_string_list, parse_string_list, remove_all, without, trim_text, trimmed};

verus! {

/// Articles scoring at or below this are not recommended.
pub const RELEVANCE_CUTOFF: i32 = -10;

/// Lexicographic order of texts, character by character.
pub open spec fn str_lt(a: Seq<char>, b: Seq<char>) -> bool
    decreases a.len(),
{
    if a.len() == 0 {
        b.len() > 0
    } else if b.len() == 0 {
        false
    } else if a[0] != b[0] {
        (a[0] as u32) < (b[0] as u32)
    } else {
        str_lt(a.drop_first(), b.drop_first())
    }
}

pub(crate) proof fn lemma_str_lt_asymmetric(a: Seq<char>, b: Seq<char>)
    ensures
        str_lt(a, b) ==> !str_lt(b, a),
    decreases a.len(),
{
    if a.len() > 0 && b.len() > 0 && a[0] == b[0] {
        lemma_str_lt_asymmetric(a.drop_first(), b.drop_first());
    }
}

pub(crate) proof fn lemma_str_lt_transitive(a: Seq<char>, b: Seq<char>, c: Seq<char>)
    requires
        str_lt(a, b),
        str_lt(b, c),
    ensures
        str_lt(a, c),
    decreases a.len(),
{
    if a.len() > 0 && b.len() > 0 && c.len() > 0 && a[0] == b[0] && b[0] == c[0] {
        lemma_str_lt_transitive(a.drop_first(), b.drop_first(), c.drop_first());
    }
}

/// Whether `a` sorts strictly before `b`.
pub fn str_less(a: &Vec<char>, b: &Vec<char>) -> (r: bool)
    ensures
        r == str_lt(a@, b@),
{
    let mut i: usize = 0;
    proof {
        assert(a@.subrange(0, a@.len() as int) =~= a@);
        assert(b@.subrange(0, b@.len() as int) =~= b@);
    }
    while i < a.len() && i < b.len()
        invariant
            i <= a@.len(),
            i <= b@.len(),
            str_lt(a@, b@) == str_lt(
                a@.subrange(i as int, a@.len() as int),
                b@.subrange(i as int, b@.len() as int),
            ),
        decreases a@.len() - i,
    {
        let x = a[i];
        let y = b[i];
        if x != y {
            return (x as u32) < (y as u32);
        }
        proof {
            assert(a@.subrange(i as int, a@.len() as int).drop_first() =~= a@.subrange(
                i + 1,
                a@.len() as int,
            ));
            assert(b@.subrange(i as int, b@.len() as int).drop_first() =~= b@.subrange(
                i + 1,
                b@.len() as int,
            ));
        }
        i += 1;
    }
    i < b.len()
}

/// `x` ranks above `y`: a higher score, or an equal score and a later date.
pub open spec fn ranks_above(x: ArticleView, y: ArticleView, interests: Seq<ArticleCategory>) -> bool {
    relevance(x, interests) > relevance(y, interests) || (relevance(x, interests) == relevance(
        y,
        interests,
    ) && str_lt(y.published_at, x.published_at))
}

/// No article ranks above one that comes before it.
pub open spec fn is_ranked(s: Seq<ArticleView>, interests: Seq<ArticleCategory>) -> bool {
    forall|i: int, j: int| 0 <= i < j < s.len() ==> !ranks_above(s[j], s[i], interests)
}

/// The articles that score above the cutoff, in their given order.
pub open spec fn kept(s: Seq<ArticleView>, interests: Seq<ArticleCategory>) -> Seq<ArticleView>
    decreases s.len(),
{
    if s.len() == 0 {
        seq![]
    } else if relevance(s.last(), interests) > RELEVANCE_CUTOFF {
        kept(s.drop_last(), interests).push(s.last())
    } else {
        kept(s.drop_last(), interests)
    }
}

/// Where `x` enters a ranked list: before the first article it ranks
/// above, so after every article it ties with.
pub open spec fn entry_position(s: Seq<ArticleView>, x: ArticleView, interests: Seq<ArticleCategory>) -> int
    decreases s.len(),
{
    if s.len() == 0 {
        0
    } else if ranks_above(x, s[0], interests) {
        0
    } else {
        1 + entry_position(s.drop_first(), x, interests)
    }
}

/// The articles of `s` ordered by score, then date, both descending;
/// articles that tie on both keep their order in `s`.
pub open spec fn ranked(s: Seq<ArticleView>, interests: Seq<ArticleCategory>) -> Seq<ArticleView>
    decreases s.len(),
{
    if s.len() == 0 {
        seq![]
    } else {
        let r = ranked(s.drop_last(), interests);
        r.insert(entry_position(r, s.last(), interests), s.last())
    }
}

proof fn lemma_entry_position(
    s: Seq<ArticleView>,
    x: ArticleView,
    interests: Seq<ArticleCategory>,
    p: int,
)
    requires
        0 <= p <= s.len(),
        forall|k: int| 0 <= k < p ==> !ranks_above(x, #[trigger] s[k], interests),
        p < s.len() ==> ranks_above(x, s[p], interests),
    ensures
        entry_position(s, x, interests) == p,
    decreases p,
{
    if p > 0 {
        let t = s.drop_first();
        assert forall|k: int| 0 <= k < p - 1 implies !ranks_above(x, #[trigger] t[k], interests) by {
            assert(t[k] == s[k + 1]);
        }
        if p < s.len() {
            assert(t[p - 1] == s[p]);
        }
        assert(!ranks_above(x, s[0], interests));
        lemma_entry_position(t, x, interests, p - 1);
    }
}

proof fn lemma_ranks_above_order(x: ArticleView, y: ArticleView, z: ArticleView, interests: Seq<ArticleCategory>)
    ensures
        ranks_above(x, y, interests) ==> !ranks_above(y, x, interests),
        ranks_above(x, y, interests) && ranks_above(y, z, interests) ==> ranks_above(x, z, interests),
{
    lemma_str_lt_asymmetric(y.published_at, x.published_at);
    if ranks_above(x, y, interests) && ranks_above(y, z, interests) && relevance(x, interests)
        == relevance(y, interests) && relevance(y, interests) == relevance(z, interests) {
        lemma_str_lt_transitive(z.published_at, y.published_at, x.published_at);
    }
}

/// Scores every article, keeps those above the cutoff, and orders them by
/// score, then by date, both descending.
pub fn rank_articles(articles: &Vec<Article>, interests: &Vec<ArticleCategory>) -> (r: Vec<Article>)
    requires
        forall|i: int| 0 <= i < articles@.len() ==> (#[trigger] articles@[i]).wf(),
    ensures
        views(r@) == ranked(kept(views(articles@), interests@), interests@),
        is_ranked(views(r@), interests@),
        views(r@).to_multiset() == kept(views(articles@), interests@).to_multiset(),
        forall|i: int| 0 <= i < r@.len() ==> relevance(#[trigger] r@[i]@, interests@) > RELEVANCE_CUTOFF,
{
    let ghost input = views(articles@);
    let mut out: Vec<Article> = Vec::new();
    let mut scores: Vec<i32> = Vec::new();
    let mut i: usize = 0;
    proof {
        assert(views(out@) =~= Seq::<ArticleView>::empty());
        assert(input.subrange(0, 0) =~= Seq::<ArticleView>::empty());
    }
    while i < articles.len()
        invariant
            i <= articles@.len(),
            input == views(articles@),
            forall|k: int| 0 <= k < articles@.len() ==> (#[trigger] articles@[k]).wf(),
            scores@.len() == out@.len(),
            forall|k: int| 0 <= k < out@.len() ==> scores@[k] == relevance(#[trigger] out@[k]@, interests@),
            forall|k: int| 0 <= k < out@.len() ==> relevance(#[trigger] out@[k]@, interests@) > RELEVANCE_CUTOFF,
            is_ranked(views(out@), interests@),
            views(out@).to_multiset() == kept(input.subrange(0, i as int), interests@).to_multiset(),
            views(out@) == ranked(kept(input.subrange(0, i as int), interests@), interests@),
        decreases articles@.len() - i,
    {
        let a = &articles[i];
        let s = calculate_relevance_score(a, interests.as_slice());
        proof {
            assert(input.subrange(0, i + 1).drop_last() =~= input.subrange(0, i as int));
            assert(input.subrange(0, i + 1).last() == a@);
        }
        if s > RELEVANCE_CUTOFF {
            let date = chars_of(a.published_at.as_str());
            let mut p: usize = 0;
            while p < out.len()
                invariant
                    p <= out@.len(),
                    scores@.len() == out@.len(),
                    s == relevance(a@, interests@),
                    date@ == a@.published_at,
                    forall|k: int| 0 <= k < out@.len() ==> scores@[k] == relevance(#[trigger] out@[k]@, interests@),
                    forall|k: int| 0 <= k < p ==> !ranks_above(a@, #[trigger] out@[k]@, interests@),
                ensures
                    p <= out@.len(),
                    forall|k: int| 0 <= k < p ==> !ranks_above(a@, #[trigger] out@[k]@, interests@),
                    p < out@.len() ==> ranks_above(a@, out@[p as int]@, interests@),
                decreases out@.len() - p,
            {
                let above = if s != scores[p] {
                    s > scores[p]
                } else {
                    str_less(&chars_of(out[p].published_at.as_str()), &date)
                };
                if above {
                    break;
                }
                p += 1;
            }
            let ghost old_views = views(out@);
            let ghost old_out = out@;
            let ghost old_scores = scores@;
            proof {
                assert forall|k: int| p <= k < old_views.len() implies !ranks_above(
                    old_views[k],
                    a@,
                    interests@,
                ) by {
                    assert(ranks_above(a@, old_views[p as int], interests@));
                    lemma_ranks_above_order(old_views[k], a@, old_views[p as int], interests@);
                    lemma_ranks_above_order(a@, old_views[p as int], a@, interests@);
                }
            }
            out.insert(p, copy_article(a));
            scores.insert(p, s);
            proof {
                let nv = views(out@);
                assert(nv =~= old_views.insert(p as int, a@));
                lemma_entry_position(old_views, a@, interests@, p as int);
                let kp = kept(input.subrange(0, i as int), interests@);
                assert(kp.push(a@).drop_last() =~= kp);
                assert(kp.push(a@).last() == a@);
                vstd::seq_lib::to_multiset_insert(old_views, p as int, a@);
                vstd::seq_lib::to_multiset_build(kept(input.subrange(0, i as int), interests@), a@);
                assert forall|x: int, y: int| 0 <= x < y < nv.len() implies !ranks_above(
                    nv[y],
                    nv[x],
                    interests@,
                ) by {
                    if y < p {
                    } else if y == p {
                        assert(nv[x] == old_views[x]);
                    } else if x == p {
                        assert(nv[y] == old_views[y - 1]);
                    } else if x < p {
                        assert(nv[x] == old_views[x]);
                        assert(nv[y] == old_views[y - 1]);
                    } else {
                        assert(nv[x] == old_views[x - 1]);
                        assert(nv[y] == old_views[y - 1]);
                    }
                }
                assert forall|k: int| 0 <= k < out@.len() implies scores@[k] == relevance(
                    #[trigger] out@[k]@,
                    interests@,
                ) && relevance(out@[k]@, interests@) > RELEVANCE_CUTOFF by {
                    if k > p {
                        assert(out@[k] == old_out[k - 1]);
                        assert(scores@[k] == old_scores[k - 1]);
                    } else if k < p {
                        assert(out@[k] == old_out[k]);
                        assert(scores@[k] == old_scores[k]);
                    }
                }
            }
        }
        i += 1;
    }
    proof {
        assert(input.subrange(0, i as int) =~= input);
    }
    out
}

} // verus!

verus! {

/// How many top-ranked articles are recommended by rule.
pub const RULE_TIER_SIZE: usize = 3;

/// How many of the following articles are offered to the AI stage.
pub const AI_WINDOW_SIZE: usize = 20;

/// How many articles the AI stage contributes.
pub const AI_PICKS: usize = 4;

/// The first `n` entries of `s`, or all of them.
pub open spec fn take<A>(s: Seq<A>, n: int) -> Seq<A> {
    if s.len() <= n {
        s
    } else {
        s.subrange(0, n)
    }
}

/// The entries of `s` from position `n` on, or none.
pub open spec fn skip<A>(s: Seq<A>, n: int) -> Seq<A> {
    if s.len() <= n {
        seq![]
    } else {
        s.subrange(n, s.len() as int)
    }
}

/// The ranked articles split into the rule-based tier and the window that
/// the AI stage chooses from.
pub struct RecommendationPlan {
    pub rule_tier: Vec<Article>,
    pub ai_window: Vec<Article>,
}

/// The articles of `pool` whose id is among `ids`, in pool order.
pub open spec fn with_ids(pool: Seq<ArticleView>, ids: Seq<Seq<char>>) -> Seq<ArticleView>
    decreases pool.len(),
{
    if pool.len() == 0 {
        seq![]
    } else if ids.contains(pool.last().id) {
        with_ids(pool.drop_last(), ids).push(pool.last())
    } else {
        with_ids(pool.drop_last(), ids)
    }
}

/// What the AI stage contributes: the first four articles it selected by
/// id, or the first four of the window where it gave no usable selection.
pub open spec fn ai_picks(pool: Seq<ArticleView>, selection: Option<Seq<Seq<char>>>) -> Seq<ArticleView> {
    match selection {
        Some(ids) => take(with_ids(pool, ids), AI_PICKS as int),
        None => take(pool, AI_PICKS as int),
    }
}

pub open spec fn string_views(s: Seq<String>) -> Seq<Seq<char>> {
    s.map_values(|x: String| x@)
}

fn copy_range(s: &Vec<Article>, lo: usize, hi: usize) -> (r: Vec<Article>)
    requires
        lo <= hi <= s@.len(),
    ensures
        views(r@) == views(s@).subrange(lo as int, hi as int),
{
    let mut r: Vec<Article> = Vec::new();
    let mut i: usize = lo;
    while i < hi
        invariant
            lo <= i <= hi,
            hi <= s@.len(),
            views(r@) == views(s@).subrange(lo as int, i as int),
        decreases hi - i,
    {
        let ghost prev = r@;
        r.push(copy_article(&s[i]));
        proof {
            lemma_views_push(prev, r@.last());
            assert(r@ == prev.push(r@.last()));
            assert(views(r@) =~= views(s@).subrange(lo as int, i + 1));
        }
        i += 1;
    }
    r
}

/// Splits ranked articles: the first three form the rule-based tier, the
/// next twenty at most the window of the AI stage.
pub fn split_tiers(ranked: &Vec<Article>) -> (r: RecommendationPlan)
    ensures
        r.rule_tier@.len() <= RULE_TIER_SIZE,
        views(r.rule_tier@) == take(views(ranked@), RULE_TIER_SIZE as int),
        views(r.ai_window@) == take(skip(views(ranked@), RULE_TIER_SIZE as int), AI_WINDOW_SIZE as int),
{
    let n = ranked.len();
    let top_end = if n < RULE_TIER_SIZE { n } else { RULE_TIER_SIZE };
    let window_end = if n < RULE_TIER_SIZE + AI_WINDOW_SIZE { n } else { RULE_TIER_SIZE + AI_WINDOW_SIZE };
    let rule_tier = copy_range(ranked, 0, top_end);
    let ai_window = copy_range(ranked, top_end, window_end);
    proof {
        let v = views(ranked@);
        if n <= RULE_TIER_SIZE {
            assert(v.subrange(0, n as int) =~= v);
        } else {
            assert(skip(v, 3).subrange(0, window_end - 3) =~= v.subrange(3, window_end as int));
            if n <= 23 {
                assert(skip(v, 3) =~= v.subrange(3, window_end as int));
            }
        }
    }
    proof {
        assert(views(rule_tier@).len() == rule_tier@.len());
    }
    RecommendationPlan { rule_tier, ai_window }
}

/// Ranks the candidates and splits them into the two tiers.
pub fn plan_recommendation(candidates: &Vec<Article>, interests: &Vec<ArticleCategory>) -> (r:
    RecommendationPlan)
    requires
        forall|i: int| 0 <= i < candidates@.len() ==> (#[trigger] candidates@[i]).wf(),
    ensures
        r.rule_tier@.len() <= RULE_TIER_SIZE,
        views(r.rule_tier@) == take(
            ranked(kept(views(candidates@), interests@), interests@),
            RULE_TIER_SIZE as int,
        ),
        views(r.ai_window@) == take(
            skip(ranked(kept(views(candidates@), interests@), interests@), RULE_TIER_SIZE as int),
            AI_WINDOW_SIZE as int,
        ),
{
    let ranked = rank_articles(candidates, interests);
    split_tiers(&ranked)
}

/// Whether the AI stage should be asked: only with a credential and a
/// non-empty window.
pub fn wants_ai_call(has_credential: bool, plan: &RecommendationPlan) -> (r: bool)
    ensures
        r == (has_credential && plan.ai_window@.len() > 0),
{
    has_credential && plan.ai_window.len() > 0
}

fn contains_string(ids: &Vec<String>, s: &String) -> (r: bool)
    ensures
        r == string_views(ids@).contains(s@),
{
    let mut i: usize = 0;
    while i < ids.len()
        invariant
            i <= ids@.len(),
            forall|k: int| 0 <= k < i ==> ids@[k]@ != s@,
        decreases ids@.len() - i,
    {
        if ids[i] == *s {
            proof {
                assert(string_views(ids@)[i as int] == s@);
            }
            return true;
        }
        i += 1;
    }
    proof {
        assert forall|k: int| 0 <= k < string_views(ids@).len() implies string_views(ids@)[k] != s@ by {
            assert(ids@[k]@ != s@);
        }
    }
    false
}

/// The AI tier: the first four of the window's articles whose id the AI
/// selected, in window order; without a usable selection, the first four of
/// the window.
pub fn select_ai_picks(window: &Vec<Article>, selection: Option<Vec<String>>) -> (r: Vec<Article>)
    ensures
        r@.len() <= AI_PICKS,
        views(r@) == ai_picks(
            views(window@),
            match selection {
                Some(ids) => Some(string_views(ids@)),
                None => None,
            },
        ),
{
    match selection {
        Some(ids) => {
            let mut r: Vec<Article> = Vec::new();
            let mut i: usize = 0;
            while i < window.len()
                invariant
                    i <= window@.len(),
                    views(r@) == with_ids(views(window@).subrange(0, i as int), string_views(ids@)),
                decreases window@.len() - i,
            {
                proof {
                    assert(views(window@).subrange(0, i + 1).drop_last() =~= views(window@).subrange(
                        0,
                        i as int,
                    ));
                }
                if contains_string(&ids, &window[i].id) {
                    r.push(copy_article(&window[i]));
                    proof {
                        assert(views(r@) =~= with_ids(
                            views(window@).subrange(0, i + 1),
                            string_views(ids@),
                        ));
                    }
                }
                i += 1;
            }
            proof {
                assert(views(window@).subrange(0, i as int) =~= views(window@));
            }
            if r.len() > AI_PICKS {
                let ghost all = views(r@);
                r.truncate(AI_PICKS);
                proof {
                    assert(views(r@) =~= all.subrange(0, AI_PICKS as int));
                }
            }
            proof {
                assert(views(r@).len() == r@.len());
            }
            r
        },
        None => {
            let end = if window.len() < AI_PICKS { window.len() } else { AI_PICKS };
            let r = copy_range(window, 0, end);
            proof {
                if window@.len() <= AI_PICKS {
                    assert(views(window@).subrange(0, end as int) =~= views(window@));
                }
            }
            r
        },
    }
}

/// The recommendation: the rule-based tier, then the AI tier.
pub fn finish_recommendation(plan: RecommendationPlan, selection: Option<Vec<String>>) -> (r: Vec<
    Article,
>)
    ensures
        r@.len() <= plan.rule_tier@.len() + AI_PICKS,
        views(r@) == views(plan.rule_tier@) + ai_picks(
            views(plan.ai_window@),
            match selection {
                Some(ids) => Some(string_views(ids@)),
                None => None,
            },
        ),
{
    let mut picks = select_ai_picks(&plan.ai_window, selection);
    let mut r = plan.rule_tier;
    let ghost top = r@;
    let ghost tail = picks@;
    r.append(&mut picks);
    proof {
        lemma_views_concat(top, tail);
    }
    r
}

} // verus!

verus! {

/// The ids an AI reply selects: the reply without code fences and
/// surrounding whitespace, read as a JSON array of strings.
pub open spec fn reply_selection(reply: Seq<char>) -> Option<Seq<Seq<char>>> {
    json_string_list(trimmed(without(without(reply, "```json"@), "```"@)))
}

/// Reads the selection out of an AI reply; none where the reply is not a
/// (possibly fenced) JSON array of strings.
pub fn parse_ai_reply(reply: &str) -> (r: Option<Vec<String>>)
    ensures
        match r {
            Some(ids) => reply_selection(reply@) == Some(string_views(ids@)),
            None => reply_selection(reply@).is_none(),
        },
{
    proof {
        reveal_strlit("```json");
        reveal_strlit("```");
    }
    let without_tagged = remove_all(reply, "```json");
    let without_fences = remove_all(without_tagged.as_str(), "```");
    let clean = trim_text(without_fences.as_str());
    parse_string_list(clean.as_str())
}

} // verus!

verus! {

/// What `serde_json` writes for a string: the text quoted and escaped.
pub uninterp spec fn json_quoted(s: Seq<char>) -> Seq<char>;

/// Relies on `serde_json::to_string` on a `str`, which cannot fail: the
/// quoted, escaped JSON string.
#[verifier::external_body]
fn quote_json(s: &str) -> (r: String)
    ensures
        r@ == json_quoted(s@),
{
    match serde_json::to_string(s) {
        Ok(t) => t,
        Err(_) => String::new(),
    }
}

/// The name a category goes by in requests.
pub open spec fn category_name(c: ArticleCategory) -> Seq<char> {
    match c {
        ArticleCategory::Rust => "Rust"@,
        ArticleCategory::Tauri => "Tauri"@,
        ArticleCategory::React => "React"@,
        ArticleCategory::TypeScript => "TypeScript"@,
        ArticleCategory::Android => "Android"@,
        ArticleCategory::Kotlin => "Kotlin"@,
        ArticleCategory::Web => "Web"@,
        ArticleCategory::AI => "AI"@,
        ArticleCategory::General => "General"@,
        ArticleCategory::Other => "Other"@,
    }
}

fn category_label(c: ArticleCategory) -> (r: &'static str)
    ensures
        r@ == category_name(c),
{
    match c {
        ArticleCategory::Rust => "Rust",
        ArticleCategory::Tauri => "Tauri",
        ArticleCategory::React => "React",
        ArticleCategory::TypeScript => "TypeScript",
        ArticleCategory::Android => "Android",
        ArticleCategory::Kotlin => "Kotlin",
        ArticleCategory::Web => "Web",
        ArticleCategory::AI => "AI",
        ArticleCategory::General => "General",
        ArticleCategory::Other => "Other",
    }
}

/// The names of the tags, separated by ", ".
pub open spec fn tag_names(tags: Seq<ArticleCategory>) -> Seq<char>
    decreases tags.len(),
{
    if tags.len() == 0 {
        seq![]
    } else if tags.len() == 1 {
        category_name(tags[0])
    } else {
        tag_names(tags.drop_last()) + ", "@ + category_name(tags.last())
    }
}

/// A tag list as the request shows it: `[Rust, AI]`.
pub open spec fn tag_list(tags: Seq<ArticleCategory>) -> Seq<char> {
    "["@ + tag_names(tags) + "]"@
}

fn write_tag_list(out: &mut String, tags: &Vec<ArticleCategory>)
    ensures
        final(out)@ == old(out)@ + tag_list(tags@),
{
    append(out, "[");
    let ghost head = out@;
    let mut i: usize = 0;
    while i < tags.len()
        invariant
            i <= tags@.len(),
            out@ == head + tag_names(tags@.subrange(0, i as int)),
        decreases tags@.len() - i,
    {
        if i > 0 {
            append(out, ", ");
        }
        append(out, category_label(tags[i]));
        proof {
            let sub = tags@.subrange(0, i + 1);
            assert(sub.drop_last() =~= tags@.subrange(0, i as int));
            if i == 0 {
                assert(tags@.subrange(0, 0) =~= Seq::<ArticleCategory>::empty());
            }
        }
        i += 1;
    }
    proof {
        assert(tags@.subrange(0, i as int) =~= tags@);
    }
    append(out, "]");
}

/// One candidate as the request lists it.
pub open spec fn candidate_json(a: ArticleView) -> Seq<char> {
    "{\"id\":"@ + json_quoted(a.id) + ",\"title\":"@ + json_quoted(a.title) + ",\"tags\":"@
        + json_quoted(tag_list(a.tags)) + ",\"summary\":"@ + json_quoted(take_chars(a.summary, 150))
        + "}"@
}

/// The candidates, separated by commas.
pub open spec fn candidates_json(s: Seq<ArticleView>) -> Seq<char>
    decreases s.len(),
{
    if s.len() == 0 {
        seq![]
    } else if s.len() == 1 {
        candidate_json(s[0])
    } else {
        candidates_json(s.drop_last()) + ","@ + candidate_json(s.last())
    }
}

pub open spec fn interests_text(interests: Seq<ArticleCategory>) -> Seq<char> {
    if interests.len() == 0 {
        seq![]
    } else {
        "USER SELECTED TAGS: "@ + tag_list(interests)
            + "\nINSTRUCTION: Prioritize articles that match the USER SELECTED TAGS above all else.\n\n"@
    }
}

pub open spec fn persona_text(description: Seq<char>) -> Seq<char> {
    if description.len() == 0 {
        "Prioritize technical depth and relevance to Rust, Tauri, React, and System Programming.\n\n"@
    } else {
        "USER PERSONA (Implicit Preferences):\n"@ + description
            + "\n\nThen, refine the selection to match this persona.\n\n"@
    }
}

/// The request for the AI tier: the instruction, the user's tags if any,
/// the persona if any, and the window's candidates as a JSON array.
pub open spec fn ranking_prompt_text(
    window: Seq<ArticleView>,
    description: Seq<char>,
    interests: Seq<ArticleCategory>,
) -> Seq<char> {
    "You are a tech article recommender. Select the best 4 articles from the CANDIDATES list.\n\n"@
        + interests_text(interests) + persona_text(description) + "CANDIDATES (JSON):\n["@
        + candidates_json(window)
        + "]\n\nRespond ONLY with a JSON array of the IDs of the 4 selected articles."@
}

fn write_candidate(out: &mut String, a: &Article)
    ensures
        final(out)@ == old(out)@ + candidate_json(a@),
{
    append(out, "{\"id\":");
    append(out, quote_json(a.id.as_str()).as_str());
    append(out, ",\"title\":");
    append(out, quote_json(a.title.as_str()).as_str());
    append(out, ",\"tags\":");
    let mut tags = String::new();
    write_tag_list(&mut tags, &a.tags);
    proof {
        assert(tags@ =~= tag_list(a.tags@));
    }
    append(out, quote_json(tags.as_str()).as_str());
    append(out, ",\"summary\":");
    append(out, quote_json(truncate_chars(a.summary.as_str(), 150).as_str()).as_str());
    append(out, "}");
}

/// Builds the request for the AI tier.
pub fn ranking_prompt(window: &Vec<Article>, persona: &UserPersona, interests: &Vec<ArticleCategory>) -> (r:
    String)
    ensures
        r@ == ranking_prompt_text(views(window@), persona.description@, interests@),
{
    let mut prompt = String::new();
    append(
        &mut prompt,
        "You are a tech article recommender. Select the best 4 articles from the CANDIDATES list.\n\n",
    );
    if interests.len() > 0 {
        append(&mut prompt, "USER SELECTED TAGS: ");
        write_tag_list(&mut prompt, interests);
        append(
            &mut prompt,
            "\nINSTRUCTION: Prioritize articles that match the USER SELECTED TAGS above all else.\n\n",
        );
    }
    if persona.description.unicode_len() > 0 {
        append(&mut prompt, "USER PERSONA (Implicit Preferences):\n");
        append(&mut prompt, persona.description.as_str());
        append(&mut prompt, "\n\nThen, refine the selection to match this persona.\n\n");
    } else {
        append(
            &mut prompt,
            "Prioritize technical depth and relevance to Rust, Tauri, React, and System Programming.\n\n",
        );
    }
    append(&mut prompt, "CANDIDATES (JSON):\n[");
    let ghost head = prompt@;
    let mut i: usize = 0;
    while i < window.len()
        invariant
            i <= window@.len(),
            prompt@ == head + candidates_json(views(window@).subrange(0, i as int)),
        decreases window@.len() - i,
    {
        if i > 0 {
            append(&mut prompt, ",");
        }
        write_candidate(&mut prompt, &window[i]);
        proof {
            let sub = views(window@).subrange(0, i + 1);
            assert(sub.drop_last() =~= views(window@).subrange(0, i as int));
            assert(sub.last() == window@[i as int]@);
        }
        i += 1;
    }
    proof {
        assert(views(window@).subrange(0, i as int) =~= views(window@));
    }
    append(&mut prompt, "]\n\nRespond ONLY with a JSON array of the IDs of the 4 selected articles.");
    prompt
}

} // verus!
