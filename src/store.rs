use vstd::prelude::*;
use crate::model::{
    copy_article, copy_feedback, copy_tags, Article, ArticleCategory, ArticleView, Feedback,
    FeedbackView, opt_feedback_view, views, feedback_views,
};
use crate::scorer::contains_category;
use crate::model::all_well_formed;

verus! {

/// `existing`, then each tag of `incoming` that is not there yet, in order.
pub open spec fn merge_tags(existing: Seq<ArticleCategory>, incoming: Seq<ArticleCategory>) -> Seq<
    ArticleCategory,
>
    decreases incoming.len(),
{
    if incoming.len() == 0 {
        existing
    } else {
        let m = merge_tags(existing, incoming.drop_last());
        if m.contains(incoming.last()) {
            m
        } else {
            m.push(incoming.last())
        }
    }
}

/// Position of the row whose url is `url`, or -1.
pub open spec fn index_of_url(rows: Seq<ArticleView>, url: Seq<char>) -> int
    decreases rows.len(),
{
    if rows.len() == 0 {
        -1
    } else if rows.last().url == url {
        rows.len() - 1
    } else {
        index_of_url(rows.drop_last(), url)
    }
}

/// No two rows share a url, and each row's tags are an ordered set.
pub open spec fn rows_wf(rows: Seq<ArticleView>) -> bool {
    &&& forall|i: int| 0 <= i < rows.len() ==> (#[trigger] rows[i]).wf()
    &&& forall|i: int, j: int|
        0 <= i < rows.len() && 0 <= j < rows.len() && i != j ==> rows[i].url != rows[j].url
}

/// A re-ingested article: the new parse, with the stored id and feedback and
/// the union of both tag lists.
pub open spec fn merged_row(stored: ArticleView, incoming: ArticleView) -> ArticleView {
    ArticleView {
        id: stored.id,
        title: incoming.title,
        summary: incoming.summary,
        url: incoming.url,
        tags: merge_tags(stored.tags, incoming.tags),
        published_at: incoming.published_at,
        feedback: stored.feedback,
        image_url: incoming.image_url,
        author: incoming.author,
    }
}

/// A first-seen article, stored without feedback.
pub open spec fn fresh_row(incoming: ArticleView) -> ArticleView {
    ArticleView { feedback: None, ..incoming }
}

pub open spec fn upsert_one(rows: Seq<ArticleView>, a: ArticleView) -> Seq<ArticleView> {
    let k = index_of_url(rows, a.url);
    if k >= 0 {
        rows.update(k, merged_row(rows[k], a))
    } else {
        rows.push(fresh_row(a))
    }
}

/// The rows after the batch was upserted in order, each article merged
/// against the rows as the earlier ones left them.
pub open spec fn upsert_all(rows: Seq<ArticleView>, batch: Seq<ArticleView>) -> Seq<ArticleView>
    decreases batch.len(),
{
    if batch.len() == 0 {
        rows
    } else {
        upsert_one(upsert_all(rows, batch.drop_last()), batch.last())
    }
}

/// How many articles of the batch had a url not stored before them.
pub open spec fn new_count(rows: Seq<ArticleView>, batch: Seq<ArticleView>) -> int
    decreases batch.len(),
{
    if batch.len() == 0 {
        0
    } else {
        new_count(rows, batch.drop_last()) + if index_of_url(
            upsert_all(rows, batch.drop_last()),
            batch.last().url,
        ) < 0 {
            1int
        } else {
            0
        }
    }
}

/// The rows not judged yet, in stored order.
pub open spec fn unjudged(rows: Seq<ArticleView>) -> Seq<ArticleView>
    decreases rows.len(),
{
    if rows.len() == 0 {
        seq![]
    } else if rows.last().feedback.is_none() {
        unjudged(rows.drop_last()).push(rows.last())
    } else {
        unjudged(rows.drop_last())
    }
}

/// The feedback of the judged rows, in stored order.
pub open spec fn feedback_of(rows: Seq<ArticleView>) -> Seq<FeedbackView>
    decreases rows.len(),
{
    if rows.len() == 0 {
        seq![]
    } else {
        match rows.last().feedback {
            Some(f) => feedback_of(rows.drop_last()).push(f),
            None => feedback_of(rows.drop_last()),
        }
    }
}

/// Every row whose id is `id` now carries `fb`.
pub open spec fn with_feedback(rows: Seq<ArticleView>, id: Seq<char>, fb: FeedbackView) -> Seq<
    ArticleView,
> {
    Seq::new(
        rows.len(),
        |i: int|
            if rows[i].id == id {
                ArticleView { feedback: Some(fb), ..rows[i] }
            } else {
                rows[i]
            },
    )
}

proof fn lemma_index_of_url(rows: Seq<ArticleView>, url: Seq<char>)
    ensures
        -1 <= index_of_url(rows, url) < rows.len(),
        index_of_url(rows, url) >= 0 ==> rows[index_of_url(rows, url)].url == url,
        index_of_url(rows, url) < 0 ==> forall|j: int| 0 <= j < rows.len() ==> rows[j].url != url,
        index_of_url(rows, url) >= 0 ==> forall|j: int|
            index_of_url(rows, url) < j < rows.len() ==> rows[j].url != url,
    decreases rows.len(),
{
    if rows.len() > 0 {
        let p = rows.drop_last();
        lemma_index_of_url(p, url);
        assert forall|j: int| 0 <= j < p.len() implies p[j] == rows[j] by {}
    }
}

/// With unique urls, the row found is the one holding the url.
proof fn lemma_index_of_unique_url(rows: Seq<ArticleView>, url: Seq<char>, k: int)
    requires
        rows_wf(rows),
        0 <= k < rows.len(),
        rows[k].url == url,
    ensures
        index_of_url(rows, url) == k,
{
    lemma_index_of_url(rows, url);
}

proof fn lemma_merge_tags(existing: Seq<ArticleCategory>, incoming: Seq<ArticleCategory>)
    ensures
        existing.no_duplicates() ==> merge_tags(existing, incoming).no_duplicates(),
        merge_tags(existing, incoming).len() >= existing.len(),
        merge_tags(existing, incoming).subrange(0, existing.len() as int) == existing,
        forall|c: ArticleCategory|
            merge_tags(existing, incoming).contains(c) <==> (existing.contains(c)
                || incoming.contains(c)),
        (forall|c: ArticleCategory| incoming.contains(c) ==> existing.contains(c)) ==> merge_tags(
            existing,
            incoming,
        ) == existing,
    decreases incoming.len(),
{
    if incoming.len() > 0 {
        let prev = incoming.drop_last();
        lemma_merge_tags(existing, prev);
        let m = merge_tags(existing, prev);
        let c = incoming.last();
        assert forall|d: ArticleCategory| prev.contains(d) implies incoming.contains(d) by {
            let i = choose|i: int| 0 <= i < prev.len() && prev[i] == d;
            assert(incoming[i] == d);
        }
        assert forall|d: ArticleCategory| incoming.contains(d) implies prev.contains(d) || d == c by {
            let i = choose|i: int| 0 <= i < incoming.len() && incoming[i] == d;
            if i < prev.len() {
                assert(prev[i] == d);
            }
        }
        assert(incoming.contains(c)) by {
            assert(incoming[incoming.len() - 1] == c);
        }
        if !m.contains(c) {
            let u = m.push(c);
            assert(u.subrange(0, existing.len() as int) =~= m.subrange(0, existing.len() as int));
            assert forall|d: ArticleCategory| u.contains(d) <==> (m.contains(d) || d == c) by {
                if u.contains(d) {
                    let i = choose|i: int| 0 <= i < u.len() && u[i] == d;
                    if i < m.len() {
                        assert(m[i] == d);
                    }
                }
                if m.contains(d) {
                    let i = choose|i: int| 0 <= i < m.len() && m[i] == d;
                    assert(u[i] == d);
                }
                if d == c {
                    assert(u[m.len() as int] == d);
                }
            }
            if existing.no_duplicates() {
                assert forall|i: int, j: int| 0 <= i < u.len() && 0 <= j < u.len() && i != j implies u[i]
                    != u[j] by {
                    if i == m.len() as int {
                        assert(m.contains(u[j]) || j == m.len() as int);
                    } else if j == m.len() as int {
                        assert(m.contains(u[i]));
                    }
                }
            }
        }
    }
}

proof fn lemma_upsert_one_wf(rows: Seq<ArticleView>, a: ArticleView)
    requires
        rows_wf(rows),
        a.wf(),
    ensures
        rows_wf(upsert_one(rows, a)),
        index_of_url(rows, a.url) < 0 ==> upsert_one(rows, a).len() == rows.len() + 1,
        index_of_url(rows, a.url) >= 0 ==> upsert_one(rows, a).len() == rows.len(),
{
    lemma_index_of_url(rows, a.url);
    let k = index_of_url(rows, a.url);
    if k >= 0 {
        lemma_merge_tags(rows[k].tags, a.tags);
        let r = upsert_one(rows, a);
        assert(r[k].wf());
        assert forall|i: int| 0 <= i < r.len() implies (#[trigger] r[i]).wf() by {
            if i != k {
                assert(r[i] == rows[i]);
            }
        }
    } else {
        let r = upsert_one(rows, a);
        assert forall|i: int| 0 <= i < r.len() implies (#[trigger] r[i]).wf() by {
            if i < rows.len() {
                assert(r[i] == rows[i]);
            }
        }
    }
}

proof fn lemma_upsert_single(rows: Seq<ArticleView>, a: ArticleView)
    requires
        rows_wf(rows),
        a.wf(),
    ensures
        upsert_all(rows, seq![a]) == upsert_one(rows, a),
        new_count(rows, seq![a]) == if index_of_url(rows, a.url) < 0 {
            1int
        } else {
            0
        },
        rows_wf(upsert_one(rows, a)),
        index_of_url(rows, a.url) >= 0 ==> index_of_url(upsert_one(rows, a), a.url) == index_of_url(
            rows,
            a.url,
        ),
        index_of_url(rows, a.url) < 0 ==> index_of_url(upsert_one(rows, a), a.url) == rows.len(),
{
    reveal_with_fuel(upsert_all, 2);
    reveal_with_fuel(new_count, 2);
    assert(seq![a].drop_last() =~= Seq::<ArticleView>::empty());
    assert(seq![a].last() == a);
    lemma_index_of_url(rows, a.url);
    lemma_upsert_one_wf(rows, a);
    let k = index_of_url(rows, a.url);
    if k >= 0 {
        lemma_index_of_unique_url(upsert_one(rows, a), a.url, k);
    } else {
        lemma_index_of_unique_url(upsert_one(rows, a), a.url, rows.len() as int);
    }
}

/// Upserting the same article twice: the second call finds nothing new and
/// leaves every stored tag list as the first call left it; where the url was
/// not stored before, the first call counts exactly one new article.
pub proof fn lemma_upsert_idempotent(rows: Seq<ArticleView>, a: ArticleView)
    requires
        rows_wf(rows),
        a.wf(),
    ensures
        index_of_url(rows, a.url) < 0 ==> new_count(rows, seq![a]) == 1,
        new_count(upsert_all(rows, seq![a]), seq![a]) == 0,
        upsert_all(upsert_all(rows, seq![a]), seq![a]).len() == upsert_all(rows, seq![a]).len(),
        forall|i: int|
            0 <= i < upsert_all(rows, seq![a]).len() ==> (#[trigger] upsert_all(
                upsert_all(rows, seq![a]),
                seq![a],
            )[i]).tags == upsert_all(rows, seq![a])[i].tags,
{
    lemma_upsert_single(rows, a);
    let r1 = upsert_one(rows, a);
    lemma_upsert_single(r1, a);
    let k = index_of_url(r1, a.url);
    lemma_index_of_url(r1, a.url);
    lemma_index_of_url(rows, a.url);
    let k0 = index_of_url(rows, a.url);
    if k0 >= 0 {
        lemma_merge_tags(rows[k0].tags, a.tags);
        assert(r1[k].tags == merge_tags(rows[k0].tags, a.tags));
    } else {
        assert(r1[k].tags == a.tags);
    }
    assert(forall|c: ArticleCategory| a.tags.contains(c) ==> r1[k].tags.contains(c));
    lemma_merge_tags(r1[k].tags, a.tags);
}

/// Upserting one url twice with the single tags `t1`, then `t2`: the stored
/// row holds both, after whatever tags it had, in the order first seen, and
/// keeps the feedback it had (none, for a url not stored before).
pub proof fn lemma_upsert_merges_tags(
    rows: Seq<ArticleView>,
    a1: ArticleView,
    a2: ArticleView,
    t1: ArticleCategory,
    t2: ArticleCategory,
)
    requires
        rows_wf(rows),
        a1.wf(),
        a2.wf(),
        a1.url == a2.url,
        a1.tags == seq![t1],
        a2.tags == seq![t2],
    ensures
        ({
            let r = upsert_all(upsert_all(rows, seq![a1]), seq![a2]);
            let k = index_of_url(r, a1.url);
            let k0 = index_of_url(rows, a1.url);
            &&& 0 <= k < r.len()
            &&& r[k].tags.contains(t1)
            &&& r[k].tags.contains(t2)
            &&& k0 < 0 ==> r[k].tags == (if t1 == t2 {
                seq![t1]
            } else {
                seq![t1, t2]
            }) && r[k].feedback.is_none()
            &&& k0 >= 0 ==> k == k0 && r[k].feedback == rows[k0].feedback && r[k].tags == merge_tags(
                merge_tags(rows[k0].tags, seq![t1]),
                seq![t2],
            ) && r[k].tags.subrange(0, rows[k0].tags.len() as int) == rows[k0].tags
        }),
{
    lemma_upsert_single(rows, a1);
    let r1 = upsert_one(rows, a1);
    lemma_upsert_single(r1, a2);
    let r = upsert_one(r1, a2);
    lemma_index_of_url(rows, a1.url);
    lemma_index_of_url(r1, a1.url);
    lemma_index_of_url(r, a1.url);
    let k = index_of_url(r, a1.url);
    let k0 = index_of_url(rows, a1.url);
    lemma_merge_tags(r1[k].tags, seq![t2]);
    assert(seq![t2].contains(t2)) by {
        assert(seq![t2][0] == t2);
    }
    if k0 >= 0 {
        lemma_merge_tags(rows[k0].tags, seq![t1]);
        assert(seq![t1].contains(t1)) by {
            assert(seq![t1][0] == t1);
        }
        let m1 = merge_tags(rows[k0].tags, seq![t1]);
        assert(m1.subrange(0, rows[k0].tags.len() as int) == rows[k0].tags);
        let m2 = merge_tags(m1, seq![t2]);
        assert(m2.subrange(0, m1.len() as int) == m1);
        assert(m2.subrange(0, rows[k0].tags.len() as int) =~= m1.subrange(0, rows[k0].tags.len() as int));
    } else {
        assert(r1[k].tags == seq![t1]);
        assert(seq![t1].contains(t1)) by {
            assert(seq![t1][0] == t1);
        }
        let s2 = seq![t2];
        assert(s2.drop_last() =~= Seq::<ArticleCategory>::empty());
        assert(merge_tags(seq![t1], s2.drop_last()) == seq![t1]);
        if t1 == t2 {
            assert(seq![t1].contains(t2));
        } else {
            assert(!seq![t1].contains(t2));
            assert(seq![t1].push(t2) =~= seq![t1, t2]);
        }
    }
}

/// An upsert of any batch keeps every stored row where it was, with its url
/// and the feedback it had: re-ingesting never touches recorded feedback.
pub proof fn lemma_upsert_keeps_feedback(rows: Seq<ArticleView>, batch: Seq<ArticleView>, k: int)
    requires
        rows_wf(rows),
        forall|i: int| 0 <= i < batch.len() ==> (#[trigger] batch[i]).wf(),
        0 <= k < rows.len(),
    ensures
        rows_wf(upsert_all(rows, batch)),
        upsert_all(rows, batch).len() >= rows.len(),
        upsert_all(rows, batch)[k].url == rows[k].url,
        upsert_all(rows, batch)[k].feedback == rows[k].feedback,
    decreases batch.len(),
{
    if batch.len() > 0 {
        let prev = batch.drop_last();
        assert forall|i: int| 0 <= i < prev.len() implies (#[trigger] prev[i]).wf() by {
            assert(prev[i] == batch[i]);
        }
        lemma_upsert_keeps_feedback(rows, prev, k);
        let r = upsert_all(rows, prev);
        let a = batch.last();
        assert(a == batch[batch.len() - 1]);
        lemma_upsert_one_wf(r, a);
        lemma_index_of_url(r, a.url);
    }
}

/// A keyed collection of articles: the url of each row is unique.
pub struct ArticleStore {
    rows: Vec<Article>,
}

impl View for ArticleStore {
    type V = Seq<ArticleView>;

    closed spec fn view(&self) -> Seq<ArticleView> {
        views(self.rows@)
    }
}

impl ArticleStore {
    pub open spec fn wf(&self) -> bool {
        rows_wf(self@)
    }

    proof fn lemma_view(&self)
        ensures
            self@.len() == self.rows@.len(),
            forall|i: int| 0 <= i < self.rows@.len() ==> #[trigger] self@[i] == self.rows@[i]@,
    {
    }

    pub fn new() -> (r: ArticleStore)
        ensures
            r@ == Seq::<ArticleView>::empty(),
            r.wf(),
    {
        proof {
            assert(views(Seq::<Article>::empty()) =~= Seq::<ArticleView>::empty());
        }
        ArticleStore { rows: Vec::new() }
    }

    /// A store holding exactly `rows`, in order; none where two rows share
    /// a url or a row repeats a tag.
    pub fn restore(rows: Vec<Article>) -> (r: Option<ArticleStore>)
        ensures
            match r {
                Some(s) => s@ == views(rows@) && s.wf(),
                None => !rows_wf(views(rows@)),
            },
    {
        let ghost v = views(rows@);
        if !all_well_formed(&rows) {
            proof {
                let k = choose|k: int| 0 <= k < rows@.len() && !(#[trigger] rows@[k]).wf();
                assert(v[k] == rows@[k]@);
            }
            return None;
        }
        let mut i: usize = 0;
        while i < rows.len()
            invariant
                i <= rows@.len(),
                v == views(rows@),
                forall|x: int, y: int| 0 <= x < y < i ==> v[x].url != v[y].url,
            decreases rows@.len() - i,
        {
            let mut j: usize = 0;
            while j < i
                invariant
                    i < rows@.len(),
                    j <= i,
                    v == views(rows@),
                    forall|x: int| 0 <= x < j ==> v[x].url != v[i as int].url,
                decreases i - j,
            {
                if rows[j].url == rows[i].url {
                    proof {
                        assert(v[j as int].url == v[i as int].url);
                    }
                    return None;
                }
                j += 1;
            }
            i += 1;
        }
        let s = ArticleStore { rows };
        proof {
            assert forall|x: int, y: int|
                0 <= x < v.len() && 0 <= y < v.len() && x != y implies v[x].url != v[y].url by {
                if x > y {
                    assert(v[y].url != v[x].url);
                }
            }
            assert forall|k: int| 0 <= k < v.len() implies (#[trigger] v[k]).wf() by {
                assert(v[k] == rows@[k]@);
                assert(rows@[k].wf());
            }
        }
        Some(s)
    }

    /// Number of stored articles.
    pub fn len(&self) -> (r: usize)
        ensures
            r == self@.len(),
    {
        self.rows.len()
    }

    /// Copies of all stored articles, in stored order.
    pub fn all_articles(&self) -> (r: Vec<Article>)
        ensures
            views(r@) == self@,
    {
        let mut r: Vec<Article> = Vec::new();
        let mut i: usize = 0;
        while i < self.rows.len()
            invariant
                i <= self.rows@.len(),
                views(r@) == self@.subrange(0, i as int),
            decreases self.rows@.len() - i,
        {
            proof {
                self.lemma_view();
            }
            r.push(copy_article(&self.rows[i]));
            i += 1;
            proof {
                let ghost prev_r = r@.drop_last();
                assert(views(prev_r) == self@.subrange(0, i - 1));
                assert forall|k: int| 0 <= k < i implies #[trigger] views(r@)[k]
                    == self@.subrange(0, i as int)[k] by {
                    if k < i - 1 {
                        assert(r@[k] == prev_r[k]);
                        assert(views(prev_r)[k] == self@.subrange(0, i - 1)[k]);
                    }
                }
                assert(views(r@) =~= self@.subrange(0, i as int));
            }
        }
        proof {
            assert(self@.subrange(0, i as int) =~= self@);
        }
        r
    }

    fn find_url(&self, url: &String) -> (r: Option<usize>)
        requires
            self.wf(),
        ensures
            match r {
                Some(k) => k == index_of_url(self@, url@) && k < self@.len(),
                None => index_of_url(self@, url@) < 0,
            },
    {
        proof {
            self.lemma_view();
        }
        let mut i: usize = 0;
        while i < self.rows.len()
            invariant
                self.wf(),
                self@.len() == self.rows@.len(),
                forall|j: int| 0 <= j < self.rows@.len() ==> #[trigger] self@[j] == self.rows@[j]@,
                i <= self.rows@.len(),
                forall|j: int| 0 <= j < i ==> self@[j].url != url@,
            decreases self.rows@.len() - i,
        {
            if self.rows[i].url == *url {
                proof {
                    lemma_index_of_unique_url(self@, url@, i as int);
                    lemma_index_of_url(self@, url@);
                }
                return Some(i);
            }
            i += 1;
        }
        proof {
            lemma_index_of_url(self@, url@);
        }
        None
    }

    /// Inserts or merges each article of `articles` by url, in order, and
    /// returns how many of them had a url that was not stored yet. A merged
    /// row keeps its id and feedback, unites the tag lists (stored tags
    /// first), and takes every other field from the new article.
    pub fn upsert_many(&mut self, articles: Vec<Article>) -> (r: usize)
        requires
            old(self).wf(),
            forall|i: int| 0 <= i < articles@.len() ==> (#[trigger] articles@[i]).wf(),
        ensures
            final(self).wf(),
            final(self)@ == upsert_all(old(self)@, views(articles@)),
            r == new_count(old(self)@, views(articles@)),
    {
        let ghost start = self@;
        let ghost batch = views(articles@);
        let mut count: usize = 0;
        let mut i: usize = 0;
        while i < articles.len()
            invariant
                i <= articles@.len(),
                batch == views(articles@),
                forall|j: int| 0 <= j < articles@.len() ==> (#[trigger] articles@[j]).wf(),
                self.wf(),
                self@ == upsert_all(start, batch.subrange(0, i as int)),
                count == new_count(start, batch.subrange(0, i as int)),
                count <= i,
            decreases articles@.len() - i,
        {
            let ghost before = self@;
            let a = &articles[i];
            proof {
                self.lemma_view();
                assert(batch.subrange(0, i + 1).drop_last() =~= batch.subrange(0, i as int));
                assert(batch.subrange(0, i + 1).last() == a@);
                lemma_upsert_one_wf(before, a@);
            }
            match self.find_url(&a.url) {
                Some(k) => {
                    let stored = &self.rows[k];
                    let mut tags = copy_tags(&stored.tags);
                    let mut j: usize = 0;
                    while j < a.tags.len()
                        invariant
                            j <= a.tags@.len(),
                            tags@ == merge_tags(stored.tags@, a.tags@.subrange(0, j as int)),
                        decreases a.tags@.len() - j,
                    {
                        proof {
                            assert(a.tags@.subrange(0, j + 1).drop_last() =~= a.tags@.subrange(
                                0,
                                j as int,
                            ));
                        }
                        let t = a.tags[j];
                        if !contains_category(t, tags.as_slice()) {
                            tags.push(t);
                        }
                        j += 1;
                    }
                    proof {
                        assert(a.tags@.subrange(0, j as int) =~= a.tags@);
                    }
                    let merged = Article {
                        id: stored.id.clone(),
                        title: a.title.clone(),
                        summary: a.summary.clone(),
                        url: a.url.clone(),
                        tags,
                        published_at: a.published_at.clone(),
                        feedback: crate::model::copy_opt_feedback(&stored.feedback),
                        image_url: crate::model::copy_opt_string(&a.image_url),
                        author: crate::model::copy_opt_string(&a.author),
                    };
                    self.rows[k] = merged;
                    proof {
                        assert(self@ =~= upsert_one(before, a@));
                    }
                },
                None => {
                    let mut fresh = copy_article(a);
                    fresh.feedback = None;
                    self.rows.push(fresh);
                    count = count + 1;
                    proof {
                        assert(self@ =~= upsert_one(before, a@));
                    }
                },
            }
            i += 1;
        }
        proof {
            assert(batch.subrange(0, i as int) =~= batch);
        }
        count
    }

    /// The articles that carry no feedback, in stored order.
    pub fn candidates(&self) -> (r: Vec<Article>)
        ensures
            views(r@) == unjudged(self@),
    {
        let mut r: Vec<Article> = Vec::new();
        let mut i: usize = 0;
        while i < self.rows.len()
            invariant
                i <= self.rows@.len(),
                views(r@) == unjudged(self@.subrange(0, i as int)),
            decreases self.rows@.len() - i,
        {
            proof {
                assert(self@.subrange(0, i + 1).drop_last() =~= self@.subrange(0, i as int));
            }
            if self.rows[i].feedback.is_none() {
                r.push(copy_article(&self.rows[i]));
                proof {
                    assert(views(r@) =~= unjudged(self@.subrange(0, i + 1)));
                }
            }
            i += 1;
        }
        proof {
            assert(self@.subrange(0, i as int) =~= self@);
        }
        r
    }

    /// The feedback of every judged article, in stored order.
    pub fn all_feedback(&self) -> (r: Vec<Feedback>)
        ensures
            feedback_views(r@) == feedback_of(self@),
    {
        let mut r: Vec<Feedback> = Vec::new();
        let mut i: usize = 0;
        while i < self.rows.len()
            invariant
                i <= self.rows@.len(),
                feedback_views(r@) == feedback_of(self@.subrange(0, i as int)),
            decreases self.rows@.len() - i,
        {
            proof {
                assert(self@.subrange(0, i + 1).drop_last() =~= self@.subrange(0, i as int));
            }
            match &self.rows[i].feedback {
                Some(f) => {
                    r.push(copy_feedback(f));
                    proof {
                        assert(feedback_views(r@) =~= feedback_of(
                            self@.subrange(0, i + 1),
                        ));
                    }
                },
                None => {},
            }
            i += 1;
        }
        proof {
            assert(self@.subrange(0, i as int) =~= self@);
        }
        r
    }

    /// Attaches the feedback to every article whose id is `id`, replacing any
    /// earlier feedback; returns whether there was such an article.
    pub fn record_feedback(&mut self, id: &String, helpful: bool, reason: String, timestamp: String) -> (r: bool)
        requires
            old(self).wf(),
        ensures
            final(self).wf(),
            final(self)@ == with_feedback(
                old(self)@,
                id@,
                FeedbackView { is_helpful: helpful, reason: reason@, created_at: timestamp@ },
            ),
            r == exists|k: int| 0 <= k < old(self)@.len() && (#[trigger] old(self)@[k]).id == id@,
    {
        let ghost start = self@;
        let ghost fb = FeedbackView { is_helpful: helpful, reason: reason@, created_at: timestamp@ };
        let mut found = false;
        let mut i: usize = 0;
        while i < self.rows.len()
            invariant
                fb == (FeedbackView { is_helpful: helpful, reason: reason@, created_at: timestamp@ }),
                start == old(self)@,
                i <= self.rows@.len(),
                self@.len() == start.len(),
                forall|k: int| 0 <= k < i ==> self@[k] == with_feedback(start, id@, fb)[k],
                forall|k: int| i <= k < self@.len() ==> self@[k] == start[k],
                found == exists|k: int| 0 <= k < i && (#[trigger] start[k]).id == id@,
            decreases self.rows@.len() - i,
        {
            proof {
                self.lemma_view();
            }
            let ghost prev = self@;
            if self.rows[i].id == *id {
                let f = Feedback { is_helpful: helpful, reason: reason.clone(), created_at: timestamp.clone() };
                let ghost fv = f@;
                let ghost old_row = self.rows@[i as int];
                self.rows[i].feedback = Some(f);
                found = true;
                proof {
                    self.lemma_view();
                    assert(fv == fb);
                    assert(opt_feedback_view(self.rows@[i as int].feedback) == Some(fb));
                    assert(old_row@ == start[i as int]);
                    assert(start[i as int].id == id@);
                    assert(self@[i as int] == with_feedback(start, id@, fb)[i as int]);
                    assert forall|k: int| 0 <= k < self@.len() && k != i implies self@[k] == prev[k] by {}
                }
            } else {
                proof {
                    assert(self@[i as int] == start[i as int]);
                    assert(start[i as int].id != id@);
                    assert(with_feedback(start, id@, fb)[i as int] == start[i as int]);
                }
            }
            proof {
                assert forall|k: int| 0 <= k <= i implies self@[k] == with_feedback(start, id@, fb)[k] by {
                    if k < i {
                        assert(prev[k] == with_feedback(start, id@, fb)[k]);
                        assert(self@[k] == prev[k]);
                    }
                }
            }
            i += 1;
        }
        proof {
            assert(self@ =~= with_feedback(start, id@, fb));
            let r = self@;
            assert forall|k: int| 0 <= k < r.len() implies (#[trigger] r[k]).wf() by {
                assert(start[k].wf());
            }
        }
        found
    }

    /// Number of judged articles.
    pub fn feedback_count(&self) -> (r: usize)
        ensures
            r == feedback_of(self@).len(),
    {
        let mut n: usize = 0;
        let mut i: usize = 0;
        while i < self.rows.len()
            invariant
                i <= self.rows@.len(),
                n == feedback_of(self@.subrange(0, i as int)).len(),
                n <= i,
            decreases self.rows@.len() - i,
        {
            proof {
                assert(self@.subrange(0, i + 1).drop_last() =~= self@.subrange(0, i as int));
            }
            if self.rows[i].feedback.is_some() {
                n = n + 1;
            }
            i += 1;
        }
        proof {
            assert(self@.subrange(0, i as int) =~= self@);
        }
        n
    }
}

} // verus!
