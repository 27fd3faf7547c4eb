use vstd::prelude::*;
use crate::error::AppError;
use crate::model::{feedback_views, views, Article, ArticleView, Feedback, FeedbackView};
use crate::store::{feedback_of, new_count, rows_wf, unjudged, upsert_all, with_feedback, ArticleStore};

verus! {

/// The operations the ranking pipeline needs from an article store, whatever
/// engine keeps the rows. A failing engine reports an error and leaves the
/// rows as they were.
pub trait RecommendationRepository {
    /// The stored rows.
    spec fn stored(&self) -> Seq<ArticleView>;

    /// Articles that carry no feedback, in stored order.
    fn get_articles(&self) -> (r: Result<Vec<Article>, AppError>)
        ensures
            match r {
                Ok(v) => views(v@) == unjudged(self.stored()),
                Err(_) => true,
            },
    ;

    /// Feedback of every judged article, in stored order.
    fn get_feedback(&self) -> (r: Result<Vec<Feedback>, AppError>)
        ensures
            match r {
                Ok(v) => feedback_views(v@) == feedback_of(self.stored()),
                Err(_) => true,
            },
    ;

    /// Inserts or merges a batch by url; the count of new urls.
    fn upsert_articles(&mut self, articles: Vec<Article>) -> (r: Result<usize, AppError>)
        requires
            rows_wf(old(self).stored()),
            forall|i: int| 0 <= i < articles@.len() ==> (#[trigger] articles@[i]).wf(),
        ensures
            rows_wf(final(self).stored()),
            match r {
                Ok(n) => final(self).stored() == upsert_all(old(self).stored(), views(articles@))
                    && n == new_count(old(self).stored(), views(articles@)),
                Err(_) => final(self).stored() == old(self).stored(),
            },
    ;

    /// Attaches feedback to every article with the given id.
    fn update_feedback(&mut self, id: &String, helpful: bool, reason: String, timestamp: String) -> (r:
        Result<(), AppError>)
        requires
            rows_wf(old(self).stored()),
        ensures
            rows_wf(final(self).stored()),
            match r {
                Ok(_) => final(self).stored() == with_feedback(
                    old(self).stored(),
                    id@,
                    FeedbackView { is_helpful: helpful, reason: reason@, created_at: timestamp@ },
                ),
                Err(_) => final(self).stored() == old(self).stored(),
            },
    ;

    /// Number of judged articles.
    fn get_feedback_count(&self) -> (r: Result<usize, AppError>)
        ensures
            match r {
                Ok(n) => n == feedback_of(self.stored()).len(),
                Err(_) => true,
            },
    ;
}

/// The in-memory store never fails.
impl RecommendationRepository for ArticleStore {
    open spec fn stored(&self) -> Seq<ArticleView> {
        self@
    }

    fn get_articles(&self) -> (r: Result<Vec<Article>, AppError>)
        ensures
            r.is_ok(),
    {
        Ok(self.candidates())
    }

    fn get_feedback(&self) -> (r: Result<Vec<Feedback>, AppError>)
        ensures
            r.is_ok(),
    {
        Ok(self.all_feedback())
    }

    fn upsert_articles(&mut self, articles: Vec<Article>) -> (r: Result<usize, AppError>)
        ensures
            r.is_ok(),
    {
        Ok(self.upsert_many(articles))
    }

    fn update_feedback(&mut self, id: &String, helpful: bool, reason: String, timestamp: String) -> (r:
        Result<(), AppError>)
        ensures
            r.is_ok(),
    {
        self.record_feedback(id, helpful, reason, timestamp);
        Ok(())
    }

    fn get_feedback_count(&self) -> (r: Result<usize, AppError>)
        ensures
            r.is_ok(),
    {
        Ok(self.feedback_count())
    }
}

} // verus!
