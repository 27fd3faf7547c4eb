use feed_ranker::model::{Article, ArticleCategory};
use feed_ranker::repository::RecommendationRepository;
use feed_ranker::store::ArticleStore;

fn item(id: &str, url: &str, title: &str, tags: Vec<ArticleCategory>) -> Article {
    Article {
        id: id.to_string(),
        title: title.to_string(),
        summary: "summary".to_string(),
        url: url.to_string(),
        tags,
        published_at: "2024-01-01".to_string(),
        feedback: None,
        image_url: None,
        author: None,
    }
}

#[test]
fn upsert_twice_counts_once_and_keeps_tags() {
    let mut store = ArticleStore::new();
    let a = item("1", "http://a", "A", vec![ArticleCategory::Rust, ArticleCategory::AI]);
    assert_eq!(store.upsert_many(vec![a.clone()]), 1);
    assert_eq!(store.upsert_many(vec![a.clone()]), 0);
    let rows = store.all_articles();
    assert_eq!(rows.len(), 1);
    assert_eq!(rows[0].tags, vec![ArticleCategory::Rust, ArticleCategory::AI]);
}

#[test]
fn reingest_merges_tags_and_keeps_feedback() {
    let mut store = ArticleStore::new();
    store.upsert_many(vec![item("1", "http://a", "A", vec![ArticleCategory::Rust])]);
    assert!(store.record_feedback(&"1".to_string(), false, "meh".to_string(), "t1".to_string()));
    let n = store.upsert_many(vec![item("other-id", "http://a", "A2", vec![ArticleCategory::Tauri])]);
    assert_eq!(n, 0);
    let rows = store.all_articles();
    assert_eq!(rows.len(), 1);
    assert_eq!(rows[0].tags, vec![ArticleCategory::Rust, ArticleCategory::Tauri]);
    assert_eq!(rows[0].id, "1");
    assert_eq!(rows[0].title, "A2");
    let fb = rows[0].feedback.as_ref().unwrap();
    assert!(!fb.is_helpful);
    assert_eq!(fb.reason, "meh");
}

#[test]
fn duplicate_urls_in_one_batch_merge() {
    let mut store = ArticleStore::new();
    let n = store.upsert_many(vec![
        item("1", "http://a", "A", vec![ArticleCategory::React]),
        item("2", "http://b", "B", vec![ArticleCategory::Web]),
        item("1", "http://a", "A", vec![ArticleCategory::Web, ArticleCategory::React]),
    ]);
    assert_eq!(n, 2);
    let rows = store.all_articles();
    assert_eq!(rows.len(), 2);
    assert_eq!(rows[0].tags, vec![ArticleCategory::React, ArticleCategory::Web]);
}

#[test]
fn candidates_exclude_judged_articles() {
    let mut store = ArticleStore::new();
    store.upsert_many(vec![
        item("1", "http://a", "A", vec![]),
        item("2", "http://b", "B", vec![]),
        item("3", "http://c", "C", vec![]),
    ]);
    assert!(store.record_feedback(&"2".to_string(), true, "good".to_string(), "t".to_string()));
    assert!(!store.record_feedback(&"missing".to_string(), true, "x".to_string(), "t".to_string()));
    let ids: Vec<String> = store.candidates().iter().map(|a| a.id.clone()).collect();
    assert_eq!(ids, vec!["1", "3"]);
    assert_eq!(store.feedback_count(), 1);
    let fb = store.all_feedback();
    assert_eq!(fb.len(), 1);
    assert_eq!(fb[0].reason, "good");
    assert!(fb[0].is_helpful);
}

#[test]
fn new_store_is_empty() {
    let store = ArticleStore::new();
    assert_eq!(store.len(), 0);
    assert_eq!(store.feedback_count(), 0);
    assert!(store.candidates().is_empty());
}

#[test]
fn store_serves_as_repository() {
    use_repository(&mut ArticleStore::new());
}

fn use_repository<R: RecommendationRepository>(repo: &mut R) {
    let n = repo.upsert_articles(vec![item("1", "http://a", "A", vec![ArticleCategory::Rust])]).unwrap();
    assert_eq!(n, 1);
    repo.update_feedback(&"1".to_string(), true, "fine".to_string(), "t".to_string()).unwrap();
    assert!(repo.get_articles().unwrap().is_empty());
    assert_eq!(repo.get_feedback().unwrap().len(), 1);
    assert_eq!(repo.get_feedback_count().unwrap(), 1);
}
