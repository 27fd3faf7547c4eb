use feed_ranker::model::{Article, ArticleCategory, Feedback, UserPersona};
use feed_ranker::scorer::calculate_relevance_score;
use feed_ranker::store::ArticleStore;
use feed_ranker::rank::{
    finish_recommendation, parse_ai_reply, plan_recommendation, rank_articles, select_ai_picks,
    ranking_prompt, split_tiers, str_less, wants_ai_call,
};

fn dated(id: &str, title: &str, published_at: &str, tags: Vec<ArticleCategory>) -> Article {
    Article {
        id: id.to_string(),
        title: title.to_string(),
        summary: "".to_string(),
        url: format!("http://example.com/{}", id),
        tags,
        published_at: published_at.to_string(),
        feedback: None,
        image_url: None,
        author: None,
    }
}

fn ids(articles: &[Article]) -> Vec<String> {
    articles.iter().map(|a| a.id.clone()).collect()
}

#[test]
fn tests_test_article_sorting() {
    let articles = vec![
        dated("1", "Old", "2024-01-01", vec![ArticleCategory::General]),
        dated("2", "New", "2025-01-01", vec![ArticleCategory::General]),
    ];
    let ranked = rank_articles(&articles, &vec![]);
    assert_eq!(ranked[0].id, "2");
}

#[test]
fn news_test_article_sorting() {
    let a1 = dated("1", "Old", "2024-01-01", vec![ArticleCategory::General]);
    let a2 = dated("2", "New", "2025-01-01", vec![ArticleCategory::General]);
    let articles = vec![a1, a2];
    let ranked = rank_articles(&articles, &vec![]);
    assert_eq!(ranked[0].id, "2");
}

#[test]
fn score_then_date_descending() {
    // Scores 10 (keyword "rust"), 10 and 5 (Rust tag bonus).
    let articles = vec![
        dated("b", "rust", "2024-01-01", vec![]),
        dated("c", "", "2024-03-01", vec![ArticleCategory::Rust]),
        dated("a", "rust", "2024-02-01", vec![]),
    ];
    let ranked = rank_articles(&articles, &vec![]);
    assert_eq!(ids(&ranked), vec!["a", "b", "c"]);
}

#[test]
fn noise_and_judged_articles_are_dropped() {
    let mut judged = dated("j", "rust", "2024-01-01", vec![ArticleCategory::Rust]);
    judged.feedback = Some(Feedback { is_helpful: true, reason: "".into(), created_at: "".into() });
    let articles = vec![
        dated("noise", "stock market", "2024-01-01", vec![]),
        dated("mild", "", "2024-01-01", vec![]),
        judged,
    ];
    let ranked = rank_articles(&articles, &vec![]);
    assert_eq!(ids(&ranked), vec!["mild"]);
}

#[test]
fn tiers_split_three_and_twenty() {
    let mut articles = Vec::new();
    for i in 0..30 {
        articles.push(dated(&format!("{:02}", i), "", &format!("2024-01-{:02}", i), vec![]));
    }
    let ranked = rank_articles(&articles, &vec![]);
    let plan = split_tiers(&ranked);
    assert_eq!(ids(&plan.rule_tier), vec!["29", "28", "27"]);
    assert_eq!(plan.ai_window.len(), 20);
    assert_eq!(plan.ai_window[0].id, "26");
    assert_eq!(plan.ai_window[19].id, "07");
}

#[test]
fn short_lists_fill_what_they_can() {
    let articles = vec![dated("x", "", "2024-01-01", vec![]), dated("y", "", "2024-01-02", vec![])];
    let plan = plan_recommendation(&articles, &vec![]);
    assert_eq!(ids(&plan.rule_tier), vec!["y", "x"]);
    assert!(plan.ai_window.is_empty());
    assert!(!wants_ai_call(true, &plan));
    let result = finish_recommendation(plan, None);
    assert_eq!(ids(&result), vec!["y", "x"]);
}

#[test]
fn fallback_takes_first_four_of_window() {
    let mut articles = Vec::new();
    for i in 0..10 {
        articles.push(dated(&format!("{}", i), "", &format!("2024-01-0{}", i), vec![]));
    }
    let plan = plan_recommendation(&articles, &vec![]);
    assert!(wants_ai_call(true, &plan));
    assert!(!wants_ai_call(false, &plan));
    let result = finish_recommendation(plan, None);
    assert_eq!(ids(&result), vec!["9", "8", "7", "6", "5", "4", "3"]);
}

#[test]
fn ai_selection_keeps_window_order() {
    let window = vec![
        dated("a", "", "", vec![]),
        dated("b", "", "", vec![]),
        dated("c", "", "", vec![]),
    ];
    let picks = select_ai_picks(&window, Some(vec!["c".to_string(), "a".to_string(), "zz".to_string()]));
    assert_eq!(ids(&picks), vec!["a", "c"]);
}

#[test]
fn ai_reply_with_fences_is_read() {
    let reply = "```json\n[\"a\", \"b\"]\n```";
    assert_eq!(parse_ai_reply(reply), Some(vec!["a".to_string(), "b".to_string()]));
    assert_eq!(parse_ai_reply("  [\"x\"]  "), Some(vec!["x".to_string()]));
}

#[test]
fn malformed_ai_reply_is_rejected() {
    assert_eq!(parse_ai_reply("I picked a and b"), None);
    assert_eq!(parse_ai_reply("{\"ids\": [\"a\"]}"), None);
    assert_eq!(parse_ai_reply("[1, 2]"), None);
}

#[test]
fn lexicographic_order_of_dates() {
    let c = |s: &str| s.chars().collect::<Vec<char>>();
    assert!(str_less(&c("2024-01-01"), &c("2024-02-01")));
    assert!(!str_less(&c("2024-02-01"), &c("2024-01-01")));
    assert!(!str_less(&c("2024"), &c("2024")));
    assert!(str_less(&c("2024"), &c("2024-01")));
    assert!(str_less(&c(""), &c("a")));
}

#[test]
fn rust_release_ranks_above_finance_news_end_to_end() {
    let mut store = ArticleStore::new();
    let rust = dated("r", "Rust 1.85 Released with Async improvements", "2024-01-01", vec![ArticleCategory::Rust]);
    let stock = dated("s", "Warren Buffett sells stock", "2024-02-01", vec![ArticleCategory::General]);
    assert!(calculate_relevance_score(&rust, &[]) > calculate_relevance_score(&stock, &[]));
    assert!(calculate_relevance_score(&stock, &[]) < 0);
    assert_eq!(store.upsert_many(vec![rust, stock]), 2);
    let candidates = store.candidates();
    let ranked = rank_articles(&candidates, &vec![]);
    // The finance item scores -40 and falls below the cutoff.
    assert_eq!(ids(&ranked), vec!["r"]);
}

#[test]
fn ai_reply_with_unicode_spacing_is_trimmed() {
    assert_eq!(parse_ai_reply("\u{00A0}[\"x\"]\u{2003}"), Some(vec!["x".to_string()]));
}

#[test]
fn ai_selection_is_capped_at_four() {
    let window: Vec<Article> = (0..5).map(|i| dated(&format!("w{}", i), "", "", vec![])).collect();
    let all_ids: Vec<String> = window.iter().map(|a| a.id.clone()).collect();
    let picks = select_ai_picks(&window, Some(all_ids));
    assert_eq!(ids(&picks), vec!["w0", "w1", "w2", "w3"]);
}

#[test]
fn full_ties_keep_candidate_order() {
    let articles = vec![
        dated("first", "", "2024-01-01", vec![]),
        dated("second", "", "2024-01-01", vec![]),
        dated("newer", "", "2024-05-01", vec![]),
        dated("third", "", "2024-01-01", vec![]),
    ];
    let ranked = rank_articles(&articles, &vec![]);
    assert_eq!(ids(&ranked), vec!["newer", "first", "second", "third"]);
}

#[test]
fn ranking_prompt_lists_window_as_json() {
    let mut a = dated("a1", "Say \"hi\"", "", vec![ArticleCategory::Rust, ArticleCategory::AI]);
    a.summary = "s".repeat(200);
    let persona = UserPersona { description: String::new(), last_updated: String::new() };
    let prompt = ranking_prompt(&vec![a], &persona, &vec![ArticleCategory::React]);
    let expected = format!(
        "You are a tech article recommender. Select the best 4 articles from the CANDIDATES list.\n\n\
USER SELECTED TAGS: [React]\nINSTRUCTION: Prioritize articles that match the USER SELECTED TAGS above all else.\n\n\
Prioritize technical depth and relevance to Rust, Tauri, React, and System Programming.\n\n\
CANDIDATES (JSON):\n[{{\"id\":\"a1\",\"title\":\"Say \\\"hi\\\"\",\"tags\":\"[Rust, AI]\",\"summary\":\"{}\"}}]\n\n\
Respond ONLY with a JSON array of the IDs of the 4 selected articles.",
        "s".repeat(150)
    );
    assert_eq!(prompt, expected);
}
