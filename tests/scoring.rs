use feed_ranker::model::{Article, ArticleCategory, Feedback};
use feed_ranker::scorer::{calculate_relevance_score, score_lowercased};
use std::time::Instant;

fn article(id: &str, title: &str, summary: &str, url: &str, tags: Vec<ArticleCategory>) -> Article {
    Article {
        id: id.into(),
        title: title.into(),
        summary: summary.into(),
        url: url.into(),
        tags,
        published_at: "".into(),
        feedback: None,
        image_url: None,
        author: None,
    }
}

fn judged(id: &str, title: &str, summary: &str, url: &str, tag: ArticleCategory, helpful: bool, reason: &str) -> Article {
    let mut a = article(id, title, summary, url, vec![tag]);
    a.feedback = Some(Feedback { is_helpful: helpful, reason: reason.into(), created_at: "".into() });
    a
}

#[test]
fn tests_test_scoring_system() {
    let rust_article = article(
        "1",
        "Rust 1.85 Released with Async improvements",
        "Great new features for memory safety and performance.",
        "",
        vec![ArticleCategory::Rust],
    );
    let stock_article = article(
        "2",
        "Warren Buffett sells Berkshire Hathaway stock",
        "Market analysis of the recent finance trends.",
        "",
        vec![ArticleCategory::General],
    );
    let tech_article = article(
        "3",
        "10 Tips for cleaner Code",
        "Refactoring tips for developers.",
        "",
        vec![ArticleCategory::General],
    );

    let s1 = calculate_relevance_score(&rust_article, &[]);
    let s2 = calculate_relevance_score(&stock_article, &[]);
    let s3 = calculate_relevance_score(&tech_article, &[]);

    println!("Rust Score: {}", s1);
    println!("Stock Score: {}", s2);
    println!("Tech Score: {}", s3);

    assert!(s1 > s3, "Rust specific should score higher than general code");
    assert!(s3 > s2, "General code should score higher than stock market noise");
    assert!(s2 < 0, "Stock market noise should have negative score");
}

#[test]
fn bench_calculate_relevance_score() {
    let article = article(
        "1",
        "Rust is amazing for Tauri apps",
        "This article discusses how Rust and React work together in Tauri. It mentions webassembly and performance.",
        "http://example.com",
        vec![],
    );
    let start = Instant::now();
    for _ in 0..10000 {
        calculate_relevance_score(&article, &[]);
    }
    println!("Time taken: {:?}", start.elapsed());
}

#[test]
fn scorer_test_feedback_scoring_internal() {
    let downvoted_article = judged("down", "Bad Article", "Not helpful", "http://bad.com", ArticleCategory::Rust, false, "Bad");
    let upvoted_article = judged("up", "Good Article", "Helpful", "http://good.com", ArticleCategory::Rust, true, "Good");

    let s1 = calculate_relevance_score(&downvoted_article, &[]);
    let s2 = calculate_relevance_score(&upvoted_article, &[]);

    assert!(s1 < -500, "Downvoted article should have READ_PENALTY");
    assert!(s2 < -500, "Upvoted article should have READ_PENALTY");
}

#[test]
fn scoring_test_feedback_scoring_internal() {
    let downvoted_article = judged("down", "Bad Article", "Not helpful", "http://bad.com", ArticleCategory::Rust, false, "Bad");
    let upvoted_article = judged("up", "Good Article", "Helpful", "http://good.com", ArticleCategory::Rust, true, "Good");

    let s1 = calculate_relevance_score(&downvoted_article, &[]);
    let s2 = calculate_relevance_score(&upvoted_article, &[]);

    assert!(s1 < -500, "Downvoted article should be buried (-1000 penalty)");
    assert!(s2 < -500, "Upvoted article should also be hidden (treated as read)");
}

#[test]
fn service_test_feedback_scoring_internal() {
    let downvoted_article = judged("down", "Bad Article", "Not helpful", "http://bad.com", ArticleCategory::Rust, false, "Bad");
    let upvoted_article = judged("up", "Good Article", "Helpful", "http://good.com", ArticleCategory::Rust, true, "Good");

    let s1 = calculate_relevance_score(&downvoted_article, &[]);
    let s2 = calculate_relevance_score(&upvoted_article, &[]);

    assert!(s1 < -500, "Downvoted article should be buried (-1000 penalty)");
    assert!(s2 < -500, "Upvoted article should also be hidden (treated as read)");
}

#[test]
fn test_scoring_integration() {
    let rust_article = article("1", "Rust Updates", "New async features", "http://rust.com", vec![ArticleCategory::Rust]);

    let score_rust = calculate_relevance_score(&rust_article, &[ArticleCategory::Rust]);
    let score_none = calculate_relevance_score(&rust_article, &[]);

    assert!(score_rust > score_none, "Explicit interest should boost score");
    assert!(score_rust >= 60, "Score should be at least 50+10 ({})", score_rust);

    let downvoted_article = judged("2", "Bad Article", "Spam", "http://spam.com", ArticleCategory::General, false, "Spam");
    let upvoted_article = judged("3", "Good Article", "Nice", "http://nice.com", ArticleCategory::General, true, "Nice");

    let score_bad = calculate_relevance_score(&downvoted_article, &[]);
    let score_read = calculate_relevance_score(&upvoted_article, &[]);

    assert!(score_bad < -500, "Downvoted article should be buried (Score: {})", score_bad);
    assert!(score_read < -500, "Upvoted article should be hidden as read (Score: {})", score_read);
}

#[test]
fn exact_scores_of_known_articles() {
    // "rust" +10, Rust tag +5
    let rust_article = article(
        "1",
        "Rust 1.85 Released with Async improvements",
        "Great new features for memory safety and performance.",
        "",
        vec![ArticleCategory::Rust],
    );
    assert_eq!(calculate_relevance_score(&rust_article, &[]), 15);
    // stock, market, buffett, berkshire: 4 * -20
    let stock_article = article(
        "2",
        "Warren Buffett sells stock",
        "Market analysis of Berkshire.",
        "",
        vec![ArticleCategory::General],
    );
    assert_eq!(calculate_relevance_score(&stock_article, &[]), -80);
    // code, developer, refactoring: 3 * 3
    let tech_article = article("3", "10 Tips for cleaner Code", "Refactoring tips for developers.", "", vec![ArticleCategory::General]);
    assert_eq!(calculate_relevance_score(&tech_article, &[]), 9);
}

#[test]
fn keyword_in_title_and_summary_counts_once() {
    let both = article("1", "rust", "RUST", "", vec![]);
    assert_eq!(calculate_relevance_score(&both, &[]), 10);
}

#[test]
fn tag_bonuses_and_interest_boost() {
    let a = article("1", "", "", "", vec![ArticleCategory::AI, ArticleCategory::General, ArticleCategory::Tauri]);
    // AI +2, General 0, Tauri +5
    assert_eq!(calculate_relevance_score(&a, &[]), 7);
    // interest in AI and General adds 50 each
    assert_eq!(calculate_relevance_score(&a, &[ArticleCategory::AI, ArticleCategory::General]), 107);
}

#[test]
fn judged_article_takes_the_read_penalty() {
    let mut a = article("1", "Rust and React", "compiler code", "", vec![ArticleCategory::Rust]);
    let open = calculate_relevance_score(&a, &[ArticleCategory::Rust]);
    a.feedback = Some(Feedback { is_helpful: true, reason: "ok".into(), created_at: "t".into() });
    let judged_score = calculate_relevance_score(&a, &[ArticleCategory::Rust]);
    assert_eq!(judged_score, open - 1000);
    assert!(judged_score <= -10);
}

#[test]
fn rust_release_outscores_finance_news() {
    let rust_article = article("1", "Rust 1.85 Released with Async improvements", "", "", vec![ArticleCategory::Rust]);
    let stock_article = article("2", "Warren Buffett sells stock", "", "", vec![ArticleCategory::General]);
    let s1 = calculate_relevance_score(&rust_article, &[]);
    let s2 = calculate_relevance_score(&stock_article, &[]);
    assert!(s1 > s2);
    assert!(s2 < 0);
}

#[test]
fn scoring_of_lowercased_text() {
    let a = article("1", "ignored", "ignored", "", vec![ArticleCategory::Web]);
    // "docker" +10, "linux" +3, "crypto" -20, Web tag +2
    assert_eq!(score_lowercased(&a, "docker on linux", "crypto", &[]), -5);
    // Upper case is not matched once the text is taken as already lowercased.
    assert_eq!(score_lowercased(&a, "DOCKER", "", &[]), 2);
}
