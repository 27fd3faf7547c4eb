use feed_ranker::error::AppError;
use feed_ranker::model::{Feedback, UserPersona};
use feed_ranker::persona::{next_persona, persona_prompt, recent_feedback, should_refresh_persona};

fn fb(reason: &str, at: &str) -> Feedback {
    Feedback { is_helpful: true, reason: reason.to_string(), created_at: at.to_string() }
}

#[test]
fn refresh_every_third_feedback() {
    let due: Vec<i64> = (1..=6).filter(|n| should_refresh_persona(*n)).collect();
    assert_eq!(due, vec![3, 6]);
    assert!(!should_refresh_persona(0));
    assert!(!should_refresh_persona(-3));
}

#[test]
fn recent_feedback_newest_first_and_bounded() {
    let mut all = Vec::new();
    for i in 0..25 {
        all.push(fb(&format!("r{}", i), &format!("2024-01-{:02}", i)));
    }
    let recent = recent_feedback(&all);
    assert_eq!(recent.len(), 20);
    assert_eq!(recent[0].reason, "r24");
    assert_eq!(recent[19].reason, "r5");
}

#[test]
fn recent_feedback_of_few_entries() {
    let all = vec![fb("b", "2024-02"), fb("a", "2024-01"), fb("c", "2024-03")];
    let recent = recent_feedback(&all);
    let reasons: Vec<&str> = recent.iter().map(|f| f.reason.as_str()).collect();
    assert_eq!(reasons, vec!["c", "b", "a"]);
}

#[test]
fn persona_replaced_only_on_success() {
    let current = UserPersona { description: "likes Rust".to_string(), last_updated: "t0".to_string() };
    let kept = next_persona(&current, None, "t1".to_string());
    assert_eq!(kept.description, "likes Rust");
    assert_eq!(kept.last_updated, "t0");
    let fresh = next_persona(&current, Some("likes Tauri".to_string()), "t1".to_string());
    assert_eq!(fresh.description, "likes Tauri");
    assert_eq!(fresh.last_updated, "t1");
}

#[test]
fn error_messages() {
    assert_eq!(AppError::Database("locked".to_string()).message(), "Database Error: locked");
    assert_eq!(AppError::Network("timeout".to_string()).message(), "Network Error: timeout");
    assert_eq!(AppError::Io("denied".to_string()).message(), "I/O Error: denied");
    assert_eq!(AppError::Unknown("odd".to_string()).message(), "Error: odd");
}

#[test]
fn persona_prompt_lists_feedback_and_current_persona() {
    let current = UserPersona { description: "likes Rust".to_string(), last_updated: "t0".to_string() };
    let recent = vec![
        Feedback { is_helpful: true, reason: "deep dive".to_string(), created_at: "t2".to_string() },
        Feedback { is_helpful: false, reason: "finance".to_string(), created_at: "t1".to_string() },
    ];
    let prompt = persona_prompt(&recent, &current);
    assert!(prompt.starts_with("You are an expert user analyst. Update the User Persona based on the recent feedback provided.\n\nCURRENT PERSONA:\nlikes Rust\n\nRECENT FEEDBACK:\n- Helpful: true, Reason: deep dive\n- Helpful: false, Reason: finance\n\nTask:"));
    assert!(prompt.ends_with("4. Output ONLY the concise description text (2-3 sentences)."));
    let empty = UserPersona { description: String::new(), last_updated: String::new() };
    let prompt = persona_prompt(&vec![], &empty);
    assert!(prompt.contains("provided.\n\nRECENT FEEDBACK:\n\nTask:"));
}

#[test]
fn persona_reply_is_trimmed() {
    let current = UserPersona { description: "old".to_string(), last_updated: "t0".to_string() };
    let fresh = next_persona(&current, Some("  prefers Tauri\n".to_string()), "t1".to_string());
    assert_eq!(fresh.description, "prefers Tauri");
}
