use feed_ranker::todo::{Todo, TodoState};

#[test]
fn test_todo_struct() {
    let todo = Todo { id: 1, text: "Test".to_string(), completed: false };
    assert_eq!(todo.id, 1);
    assert_eq!(todo.text, "Test");
    assert!(!todo.completed);
}

#[test]
fn test_add_todo() {
    let mut state = TodoState::default();
    let todos = state.add("Buy milk".to_string());
    assert_eq!(todos.len(), 1);
    assert_eq!(todos[0].text, "Buy milk");
    assert_eq!(todos[0].completed, false);
}

#[test]
fn test_toggle_todo() {
    let mut state = TodoState::default();
    state.add("Learn Rust".to_string());

    let todos = state.toggle(1);
    assert_eq!(todos[0].completed, true);

    let todos = state.toggle(1);
    assert_eq!(todos[0].completed, false);
}

#[test]
fn test_get_todos() {
    let state = TodoState::with_demo_data();
    let todos = state.get_all();
    assert_eq!(todos.len(), 2);
}

#[test]
fn toggle_of_unknown_id_changes_nothing() {
    let mut state = TodoState::with_demo_data();
    let todos = state.toggle(7);
    assert_eq!(todos[0].completed, false);
    assert_eq!(todos[1].completed, true);
    let todos = state.add("Third".to_string());
    assert_eq!(todos[2].id, 3);
}
