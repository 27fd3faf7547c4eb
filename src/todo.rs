use vstd::prelude::*;

verus! {

/// One entry of the to-do list.
#[derive(Clone, Debug)]
pub struct TodoItem {
    pub id: u32,
    pub text: String,
    pub completed: bool,
}

/// A stored to-do record.
#[derive(Clone, Debug)]
pub struct Todo {
    pub id: u32,
    pub text: String,
    pub completed: bool,
}

pub struct TodoItemView {
    pub id: u32,
    pub text: Seq<char>,
    pub completed: bool,
}

impl View for TodoItem {
    type V = TodoItemView;

    open spec fn view(&self) -> TodoItemView {
        TodoItemView { id: self.id, text: self.text@, completed: self.completed }
    }
}

pub open spec fn todo_views(s: Seq<TodoItem>) -> Seq<TodoItemView> {
    s.map_values(|t: TodoItem| t@)
}

/// The list with the first entry whose id is `id` toggled.
pub open spec fn toggled(s: Seq<TodoItemView>, id: u32) -> Seq<TodoItemView>
    decreases s.len(),
{
    if s.len() == 0 {
        s
    } else if s[0].id == id {
        s.update(0, TodoItemView { completed: !s[0].completed, ..s[0] })
    } else {
        seq![s[0]] + toggled(s.drop_first(), id)
    }
}

/// The in-memory to-do list.
pub struct TodoState {
    pub todos: Vec<TodoItem>,
}

impl Default for TodoState {
    fn default() -> (r: TodoState)
        ensures
            r.todos@.len() == 0,
    {
        TodoState { todos: Vec::new() }
    }
}

fn copy_items(s: &Vec<TodoItem>) -> (r: Vec<TodoItem>)
    ensures
        todo_views(r@) == todo_views(s@),
{
    let mut r: Vec<TodoItem> = Vec::new();
    let mut i: usize = 0;
    while i < s.len()
        invariant
            i <= s@.len(),
            r@.len() == i,
            forall|k: int| 0 <= k < i ==> (#[trigger] r@[k])@ == s@[k]@,
        decreases s@.len() - i,
    {
        let t = &s[i];
        r.push(TodoItem { id: t.id, text: t.text.clone(), completed: t.completed });
        i += 1;
    }
    proof {
        assert(todo_views(r@) =~= todo_views(s@));
    }
    r
}

impl TodoState {
    /// A list holding two sample entries.
    pub fn with_demo_data() -> (r: TodoState)
        ensures
            r.todos@.len() == 2,
            r.todos@[0]@ == (TodoItemView { id: 1, text: "Install Android Studio"@, completed: false }),
            r.todos@[1]@ == (TodoItemView { id: 2, text: "Learn Rust"@, completed: true }),
    {
        let first = TodoItem { id: 1, text: "Install Android Studio".to_owned(), completed: false };
        let second = TodoItem { id: 2, text: "Learn Rust".to_owned(), completed: true };
        TodoState { todos: vec![first, second] }
    }

    /// Appends an open entry numbered one past the current length and
    /// returns the whole list.
    pub fn add(&mut self, text: String) -> (r: Vec<TodoItem>)
        requires
            old(self).todos@.len() < u32::MAX,
        ensures
            todo_views(final(self).todos@) == todo_views(old(self).todos@).push(
                TodoItemView { id: (old(self).todos@.len() + 1) as u32, text: text@, completed: false },
            ),
            todo_views(r@) == todo_views(final(self).todos@),
    {
        let id = self.todos.len() as u32 + 1;
        let ghost before = self.todos@;
        self.todos.push(TodoItem { id, text, completed: false });
        proof {
            assert(todo_views(self.todos@) =~= todo_views(before).push(self.todos@.last()@));
        }
        copy_items(&self.todos)
    }

    /// Flips the first entry numbered `id`, if any, and returns the whole list.
    pub fn toggle(&mut self, id: u32) -> (r: Vec<TodoItem>)
        ensures
            todo_views(final(self).todos@) == toggled(todo_views(old(self).todos@), id),
            todo_views(r@) == todo_views(final(self).todos@),
    {
        let ghost before = todo_views(self.todos@);
        let mut i: usize = 0;
        proof {
            assert(before.subrange(0, before.len() as int) =~= before);
            assert(before.subrange(0, 0) + before =~= before);
        }
        while i < self.todos.len()
            invariant
                i <= self.todos@.len(),
                before == todo_views(self.todos@),
                self.todos@ == old(self).todos@,
                forall|k: int| 0 <= k < i ==> self.todos@[k].id != id,
                toggled(before, id) == before.subrange(0, i as int) + toggled(
                    before.subrange(i as int, before.len() as int),
                    id,
                ),
            decreases self.todos@.len() - i,
        {
            if self.todos[i].id == id {
                let flipped = !self.todos[i].completed;
                let ghost prior = self.todos@;
                self.todos[i].completed = flipped;
                proof {
                    let rest = before.subrange(i as int, before.len() as int);
                    assert(rest[0] == before[i as int]);
                    assert(toggled(rest, id) == rest.update(
                        0,
                        TodoItemView { completed: !rest[0].completed, ..rest[0] },
                    ));
                    assert(todo_views(self.todos@) =~= before.subrange(0, i as int) + toggled(rest, id));
                }
                return copy_items(&self.todos);
            }
            proof {
                let rest = before.subrange(i as int, before.len() as int);
                assert(rest.drop_first() =~= before.subrange(i + 1, before.len() as int));
                assert(before.subrange(0, i as int) + seq![rest[0]] =~= before.subrange(0, i + 1));
                assert(before.subrange(0, i + 1) + toggled(rest.drop_first(), id) =~= before.subrange(0, i as int) + (seq![rest[0]] + toggled(rest.drop_first(), id)));
            }
            i += 1;
        }
        proof {
            assert(before.subrange(0, i as int) =~= before);
            assert(before.subrange(i as int, before.len() as int) =~= Seq::<TodoItemView>::empty());
        }
        copy_items(&self.todos)
    }

    /// The whole list.
    pub fn get_all(&self) -> (r: Vec<TodoItem>)
        ensures
            todo_views(r@) == todo_views(self.todos@),
    {
        copy_items(&self.todos)
    }
}

} // verus!
