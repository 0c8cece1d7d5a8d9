//! The task data model: one task record, and the ordered task list with its
//! mutators (create, toggle, delete, edit).

use vstd::prelude::*;

verus! {

/// Mathematical view of one task: title text, done flag, description text.
pub ghost struct TaskView {
    pub todo: Seq<char>,
    pub status: bool,
    pub info: Seq<char>,
}

/// One to-do record. Identity is positional: a task is referenced only by its
/// index in the owning list.
pub struct TodoItem {
    pub todo: String,
    pub status: bool,
    pub info: String,
}

impl View for TodoItem {
    type V = TaskView;

    open spec fn view(&self) -> TaskView {
        TaskView { todo: self.todo@, status: self.status, info: self.info@ }
    }
}

impl TodoItem {
    pub fn new(status: bool, todo: String, info: String) -> (r: Self)
        ensures
            r@ == (TaskView { todo: todo@, status: status, info: info@ }),
    {
        Self { todo, status, info }
    }
}

/// True when `c` is horizontal or vertical whitespace; the only characters
/// that title validation ignores.
pub open spec fn is_space(c: char) -> bool {
    c == ' ' || c == '\t' || c == '\n' || c == '\r'
}

/// True when `s` trims to the empty string, i.e. holds no visible character.
pub open spec fn trimmed_empty(s: Seq<char>) -> bool {
    forall|i: int| 0 <= i < s.len() ==> is_space(s[i])
}

/// The list after flipping the done flag at `i`; unchanged when `i` is out of
/// range.
pub open spec fn toggle_spec(s: Seq<TaskView>, i: int) -> Seq<TaskView> {
    if 0 <= i < s.len() {
        s.update(i, TaskView { status: !s[i].status, ..s[i] })
    } else {
        s
    }
}

/// The list after removing the task at `i` (later tasks shift left by one);
/// unchanged when `i` is out of range.
pub open spec fn delete_spec(s: Seq<TaskView>, i: int) -> Seq<TaskView> {
    if 0 <= i < s.len() {
        s.remove(i)
    } else {
        s
    }
}

/// The list after replacing title and description at `i`, keeping the done
/// flag and the position; unchanged when `i` is out of range.
pub open spec fn edit_spec(s: Seq<TaskView>, i: int, todo: Seq<char>, info: Seq<char>) -> Seq<
    TaskView,
> {
    if 0 <= i < s.len() {
        s.update(i, TaskView { todo: todo, status: s[i].status, info: info })
    } else {
        s
    }
}

/// Checks that every character of `s` is whitespace, i.e. that `s` trims to
/// the empty string.
fn str_trimmed_empty(s: &str) -> (b: bool)
    ensures
        b == trimmed_empty(s@),
{
    let n = s.unicode_len();
    let mut i: usize = 0;
    while i < n
        invariant
            n == s@.len(),
            0 <= i <= n,
            forall|k: int| 0 <= k < i ==> is_space(s@[k]),
        decreases n - i,
    {
        let c = s.get_char(i);
        if !(c == ' ' || c == '\t' || c == '\n' || c == '\r') {
            return false;
        }
        i = i + 1;
    }
    true
}

/// The task views of a sequence of task records.
pub open spec fn tasks_view(items: Seq<TodoItem>) -> Seq<TaskView> {
    items.map(|i: int, t: TodoItem| t@)
}

/// The ordered collection of all tasks, persisted as a whole. Insertion order
/// is meaningful and preserved.
pub struct TodoList {
    pub items: Vec<TodoItem>,
}

impl View for TodoList {
    type V = Seq<TaskView>;

    open spec fn view(&self) -> Seq<TaskView> {
        tasks_view(self.items@)
    }
}

impl TodoList {
    pub fn new() -> (r: Self)
        ensures
            r@ == Seq::<TaskView>::empty(),
    {
        let r = Self { items: Vec::new() };
        proof {
            assert(r@ =~= Seq::<TaskView>::empty());
        }
        r
    }

    pub fn len(&self) -> (n: usize)
        ensures
            n == self@.len(),
    {
        self.items.len()
    }

    /// Read-only snapshot of the task at `i`, for the presentation layer.
    pub fn get(&self, i: usize) -> (t: &TodoItem)
        requires
            i < self@.len(),
        ensures
            t@ == self@[i as int],
    {
        &self.items[i]
    }

    /// Appends a new not-done task, unless the title trims to the empty
    /// string, in which case the list is left unchanged. Returns whether a
    /// task was appended.
    pub fn create(&mut self, title: String, desc: String) -> (created: bool)
        ensures
            created == !trimmed_empty(title@),
            created ==> final(self)@ == old(self)@.push(
                TaskView { todo: title@, status: false, info: desc@ },
            ),
            !created ==> final(self)@ == old(self)@,
    {
        if str_trimmed_empty(title.as_str()) {
            return false;
        }
        let ghost pre = self@;
        let item = TodoItem { todo: title, status: false, info: desc };
        let ghost iv = item@;
        self.items.push(item);
        proof {
            assert(self@ =~= pre.push(iv));
        }
        true
    }

    /// Flips the done flag of the task at `i`; no-op when `i` is out of range.
    pub fn toggle(&mut self, i: usize)
        ensures
            final(self)@ == toggle_spec(old(self)@, i as int),
    {
        let ghost pre = self@;
        if i < self.items.len() {
            let cur = self.items[i].status;
            self.items[i].status = !cur;
            proof {
                assert(self@ =~= toggle_spec(pre, i as int));
            }
        }
    }

    /// Removes the task at `i`, shifting subsequent tasks left by one
    /// position; no-op when `i` is out of range.
    pub fn delete(&mut self, i: usize)
        ensures
            final(self)@ == delete_spec(old(self)@, i as int),
    {
        let ghost pre = self@;
        if i < self.items.len() {
            self.items.remove(i);
            proof {
                assert(self@ =~= delete_spec(pre, i as int));
            }
        }
    }

    /// Replaces title and description of the task at `i` in place, preserving
    /// the done flag and the position; no-op when `i` is out of range.
    pub fn edit(&mut self, i: usize, title: String, desc: String)
        ensures
            final(self)@ == edit_spec(old(self)@, i as int, title@, desc@),
    {
        let ghost pre = self@;
        if i < self.items.len() {
            let keep = self.items[i].status;
            self.items[i] = TodoItem { todo: title, status: keep, info: desc };
            proof {
                assert(self@ =~= edit_spec(pre, i as int, title@, desc@));
            }
        }
    }
}

impl TodoList {
    /// Builds a list from (title, done, description) triples, in order.
    pub fn from_tuples(v: Vec<(String, bool, String)>) -> (r: Self)
        ensures
            r@.len() == v@.len(),
            forall|i: int|
                0 <= i < v@.len() ==> r@[i] == (TaskView {
                    todo: v@[i].0@,
                    status: v@[i].1,
                    info: v@[i].2@,
                }),
    {
        let mut items: Vec<TodoItem> = Vec::new();
        let mut i: usize = 0;
        while i < v.len()
            invariant
                0 <= i <= v@.len(),
                tasks_view(items@).len() == i,
                forall|k: int|
                    0 <= k < i ==> tasks_view(items@)[k] == (TaskView {
                        todo: v@[k].0@,
                        status: v@[k].1,
                        info: v@[k].2@,
                    }),
            decreases v@.len() - i,
        {
            let ghost pre = items@;
            let t = v[i].0.clone();
            let b = v[i].1;
            let d = v[i].2.clone();
            let item = TodoItem::new(b, t, d);
            items.push(item);
            proof {
                assert(tasks_view(items@) =~= tasks_view(pre).push(item@));
            }
            i = i + 1;
        }
        TodoList { items }
    }
}

/// Toggling the same index twice restores the original list, done flags
/// included.
pub proof fn lemma_toggle_involution(s: Seq<TaskView>, i: int)
    ensures
        toggle_spec(toggle_spec(s, i), i) == s,
{
    if 0 <= i < s.len() {
        assert(toggle_spec(toggle_spec(s, i), i) =~= s);
    }
}

} // verus!
