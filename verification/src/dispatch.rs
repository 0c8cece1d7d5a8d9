//! The dispatcher: one key event at a time drives the whole core. While the
//! add-task modal is open it owns the keyboard; otherwise keys move the
//! cursor, toggle or delete the selected task, open the modal, or quit.
//! Every step says whether the task list changed and must be persisted.

use crate::input::backspace_spec;
use crate::input::empty_input;
use crate::input::insert_spec;
use crate::input::switch_spec;
use crate::input::ActiveTodo;
use crate::input::InputBox;
use crate::input::InputView;
use crate::select::first_spec;
use crate::select::last_spec;
use crate::select::next_spec;
use crate::select::previous_spec;
use crate::select::reconcile_spec;
use crate::select::sel_wf;
use crate::select::Selection;
use crate::task::delete_spec;
use crate::task::toggle_spec;
use crate::task::trimmed_empty;
use crate::task::TaskView;
use crate::task::TodoList;
use vstd::prelude::*;

verus! {

/// One keyboard event, as the core sees it.
#[derive(Clone, Copy)]
pub enum Key {
    Char(char),
    Left,
    Right,
    Up,
    Down,
    Home,
    End,
    Esc,
    Tab,
    Enter,
    Backspace,
    Other,
}

/// Mathematical view of the whole core: quit flag, task list, cursor, and
/// the add-task modal with its buffers.
pub ghost struct AppView {
    pub should_exit: bool,
    pub tasks: Seq<TaskView>,
    pub sel: Option<int>,
    pub modal: bool,
    pub input: InputView,
}

/// The core's invariant: the cursor is empty or a valid index.
pub open spec fn app_wf(st: AppView) -> bool {
    sel_wf(st.sel, st.tasks.len() as int)
}

/// One key while the modal is open. Escape cancels; Tab switches fields;
/// Enter commits the new task unless the title trims to empty, in which case
/// it cancels; characters and backspace edit the active buffer. Closing the
/// modal always discards the buffers. The second component says whether the
/// task list changed.
pub open spec fn step_modal(st: AppView, k: Key) -> (AppView, bool) {
    match k {
        Key::Esc => (AppView { modal: false, input: empty_input(), ..st }, false),
        Key::Tab => (AppView { input: switch_spec(st.input), ..st }, false),
        Key::Enter => if trimmed_empty(st.input.todo) {
            (AppView { modal: false, input: empty_input(), ..st }, false)
        } else {
            (
                AppView {
                    modal: false,
                    input: empty_input(),
                    tasks: st.tasks.push(
                        TaskView { todo: st.input.todo, status: false, info: st.input.desc },
                    ),
                    ..st
                },
                true,
            )
        },
        Key::Char(c) => (AppView { input: insert_spec(st.input, c), ..st }, false),
        Key::Backspace => (AppView { input: backspace_spec(st.input), ..st }, false),
        _ => (st, false),
    }
}

/// Deleting the selected task: the task leaves the list and the cursor is
/// re-validated. Nothing happens with no selection.
pub open spec fn delete_sel(st: AppView) -> (AppView, bool) {
    match st.sel {
        Some(i) => if 0 <= i < st.tasks.len() {
            (
                AppView {
                    tasks: delete_spec(st.tasks, i),
                    sel: reconcile_spec(st.sel, i, st.tasks.len() - 1),
                    ..st
                },
                true,
            )
        } else {
            (st, false)
        },
        None => (st, false),
    }
}

/// Toggling the selected task's done flag. Nothing happens with no
/// selection.
pub open spec fn toggle_sel(st: AppView) -> (AppView, bool) {
    match st.sel {
        Some(i) => if 0 <= i < st.tasks.len() {
            (AppView { tasks: toggle_spec(st.tasks, i), ..st }, true)
        } else {
            (st, false)
        },
        None => (st, false),
    }
}

/// One key in normal browsing. The edit key is wired but performs no action
/// here: editing has no modal of its own, and `TodoList::edit` is the
/// mutator a front end would call.
pub open spec fn step_normal(st: AppView, k: Key) -> (AppView, bool) {
    let len = st.tasks.len() as int;
    match k {
        Key::Char(c) => if c == 'q' {
            (AppView { should_exit: true, ..st }, false)
        } else if c == 'h' {
            (AppView { sel: None, ..st }, false)
        } else if c == 'j' {
            (AppView { sel: next_spec(st.sel, len), ..st }, false)
        } else if c == 'k' {
            (AppView { sel: previous_spec(st.sel, len), ..st }, false)
        } else if c == 'g' {
            (AppView { sel: first_spec(st.sel, len), ..st }, false)
        } else if c == 'G' {
            (AppView { sel: last_spec(st.sel, len), ..st }, false)
        } else if c == 'x' {
            delete_sel(st)
        } else if c == 'a' {
            (AppView { modal: true, input: empty_input(), ..st }, false)
        } else if c == 'l' {
            toggle_sel(st)
        } else {
            (st, false)
        },
        Key::Left => (AppView { sel: None, ..st }, false),
        Key::Down => (AppView { sel: next_spec(st.sel, len), ..st }, false),
        Key::Up => (AppView { sel: previous_spec(st.sel, len), ..st }, false),
        Key::Home => (AppView { sel: first_spec(st.sel, len), ..st }, false),
        Key::End => (AppView { sel: last_spec(st.sel, len), ..st }, false),
        _ => (st, false),
    }
}

/// One key event: routed to the modal while it is open, else handled as a
/// browsing command.
pub open spec fn step(st: AppView, k: Key) -> (AppView, bool) {
    if st.modal {
        step_modal(st, k)
    } else {
        step_normal(st, k)
    }
}

/// The whole core for one session.
pub struct App {
    pub should_exit: bool,
    pub todo_list: TodoList,
    pub state: Selection,
    pub add_new_state: bool,
    pub input_box: InputBox,
}

impl View for App {
    type V = AppView;

    open spec fn view(&self) -> AppView {
        AppView {
            should_exit: self.should_exit,
            tasks: self.todo_list@,
            sel: self.state@,
            modal: self.add_new_state,
            input: self.input_box@,
        }
    }
}

impl App {
    /// A fresh session over an already-loaded task list: nothing selected,
    /// modal closed, not exiting.
    pub fn new(list: TodoList) -> (r: Self)
        ensures
            r@ == (AppView {
                should_exit: false,
                tasks: list@,
                sel: None,
                modal: false,
                input: empty_input(),
            }),
            app_wf(r@),
    {
        Self {
            should_exit: false,
            todo_list: list,
            state: Selection::new(),
            add_new_state: false,
            input_box: InputBox::new(),
        }
    }

    /// Handles one key event. Returns whether the task list changed, in
    /// which case the caller must persist the current list before reading
    /// the next event.
    pub fn handle_key(&mut self, key: Key) -> (persist: bool)
        requires
            app_wf(old(self)@),
        ensures
            final(self)@ == step(old(self)@, key).0,
            persist == step(old(self)@, key).1,
            app_wf(final(self)@),
    {
        if self.add_new_state {
            match key {
                Key::Esc => {
                    self.input_box = InputBox::new();
                    self.add_new_state = false;
                    false
                },
                Key::Tab => {
                    self.input_box.switch_field();
                    false
                },
                Key::Enter => {
                    let t = self.input_box.todo.clone();
                    let d = self.input_box.desc.clone();
                    self.input_box = InputBox::new();
                    self.add_new_state = false;
                    let created = self.todo_list.create(t, d);
                    created
                },
                Key::Char(c) => {
                    self.input_box.insert(c);
                    false
                },
                Key::Backspace => {
                    self.input_box.backspace();
                    false
                },
                _ => false,
            }
        } else {
            match key {
                Key::Char(c) => {
                    if c == 'q' {
                        self.should_exit = true;
                        false
                    } else if c == 'h' {
                        self.state.select_none();
                        false
                    } else if c == 'j' {
                        let n = self.todo_list.len();
                        self.state.select_next(n);
                        false
                    } else if c == 'k' {
                        let n = self.todo_list.len();
                        self.state.select_previous(n);
                        false
                    } else if c == 'g' {
                        let n = self.todo_list.len();
                        self.state.select_first(n);
                        false
                    } else if c == 'G' {
                        let n = self.todo_list.len();
                        self.state.select_last(n);
                        false
                    } else if c == 'x' {
                        self.handle_delete()
                    } else if c == 'a' {
                        self.input_box = InputBox::new();
                        self.add_new_state = true;
                        false
                    } else if c == 'l' {
                        self.toggle_status()
                    } else {
                        false
                    }
                },
                Key::Left => {
                    self.state.select_none();
                    false
                },
                Key::Down => {
                    let n = self.todo_list.len();
                    self.state.select_next(n);
                    false
                },
                Key::Up => {
                    let n = self.todo_list.len();
                    self.state.select_previous(n);
                    false
                },
                Key::Home => {
                    let n = self.todo_list.len();
                    self.state.select_first(n);
                    false
                },
                Key::End => {
                    let n = self.todo_list.len();
                    self.state.select_last(n);
                    false
                },
                _ => false,
            }
        }
    }

    /// Read-only snapshot of the task list, for the presentation layer.
    pub fn tasks(&self) -> (r: &TodoList)
        ensures
            r@ == self@.tasks,
    {
        &self.todo_list
    }

    /// The current cursor, for the presentation layer.
    pub fn selected(&self) -> (r: Option<usize>)
        ensures
            r matches Some(i) ==> self@.sel == Some(i as int),
            r is None ==> self@.sel is None,
    {
        self.state.selected()
    }

    /// Whether the add-task modal is open.
    pub fn modal_active(&self) -> (r: bool)
        ensures
            r == self@.modal,
    {
        self.add_new_state
    }

    /// Whether a quit command has been handled.
    pub fn exiting(&self) -> (r: bool)
        ensures
            r == self@.should_exit,
    {
        self.should_exit
    }

    /// The title buffer of the modal, for the presentation layer.
    pub fn input_title(&self) -> (r: &String)
        ensures
            r@ == self@.input.todo,
    {
        &self.input_box.todo
    }

    /// The description buffer of the modal, for the presentation layer.
    pub fn input_desc(&self) -> (r: &String)
        ensures
            r@ == self@.input.desc,
    {
        &self.input_box.desc
    }

    /// The modal field that has focus.
    pub fn active_field(&self) -> (r: ActiveTodo)
        ensures
            r == self@.input.active,
    {
        self.input_box.active
    }

    /// Deletes the selected task and re-validates the cursor. Returns
    /// whether the list changed.
    fn handle_delete(&mut self) -> (persist: bool)
        requires
            app_wf(old(self)@),
            !old(self).add_new_state,
        ensures
            final(self)@ == delete_sel(old(self)@).0,
            persist == delete_sel(old(self)@).1,
            app_wf(final(self)@),
    {
        match self.state.selected() {
            Some(i) => {
                let n = self.todo_list.len();
                self.todo_list.delete(i);
                self.state.reconcile_after_delete(i, n - 1);
                true
            },
            None => false,
        }
    }

    /// Flips the done flag of the selected task. Returns whether the list
    /// changed.
    fn toggle_status(&mut self) -> (persist: bool)
        requires
            app_wf(old(self)@),
            !old(self).add_new_state,
        ensures
            final(self)@ == toggle_sel(old(self)@).0,
            persist == toggle_sel(old(self)@).1,
            app_wf(final(self)@),
    {
        match self.state.selected() {
            Some(i) => {
                self.todo_list.toggle(i);
                true
            },
            None => false,
        }
    }
}

} // verus!
