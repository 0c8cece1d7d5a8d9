//! The add-task modal's text entry: two buffered fields, one of which is
//! active, filled character by character.

use vstd::prelude::*;

verus! {

/// Which field of the add-task modal is being edited.
#[derive(Clone, Copy, PartialEq, Eq, Structural)]
pub enum ActiveTodo {
    Todo,
    Desc,
}

/// The add-task modal's buffers: the title being typed, the description
/// being typed, and the field that has focus.
pub struct InputBox {
    pub todo: String,
    pub desc: String,
    pub active: ActiveTodo,
}

/// Mathematical view of the modal buffers.
pub ghost struct InputView {
    pub todo: Seq<char>,
    pub desc: Seq<char>,
    pub active: ActiveTodo,
}

impl View for InputBox {
    type V = InputView;

    open spec fn view(&self) -> InputView {
        InputView { todo: self.todo@, desc: self.desc@, active: self.active }
    }
}

/// The buffers after one character is typed: it lands at the end of the
/// active field.
pub open spec fn insert_spec(b: InputView, c: char) -> InputView {
    match b.active {
        ActiveTodo::Todo => InputView { todo: b.todo.push(c), ..b },
        ActiveTodo::Desc => InputView { desc: b.desc.push(c), ..b },
    }
}

/// The buffers after a backspace: the active field loses its last character,
/// or stays empty.
pub open spec fn backspace_spec(b: InputView) -> InputView {
    match b.active {
        ActiveTodo::Todo => if b.todo.len() > 0 {
            InputView { todo: b.todo.drop_last(), ..b }
        } else {
            b
        },
        ActiveTodo::Desc => if b.desc.len() > 0 {
            InputView { desc: b.desc.drop_last(), ..b }
        } else {
            b
        },
    }
}

/// The buffers after Tab: focus moves to the other field.
pub open spec fn switch_spec(b: InputView) -> InputView {
    match b.active {
        ActiveTodo::Todo => InputView { active: ActiveTodo::Desc, ..b },
        ActiveTodo::Desc => InputView { active: ActiveTodo::Todo, ..b },
    }
}

/// Fresh modal buffers: both fields empty, focus on the title.
pub open spec fn empty_input() -> InputView {
    InputView { todo: Seq::empty(), desc: Seq::empty(), active: ActiveTodo::Todo }
}

impl InputBox {
    /// Fresh buffers: both fields empty, focus on the title.
    pub fn new() -> (r: Self)
        ensures
            r@ == empty_input(),
    {
        Self { todo: String::new(), desc: String::new(), active: ActiveTodo::Todo }
    }

    /// Types one character into the active field.
    pub fn insert(&mut self, c: char)
        ensures
            final(self)@ == insert_spec(old(self)@, c),
    {
        match self.active {
            ActiveTodo::Todo => self.todo.push(c),
            ActiveTodo::Desc => self.desc.push(c),
        }
    }

    /// Removes the last character of the active field; no-op when that field
    /// is empty.
    pub fn backspace(&mut self)
        ensures
            final(self)@ == backspace_spec(old(self)@),
    {
        match self.active {
            ActiveTodo::Todo => {
                self.todo.pop();
            },
            ActiveTodo::Desc => {
                self.desc.pop();
            },
        }
    }

    /// Moves focus to the other field.
    pub fn switch_field(&mut self)
        ensures
            final(self)@ == switch_spec(old(self)@),
    {
        self.active = match self.active {
            ActiveTodo::Todo => ActiveTodo::Desc,
            ActiveTodo::Desc => ActiveTodo::Todo,
        };
    }
}

} // verus!
