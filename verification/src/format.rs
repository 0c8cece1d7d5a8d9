//! Model of the on-disk text format: an ordered list of records, each opened
//! by a `[[items]]` header line and carrying a `todo`, `status` and `info`
//! field line. Field order within a record is not significant, blank lines
//! and extra spaces are tolerated, and string values are quoted with
//! backslash escapes. This module defines formatting and parsing over
//! `Seq<char>`; the executable counterparts live in `persist`.

use crate::task::TaskView;
use vstd::prelude::*;

verus! {

// ---------------------------------------------------------------------------
// Escaping of string values
// ---------------------------------------------------------------------------
/// The characters that are written with a backslash escape.
pub open spec fn needs_escape(c: char) -> bool {
    c == '\\' || c == '"' || c == '\n' || c == '\r' || c == '\t'
}

/// The escape code that stands for `c` after a backslash.
pub open spec fn escape_code(c: char) -> char {
    if c == '\\' {
        '\\'
    } else if c == '"' {
        '"'
    } else if c == '\n' {
        'n'
    } else if c == '\r' {
        'r'
    } else {
        't'
    }
}

/// The character that an escape code `c` stands for, if any.
pub open spec fn unescape_code(c: char) -> Option<char> {
    if c == '\\' {
        Some('\\')
    } else if c == '"' {
        Some('"')
    } else if c == 'n' {
        Some('\n')
    } else if c == 'r' {
        Some('\r')
    } else if c == 't' {
        Some('\t')
    } else {
        None
    }
}

/// How one character is written inside a quoted value.
pub open spec fn escape_char(c: char) -> Seq<char> {
    if needs_escape(c) {
        seq!['\\', escape_code(c)]
    } else {
        seq![c]
    }
}

/// How a whole string value is written inside its quotes.
pub open spec fn escape(s: Seq<char>) -> Seq<char>
    decreases s.len(),
{
    if s.len() == 0 {
        Seq::empty()
    } else {
        escape_char(s[0]) + escape(s.drop_first())
    }
}

// ---------------------------------------------------------------------------
// Line splitting
// ---------------------------------------------------------------------------
/// Splits `s` into lines at `'\n'`, with `cur` the part of the current line
/// already seen. A final line without a terminating newline counts only if it
/// is non-empty, so a trailing newline adds no empty line.
pub open spec fn lines_acc(s: Seq<char>, cur: Seq<char>) -> Seq<Seq<char>>
    decreases s.len(),
{
    if s.len() == 0 {
        if cur.len() == 0 {
            Seq::empty()
        } else {
            seq![cur]
        }
    } else if s[0] == '\n' {
        seq![cur] + lines_acc(s.drop_first(), Seq::empty())
    } else {
        lines_acc(s.drop_first(), cur.push(s[0]))
    }
}

/// The lines of `s`.
pub open spec fn lines_of(s: Seq<char>) -> Seq<Seq<char>> {
    lines_acc(s, Seq::empty())
}

// ---------------------------------------------------------------------------
// Single-line parsing
// ---------------------------------------------------------------------------
/// Whitespace that may pad a line without changing its meaning.
pub open spec fn is_blank(c: char) -> bool {
    c == ' ' || c == '\t' || c == '\r'
}

/// `l` without its leading blanks.
pub open spec fn skip_b(l: Seq<char>) -> Seq<char>
    decreases l.len(),
{
    if l.len() > 0 && is_blank(l[0]) {
        skip_b(l.drop_first())
    } else {
        l
    }
}

/// `l` without the prefix `p`, or `None` when `l` does not start with `p`.
pub open spec fn strip_prefix(l: Seq<char>, p: Seq<char>) -> Option<Seq<char>> {
    if p.len() <= l.len() && l.subrange(0, p.len() as int) == p {
        Some(l.skip(p.len() as int))
    } else {
        None
    }
}

/// The header that opens a record.
pub open spec fn header_chars() -> Seq<char> {
    seq!['[', '[', 'i', 't', 'e', 'm', 's', ']', ']']
}

pub open spec fn kw_todo() -> Seq<char> {
    seq!['t', 'o', 'd', 'o']
}

pub open spec fn kw_status() -> Seq<char> {
    seq!['s', 't', 'a', 't', 'u', 's']
}

pub open spec fn kw_info() -> Seq<char> {
    seq!['i', 'n', 'f', 'o']
}

pub open spec fn kw_true() -> Seq<char> {
    seq!['t', 'r', 'u', 'e']
}

pub open spec fn kw_false() -> Seq<char> {
    seq!['f', 'a', 'l', 's', 'e']
}

/// Reads the inside of a quoted value: `l` starts right after the opening
/// quote. Returns the decoded value and what follows the closing quote, or
/// `None` when the quote never closes or an escape code is unknown.
pub open spec fn parse_qcontent(l: Seq<char>) -> Option<(Seq<char>, Seq<char>)>
    decreases l.len(),
{
    if l.len() == 0 {
        None
    } else if l[0] == '"' {
        Some((Seq::empty(), l.drop_first()))
    } else if l[0] == '\\' {
        if l.len() >= 2 {
            match unescape_code(l[1]) {
                Some(c) => match parse_qcontent(l.skip(2)) {
                    Some(p) => Some((seq![c] + p.0, p.1)),
                    None => None,
                },
                None => None,
            }
        } else {
            None
        }
    } else {
        match parse_qcontent(l.drop_first()) {
            Some(p) => Some((seq![l[0]] + p.0, p.1)),
            None => None,
        }
    }
}

/// After a field keyword: expects `=`, then a quoted string value, then
/// nothing but blanks.
pub open spec fn parse_eq_str(r: Seq<char>) -> Option<Seq<char>> {
    let r1 = skip_b(r);
    match strip_prefix(r1, seq!['=']) {
        Some(r2) => {
            let r3 = skip_b(r2);
            match strip_prefix(r3, seq!['"']) {
                Some(r4) => match parse_qcontent(r4) {
                    Some(p) => if skip_b(p.1).len() == 0 {
                        Some(p.0)
                    } else {
                        None
                    },
                    None => None,
                },
                None => None,
            }
        },
        None => None,
    }
}

/// After the `status` keyword: expects `=`, then `true` or `false`, then
/// nothing but blanks.
pub open spec fn parse_eq_bool(r: Seq<char>) -> Option<bool> {
    let r1 = skip_b(r);
    match strip_prefix(r1, seq!['=']) {
        Some(r2) => {
            let r3 = skip_b(r2);
            match strip_prefix(r3, kw_true()) {
                Some(r4) => if skip_b(r4).len() == 0 {
                    Some(true)
                } else {
                    None
                },
                None => match strip_prefix(r3, kw_false()) {
                    Some(r4) => if skip_b(r4).len() == 0 {
                        Some(false)
                    } else {
                        None
                    },
                    None => None,
                },
            }
        },
        None => None,
    }
}

/// What one line of the file means.
pub ghost enum LineKind {
    Blank,
    Header,
    FieldTodo(Seq<char>),
    FieldStatus(bool),
    FieldInfo(Seq<char>),
    Bad,
}

/// Classifies one line. Leading and trailing blanks are ignored.
pub open spec fn parse_line(l: Seq<char>) -> LineKind {
    let l1 = skip_b(l);
    if l1.len() == 0 {
        LineKind::Blank
    } else {
        match strip_prefix(l1, header_chars()) {
            Some(r) => if skip_b(r).len() == 0 {
                LineKind::Header
            } else {
                LineKind::Bad
            },
            None => match strip_prefix(l1, kw_status()) {
                Some(r) => match parse_eq_bool(r) {
                    Some(b) => LineKind::FieldStatus(b),
                    None => LineKind::Bad,
                },
                None => match strip_prefix(l1, kw_todo()) {
                    Some(r) => match parse_eq_str(r) {
                        Some(v) => LineKind::FieldTodo(v),
                        None => LineKind::Bad,
                    },
                    None => match strip_prefix(l1, kw_info()) {
                        Some(r) => match parse_eq_str(r) {
                            Some(v) => LineKind::FieldInfo(v),
                            None => LineKind::Bad,
                        },
                        None => LineKind::Bad,
                    },
                },
            },
        }
    }
}

// ---------------------------------------------------------------------------
// Record assembly
// ---------------------------------------------------------------------------
/// The fields of the record currently being read.
pub ghost struct RecAcc {
    pub todo: Option<Seq<char>>,
    pub status: Option<bool>,
    pub info: Option<Seq<char>>,
}

pub open spec fn empty_acc() -> RecAcc {
    RecAcc { todo: None, status: None, info: None }
}

/// True when every field of the record has been seen.
pub open spec fn acc_complete(a: RecAcc) -> bool {
    a.todo is Some && a.status is Some && a.info is Some
}

/// The task that a complete record denotes.
pub open spec fn acc_task(a: RecAcc) -> TaskView {
    TaskView { todo: a.todo->0, status: a.status->0, info: a.info->0 }
}

/// Parser state: the records finished so far and the record being read, if
/// any. `ok` turns false on the first malformed line and stays false.
pub ghost struct PState {
    pub ok: bool,
    pub done: Seq<TaskView>,
    pub cur: Option<RecAcc>,
}

pub open spec fn init_state() -> PState {
    PState { ok: true, done: Seq::empty(), cur: None }
}

pub open spec fn fail_state(st: PState) -> PState {
    PState { ok: false, done: st.done, cur: st.cur }
}

/// One line advances the parser state. A header closes the open record (which
/// must be complete) and opens a fresh one; a field line fills a field of the
/// open record, and may not repeat or precede any header.
pub open spec fn step_line(st: PState, l: Seq<char>) -> PState {
    if !st.ok {
        st
    } else {
        match parse_line(l) {
            LineKind::Blank => st,
            LineKind::Header => match st.cur {
                None => PState { ok: true, done: st.done, cur: Some(empty_acc()) },
                Some(a) => if acc_complete(a) {
                    PState { ok: true, done: st.done.push(acc_task(a)), cur: Some(empty_acc()) }
                } else {
                    fail_state(st)
                },
            },
            LineKind::FieldTodo(v) => match st.cur {
                Some(a) => if a.todo is None {
                    PState {
                        ok: true,
                        done: st.done,
                        cur: Some(RecAcc { todo: Some(v), status: a.status, info: a.info }),
                    }
                } else {
                    fail_state(st)
                },
                None => fail_state(st),
            },
            LineKind::FieldStatus(b) => match st.cur {
                Some(a) => if a.status is None {
                    PState {
                        ok: true,
                        done: st.done,
                        cur: Some(RecAcc { todo: a.todo, status: Some(b), info: a.info }),
                    }
                } else {
                    fail_state(st)
                },
                None => fail_state(st),
            },
            LineKind::FieldInfo(v) => match st.cur {
                Some(a) => if a.info is None {
                    PState {
                        ok: true,
                        done: st.done,
                        cur: Some(RecAcc { todo: a.todo, status: a.status, info: Some(v) }),
                    }
                } else {
                    fail_state(st)
                },
                None => fail_state(st),
            },
            LineKind::Bad => fail_state(st),
        }
    }
}

/// Runs the parser over a sequence of lines.
pub open spec fn run_lines(st: PState, lines: Seq<Seq<char>>) -> PState
    decreases lines.len(),
{
    if lines.len() == 0 {
        st
    } else {
        run_lines(step_line(st, lines[0]), lines.drop_first())
    }
}

/// Closes the final record, if one is open, and yields the parsed list.
pub open spec fn finish(st: PState) -> Option<Seq<TaskView>> {
    if !st.ok {
        None
    } else {
        match st.cur {
            None => Some(st.done),
            Some(a) => if acc_complete(a) {
                Some(st.done.push(acc_task(a)))
            } else {
                None
            },
        }
    }
}

/// The meaning of a whole file: the task list it denotes, or `None` when it
/// is malformed.
pub open spec fn parse_tasks(s: Seq<char>) -> Option<Seq<TaskView>> {
    finish(run_lines(init_state(), lines_of(s)))
}

// ---------------------------------------------------------------------------
// Formatting
// ---------------------------------------------------------------------------
pub open spec fn nl() -> Seq<char> {
    seq!['\n']
}

/// `todo = "` ... `"`, without the value.
pub open spec fn todo_open() -> Seq<char> {
    seq!['t', 'o', 'd', 'o', ' ', '=', ' ', '"']
}

pub open spec fn status_open() -> Seq<char> {
    seq!['s', 't', 'a', 't', 'u', 's', ' ', '=', ' ']
}

pub open spec fn info_open() -> Seq<char> {
    seq!['i', 'n', 'f', 'o', ' ', '=', ' ', '"']
}

pub open spec fn quote() -> Seq<char> {
    seq!['"']
}

pub open spec fn todo_line(v: Seq<char>) -> Seq<char> {
    todo_open() + escape(v) + quote()
}

pub open spec fn status_line(b: bool) -> Seq<char> {
    status_open() + (if b {
        kw_true()
    } else {
        kw_false()
    })
}

pub open spec fn info_line(v: Seq<char>) -> Seq<char> {
    info_open() + escape(v) + quote()
}

/// One record as written: four lines, each ended by a newline.
pub open spec fn fmt_task(t: TaskView) -> Seq<char> {
    header_chars() + nl() + todo_line(t.todo) + nl() + status_line(t.status) + nl() + info_line(
        t.info,
    ) + nl()
}

/// The whole file as written: the records in list order.
pub open spec fn fmt_list(ts: Seq<TaskView>) -> Seq<char>
    decreases ts.len(),
{
    if ts.len() == 0 {
        Seq::empty()
    } else {
        fmt_task(ts[0]) + fmt_list(ts.drop_first())
    }
}

} // verus!
