//! Proof that the persistence format round-trips: parsing what `fmt_list`
//! writes yields exactly the task list that was written, for any list.

use crate::format::acc_task;
use crate::format::empty_acc;
use crate::format::escape;
use crate::format::escape_char;
use crate::format::escape_code;
use crate::format::finish;
use crate::format::fmt_list;
use crate::format::fmt_task;
use crate::format::header_chars;
use crate::format::info_line;
use crate::format::info_open;
use crate::format::init_state;
use crate::format::is_blank;
use crate::format::kw_false;
use crate::format::kw_info;
use crate::format::kw_status;
use crate::format::kw_todo;
use crate::format::kw_true;
use crate::format::lines_acc;
use crate::format::lines_of;
use crate::format::needs_escape;
use crate::format::nl;
use crate::format::parse_eq_bool;
use crate::format::parse_eq_str;
use crate::format::parse_line;
use crate::format::parse_qcontent;
use crate::format::parse_tasks;
use crate::format::quote;
use crate::format::run_lines;
use crate::format::skip_b;
use crate::format::status_line;
use crate::format::status_open;
use crate::format::step_line;
use crate::format::strip_prefix;
use crate::format::todo_line;
use crate::format::todo_open;
use crate::format::LineKind;
use crate::format::PState;
use crate::format::RecAcc;
use crate::task::TaskView;
use vstd::prelude::*;

verus! {

/// True when `l` holds no newline, i.e. is a single line of output.
pub open spec fn no_nl(l: Seq<char>) -> bool {
    forall|i: int| 0 <= i < l.len() ==> l[i] != '\n'
}

/// Escaped values never hold a raw newline.
proof fn lemma_escape_no_nl(s: Seq<char>)
    ensures
        no_nl(escape(s)),
    decreases s.len(),
{
    if s.len() == 0 {
    } else {
        lemma_escape_no_nl(s.drop_first());
        let e = escape(s);
        let h = escape_char(s[0]);
        assert forall|i: int| 0 <= i < e.len() implies e[i] != '\n' by {
            if i < h.len() {
                assert(e[i] == h[i]);
            } else {
                assert(e[i] == escape(s.drop_first())[i - h.len()]);
            }
        }
    }
}

proof fn lemma_no_nl_concat(a: Seq<char>, b: Seq<char>)
    requires
        no_nl(a),
        no_nl(b),
    ensures
        no_nl(a + b),
{
    assert forall|i: int| 0 <= i < (a + b).len() implies (a + b)[i] != '\n' by {
        if i < a.len() {
            assert((a + b)[i] == a[i]);
        } else {
            assert((a + b)[i] == b[i - a.len()]);
        }
    }
}

/// Splitting one newline-free line off the front of the text.
proof fn lemma_lines_acc_line(l: Seq<char>, rest: Seq<char>, cur: Seq<char>)
    requires
        no_nl(l),
    ensures
        lines_acc(l + nl() + rest, cur) == seq![cur + l] + lines_of(rest),
    decreases l.len(),
{
    let s = l + nl() + rest;
    if l.len() == 0 {
        assert(s[0] == '\n');
        assert(s.drop_first() =~= rest);
        assert(cur + l =~= cur);
    } else {
        assert(s[0] == l[0]);
        assert(s.drop_first() =~= l.drop_first() + nl() + rest);
        assert(no_nl(l.drop_first())) by {
            assert forall|i: int| 0 <= i < l.drop_first().len() implies l.drop_first()[i] != '\n' by {
                assert(l.drop_first()[i] == l[i + 1]);
            }
        }
        lemma_lines_acc_line(l.drop_first(), rest, cur.push(l[0]));
        assert(cur.push(l[0]) + l.drop_first() =~= cur + l);
    }
}

/// The four lines of one formatted record.
pub open spec fn task_lines(t: TaskView) -> Seq<Seq<char>> {
    seq![header_chars(), todo_line(t.todo), status_line(t.status), info_line(t.info)]
}

proof fn lemma_no_nl_task_lines(t: TaskView)
    ensures
        no_nl(header_chars()),
        no_nl(todo_line(t.todo)),
        no_nl(status_line(t.status)),
        no_nl(info_line(t.info)),
{
    lemma_escape_no_nl(t.todo);
    lemma_escape_no_nl(t.info);
    lemma_no_nl_concat(todo_open(), escape(t.todo));
    lemma_no_nl_concat(todo_open() + escape(t.todo), quote());
    assert(todo_line(t.todo) =~= (todo_open() + escape(t.todo)) + quote());
    lemma_no_nl_concat(info_open(), escape(t.info));
    lemma_no_nl_concat(info_open() + escape(t.info), quote());
    assert(info_line(t.info) =~= (info_open() + escape(t.info)) + quote());
    if t.status {
        lemma_no_nl_concat(status_open(), kw_true());
    } else {
        lemma_no_nl_concat(status_open(), kw_false());
    }
}

/// Line splitting sees one formatted record as exactly its four lines.
proof fn lemma_lines_fmt_task(t: TaskView, rest: Seq<char>)
    ensures
        lines_of(fmt_task(t) + rest) == task_lines(t) + lines_of(rest),
{
    lemma_no_nl_task_lines(t);
    let r1 = todo_line(t.todo) + nl() + (status_line(t.status) + nl() + (info_line(t.info) + nl()
        + rest));
    let r2 = status_line(t.status) + nl() + (info_line(t.info) + nl() + rest);
    let r3 = info_line(t.info) + nl() + rest;
    assert(fmt_task(t) + rest =~= header_chars() + nl() + r1);
    lemma_lines_acc_line(header_chars(), r1, Seq::empty());
    assert(Seq::empty() + header_chars() =~= header_chars());
    lemma_lines_acc_line(todo_line(t.todo), r2, Seq::empty());
    assert(Seq::empty() + todo_line(t.todo) =~= todo_line(t.todo));
    lemma_lines_acc_line(status_line(t.status), r3, Seq::empty());
    assert(Seq::empty() + status_line(t.status) =~= status_line(t.status));
    lemma_lines_acc_line(info_line(t.info), rest, Seq::empty());
    assert(Seq::empty() + info_line(t.info) =~= info_line(t.info));
    assert(lines_of(fmt_task(t) + rest) =~= task_lines(t) + lines_of(rest));
}

/// Reading a quoted value undoes escaping: the decoded value is exactly what
/// was escaped, and reading stops right after the closing quote.
proof fn lemma_parse_qcontent_escape(v: Seq<char>, tail: Seq<char>)
    ensures
        parse_qcontent(escape(v) + quote() + tail) == Some((v, tail)),
    decreases v.len(),
{
    let l = escape(v) + quote() + tail;
    if v.len() == 0 {
        assert(l[0] == '"');
        assert(l.drop_first() =~= tail);
        assert(parse_qcontent(l) == Some((Seq::<char>::empty(), tail)));
        assert(v =~= Seq::<char>::empty());
    } else {
        let c = v[0];
        let e = escape(v);
        assert(e == escape_char(c) + escape(v.drop_first()));
        lemma_parse_qcontent_escape(v.drop_first(), tail);
        if needs_escape(c) {
            assert(l[0] == '\\');
            assert(l[1] == escape_code(c));
            assert(crate::format::unescape_code(escape_code(c)) == Some(c));
            assert(l.skip(2) =~= escape(v.drop_first()) + quote() + tail);
            assert(seq![c] + v.drop_first() =~= v);
        } else {
            assert(l[0] == c);
            assert(c != '"' && c != '\\');
            assert(l.drop_first() =~= escape(v.drop_first()) + quote() + tail);
            assert(seq![c] + v.drop_first() =~= v);
        }
    }
}

/// A sequence whose first character is not blank keeps all of itself.
proof fn lemma_skip_b_noblank(l: Seq<char>)
    requires
        l.len() > 0,
        !is_blank(l[0]),
    ensures
        skip_b(l) == l,
{
}

/// Dropping one leading blank.
proof fn lemma_skip_b_step(l: Seq<char>)
    requires
        l.len() > 0,
        is_blank(l[0]),
    ensures
        skip_b(l) == skip_b(l.drop_first()),
{
}

/// A prefix that matches is stripped; mismatch on the first character means
/// no match.
proof fn lemma_strip_prefix_mismatch(l: Seq<char>, p: Seq<char>)
    requires
        l.len() > 0,
        p.len() > 0,
        l[0] != p[0],
    ensures
        strip_prefix(l, p) is None,
{
    if p.len() <= l.len() && l.subrange(0, p.len() as int) == p {
        assert(l.subrange(0, p.len() as int)[0] == l[0]);
        assert(false);
    }
}

/// The header line is classified as a header.
proof fn lemma_parse_header_line()
    ensures
        parse_line(header_chars()) == LineKind::Header,
{
    let l = header_chars();
    lemma_skip_b_noblank(l);
    assert(l.subrange(0, 9) =~= header_chars());
    assert(strip_prefix(l, header_chars()) == Some(l.skip(9)));
    assert(l.skip(9) =~= Seq::<char>::empty());
}

/// A formatted `todo` line is classified as a todo field holding exactly the
/// written value.
proof fn lemma_parse_todo_line(v: Seq<char>)
    ensures
        parse_line(todo_line(v)) == LineKind::FieldTodo(v),
{
    let l = todo_line(v);
    assert(l[0] == 't');
    lemma_skip_b_noblank(l);
    lemma_strip_prefix_mismatch(l, header_chars());
    lemma_strip_prefix_mismatch(l, kw_status());
    assert(l.subrange(0, 4) =~= kw_todo());
    assert(strip_prefix(l, kw_todo()) == Some(l.skip(4)));
    let r = l.skip(4);
    assert(r =~= seq![' ', '=', ' ', '"'] + escape(v) + quote());
    lemma_skip_b_step(r);
    assert(r.drop_first() =~= seq!['=', ' ', '"'] + escape(v) + quote());
    lemma_skip_b_noblank(r.drop_first());
    let r1 = r.drop_first();
    assert(skip_b(r) == r1);
    assert(r1.subrange(0, 1) =~= seq!['=']);
    assert(strip_prefix(r1, seq!['=']) == Some(r1.skip(1)));
    let r2 = r1.skip(1);
    assert(r2 =~= seq![' ', '"'] + escape(v) + quote());
    lemma_skip_b_step(r2);
    assert(r2.drop_first() =~= seq!['"'] + escape(v) + quote());
    lemma_skip_b_noblank(r2.drop_first());
    let r3 = r2.drop_first();
    assert(skip_b(r2) == r3);
    assert(r3.subrange(0, 1) =~= seq!['"']);
    assert(strip_prefix(r3, seq!['"']) == Some(r3.skip(1)));
    let r4 = r3.skip(1);
    assert(r4 =~= escape(v) + quote() + Seq::<char>::empty());
    lemma_parse_qcontent_escape(v, Seq::empty());
    assert(parse_qcontent(r4) == Some((v, Seq::<char>::empty())));
    assert(skip_b(Seq::<char>::empty()).len() == 0);
    assert(parse_eq_str(r) == Some(v));
}

/// A formatted `info` line is classified as an info field holding exactly the
/// written value.
proof fn lemma_parse_info_line(v: Seq<char>)
    ensures
        parse_line(info_line(v)) == LineKind::FieldInfo(v),
{
    let l = info_line(v);
    assert(l[0] == 'i');
    lemma_skip_b_noblank(l);
    lemma_strip_prefix_mismatch(l, header_chars());
    lemma_strip_prefix_mismatch(l, kw_status());
    lemma_strip_prefix_mismatch(l, kw_todo());
    assert(l.subrange(0, 4) =~= kw_info());
    assert(strip_prefix(l, kw_info()) == Some(l.skip(4)));
    let r = l.skip(4);
    assert(r =~= seq![' ', '=', ' ', '"'] + escape(v) + quote());
    lemma_skip_b_step(r);
    assert(r.drop_first() =~= seq!['=', ' ', '"'] + escape(v) + quote());
    lemma_skip_b_noblank(r.drop_first());
    let r1 = r.drop_first();
    assert(r1.subrange(0, 1) =~= seq!['=']);
    assert(strip_prefix(r1, seq!['=']) == Some(r1.skip(1)));
    let r2 = r1.skip(1);
    assert(r2 =~= seq![' ', '"'] + escape(v) + quote());
    lemma_skip_b_step(r2);
    assert(r2.drop_first() =~= seq!['"'] + escape(v) + quote());
    lemma_skip_b_noblank(r2.drop_first());
    let r3 = r2.drop_first();
    assert(r3.subrange(0, 1) =~= seq!['"']);
    assert(strip_prefix(r3, seq!['"']) == Some(r3.skip(1)));
    let r4 = r3.skip(1);
    assert(r4 =~= escape(v) + quote() + Seq::<char>::empty());
    lemma_parse_qcontent_escape(v, Seq::empty());
    assert(parse_qcontent(r4) == Some((v, Seq::<char>::empty())));
    assert(skip_b(Seq::<char>::empty()).len() == 0);
    assert(parse_eq_str(r) == Some(v));
}

/// A formatted `status` line is classified as a status field holding exactly
/// the written flag.
proof fn lemma_parse_status_line(b: bool)
    ensures
        parse_line(status_line(b)) == LineKind::FieldStatus(b),
{
    let l = status_line(b);
    assert(l[0] == 's');
    lemma_skip_b_noblank(l);
    lemma_strip_prefix_mismatch(l, header_chars());
    assert(l.subrange(0, 6) =~= kw_status());
    assert(strip_prefix(l, kw_status()) == Some(l.skip(6)));
    let tf = if b {
        kw_true()
    } else {
        kw_false()
    };
    let r = l.skip(6);
    assert(r =~= seq![' ', '=', ' '] + tf);
    lemma_skip_b_step(r);
    assert(r.drop_first() =~= seq!['=', ' '] + tf);
    lemma_skip_b_noblank(r.drop_first());
    let r1 = r.drop_first();
    assert(r1.subrange(0, 1) =~= seq!['=']);
    assert(strip_prefix(r1, seq!['=']) == Some(r1.skip(1)));
    let r2 = r1.skip(1);
    assert(r2 =~= seq![' '] + tf);
    lemma_skip_b_step(r2);
    assert(r2.drop_first() =~= tf);
    lemma_skip_b_noblank(tf);
    let r3 = skip_b(r2);
    assert(r3 == tf);
    if b {
        assert(tf.subrange(0, 4) =~= kw_true());
        assert(strip_prefix(tf, kw_true()) == Some(tf.skip(4)));
        assert(tf.skip(4) =~= Seq::<char>::empty());
        assert(parse_eq_bool(r) == Some(true));
    } else {
        lemma_strip_prefix_mismatch(tf, kw_true());
        assert(tf.subrange(0, 5) =~= kw_false());
        assert(strip_prefix(tf, kw_false()) == Some(tf.skip(5)));
        assert(tf.skip(5) =~= Seq::<char>::empty());
        assert(parse_eq_bool(r) == Some(false));
    }
}

/// Escaping one more character appends its escape sequence.
pub proof fn lemma_escape_snoc(s: Seq<char>, c: char)
    ensures
        escape(s.push(c)) == escape(s) + escape_char(c),
    decreases s.len(),
{
    if s.len() == 0 {
        assert(s.push(c)[0] == c);
        assert(s.push(c).drop_first() =~= Seq::<char>::empty());
        assert(escape(Seq::<char>::empty()) == Seq::<char>::empty());
        assert(escape(s) == Seq::<char>::empty());
        assert(escape(s.push(c)) == escape_char(c) + Seq::<char>::empty());
        assert(escape_char(c) + Seq::<char>::empty() =~= escape_char(c));
        assert(escape(s) + escape_char(c) =~= escape_char(c));
    } else {
        assert(s.push(c)[0] == s[0]);
        assert(s.push(c).drop_first() =~= s.drop_first().push(c));
        lemma_escape_snoc(s.drop_first(), c);
        assert(escape_char(s[0]) + (escape(s.drop_first()) + escape_char(c)) =~= (escape_char(s[0])
            + escape(s.drop_first())) + escape_char(c));
    }
}

/// Formatting one more task appends its record.
pub proof fn lemma_fmt_list_snoc(ts: Seq<TaskView>, t: TaskView)
    ensures
        fmt_list(ts.push(t)) == fmt_list(ts) + fmt_task(t),
    decreases ts.len(),
{
    if ts.len() == 0 {
        assert(ts.push(t)[0] == t);
        assert(ts.push(t).drop_first() =~= Seq::<TaskView>::empty());
        assert(fmt_list(Seq::<TaskView>::empty()) == Seq::<char>::empty());
        assert(fmt_list(ts) == Seq::<char>::empty());
        assert(fmt_list(ts.push(t)) == fmt_task(t) + Seq::<char>::empty());
        assert(fmt_task(t) + Seq::<char>::empty() =~= fmt_task(t));
        assert(fmt_list(ts) + fmt_task(t) =~= fmt_task(t));
    } else {
        assert(ts.push(t)[0] == ts[0]);
        assert(ts.push(t).drop_first() =~= ts.drop_first().push(t));
        lemma_fmt_list_snoc(ts.drop_first(), t);
        assert(fmt_task(ts[0]) + (fmt_list(ts.drop_first()) + fmt_task(t)) =~= (fmt_task(ts[0])
            + fmt_list(ts.drop_first())) + fmt_task(t));
    }
}

/// A failed parser state never recovers.
pub proof fn lemma_run_lines_stuck(st: PState, lines: Seq<Seq<char>>)
    requires
        !st.ok,
    ensures
        run_lines(st, lines) == st,
    decreases lines.len(),
{
    if lines.len() == 0 {
    } else {
        lemma_run_lines_stuck(st, lines.drop_first());
    }
}

/// The accumulator after the three field lines of task `t` have been read.
pub open spec fn full_acc(t: TaskView) -> RecAcc {
    RecAcc { todo: Some(t.todo), status: Some(t.status), info: Some(t.info) }
}

/// From a state holding a complete open record, the rest of the formatted
/// text parses to exactly the remaining tasks appended in order.
proof fn lemma_run_complete(done: Seq<TaskView>, t: TaskView, items: Seq<TaskView>)
    ensures
        finish(
            run_lines(
                PState { ok: true, done: done, cur: Some(full_acc(t)) },
                lines_of(fmt_list(items)),
            ),
        ) == Some(done.push(t) + items),
    decreases items.len(),
{
    let st = PState { ok: true, done: done, cur: Some(full_acc(t)) };
    if items.len() == 0 {
        assert(lines_of(fmt_list(items)) =~= Seq::<Seq<char>>::empty());
        assert(acc_task(full_acc(t)) == t);
        assert(done.push(t) + items =~= done.push(t));
    } else {
        let t2 = items[0];
        lemma_lines_fmt_task(t2, fmt_list(items.drop_first()));
        let rest_lines = lines_of(fmt_list(items.drop_first()));
        let lines = task_lines(t2) + rest_lines;
        assert(lines_of(fmt_list(items)) == lines);
        lemma_parse_header_line();
        lemma_parse_todo_line(t2.todo);
        lemma_parse_status_line(t2.status);
        lemma_parse_info_line(t2.info);
        assert(lines[0] == header_chars());
        assert(acc_task(full_acc(t)) == t);
        let st1 = step_line(st, lines[0]);
        assert(st1 == PState { ok: true, done: done.push(t), cur: Some(empty_acc()) });
        assert(lines.drop_first()[0] == todo_line(t2.todo));
        let st2 = step_line(st1, todo_line(t2.todo));
        assert(st2 == PState {
            ok: true,
            done: done.push(t),
            cur: Some(RecAcc { todo: Some(t2.todo), status: None, info: None }),
        });
        let st3 = step_line(st2, status_line(t2.status));
        assert(st3 == PState {
            ok: true,
            done: done.push(t),
            cur: Some(RecAcc { todo: Some(t2.todo), status: Some(t2.status), info: None }),
        });
        let st4 = step_line(st3, info_line(t2.info));
        assert(st4 == PState { ok: true, done: done.push(t), cur: Some(full_acc(t2)) });
        let l1 = lines.drop_first();
        let l2 = l1.drop_first();
        let l3 = l2.drop_first();
        let l4 = l3.drop_first();
        assert(l2[0] == status_line(t2.status));
        assert(l3[0] == info_line(t2.info));
        assert(l4 =~= rest_lines);
        assert(run_lines(st, lines) == run_lines(st1, l1));
        assert(run_lines(st1, l1) == run_lines(st2, l2));
        assert(run_lines(st2, l2) == run_lines(st3, l3));
        assert(run_lines(st3, l3) == run_lines(st4, l4));
        lemma_run_complete(done.push(t), t2, items.drop_first());
        assert(done.push(t).push(t2) + items.drop_first() =~= done.push(t) + items);
    }
}

/// Round trip: parsing what `fmt_list` writes yields exactly the written
/// list, field for field and in order, for any list including the empty one.
pub proof fn lemma_round_trip(items: Seq<TaskView>)
    ensures
        parse_tasks(fmt_list(items)) == Some(items),
{
    if items.len() == 0 {
        assert(lines_of(fmt_list(items)) =~= Seq::<Seq<char>>::empty());
        assert(parse_tasks(fmt_list(items)) == Some(Seq::<TaskView>::empty()));
        assert(items =~= Seq::<TaskView>::empty());
    } else {
        let t = items[0];
        lemma_lines_fmt_task(t, fmt_list(items.drop_first()));
        let rest_lines = lines_of(fmt_list(items.drop_first()));
        let lines = task_lines(t) + rest_lines;
        assert(lines_of(fmt_list(items)) == lines);
        lemma_parse_header_line();
        lemma_parse_todo_line(t.todo);
        lemma_parse_status_line(t.status);
        lemma_parse_info_line(t.info);
        let st0 = init_state();
        assert(lines[0] == header_chars());
        let st1 = step_line(st0, lines[0]);
        assert(st1 == PState { ok: true, done: Seq::<TaskView>::empty(), cur: Some(empty_acc()) });
        let l1 = lines.drop_first();
        let l2 = l1.drop_first();
        let l3 = l2.drop_first();
        let l4 = l3.drop_first();
        assert(l1[0] == todo_line(t.todo));
        assert(l2[0] == status_line(t.status));
        assert(l3[0] == info_line(t.info));
        assert(l4 =~= rest_lines);
        let st2 = step_line(st1, todo_line(t.todo));
        assert(st2 == PState {
            ok: true,
            done: Seq::<TaskView>::empty(),
            cur: Some(RecAcc { todo: Some(t.todo), status: None, info: None }),
        });
        let st3 = step_line(st2, status_line(t.status));
        assert(st3 == PState {
            ok: true,
            done: Seq::<TaskView>::empty(),
            cur: Some(RecAcc { todo: Some(t.todo), status: Some(t.status), info: None }),
        });
        let st4 = step_line(st3, info_line(t.info));
        let stf = PState { ok: true, done: Seq::<TaskView>::empty(), cur: Some(full_acc(t)) };
        assert(st4 == stf);
        assert(run_lines(st0, lines) == run_lines(st1, l1));
        assert(run_lines(st1, l1) == run_lines(st2, l2));
        assert(run_lines(st2, l2) == run_lines(st3, l3));
        assert(run_lines(st3, l3) == run_lines(st4, l4));
        assert(run_lines(st0, lines) == run_lines(stf, rest_lines));
        lemma_run_complete(Seq::empty(), t, items.drop_first());
        assert(Seq::<TaskView>::empty().push(t) + items.drop_first() =~= items);
    }
}

} // verus!
