//! Executable persistence layer: serializes a task list to the text format
//! of `format`, and parses such text back, recovering with an empty list on
//! malformed input. The round trip is proved in `roundtrip`.

use crate::format::header_chars;
use crate::format::info_open;
use crate::format::is_blank;
use crate::format::kw_false;
use crate::format::kw_info;
use crate::format::kw_status;
use crate::format::kw_todo;
use crate::format::kw_true;
use crate::format::nl;
use crate::format::parse_qcontent;
use crate::format::quote;
use crate::format::skip_b;
use crate::format::status_open;
use crate::format::strip_prefix;
use crate::format::todo_open;
use crate::format::unescape_code;
use vstd::prelude::*;
use vstd::string::StrSliceExecFns;
use vstd::string::StringExecFns;

verus! {

/// The characters of `s`, one by one.
fn chars_of(s: &str) -> (v: Vec<char>)
    ensures
        v@ == s@,
{
    let n = s.unicode_len();
    let mut v: Vec<char> = Vec::new();
    let mut i: usize = 0;
    while i < n
        invariant
            n == s@.len(),
            0 <= i <= n,
            v@ == s@.take(i as int),
        decreases n - i,
    {
        let c = s.get_char(i);
        v.push(c);
        proof {
            assert(s@.take(i as int).push(s@[i as int]) =~= s@.take(i + 1));
        }
        i = i + 1;
    }
    proof {
        assert(s@.take(n as int) =~= s@);
    }
    v
}

/// The first position at or after `i` whose character is not a blank.
fn skip_blanks(v: &Vec<char>, i: usize) -> (j: usize)
    requires
        i <= v@.len(),
    ensures
        i <= j <= v@.len(),
        v@.skip(j as int) == skip_b(v@.skip(i as int)),
{
    let mut j = i;
    while j < v.len() && (v[j] == ' ' || v[j] == '\t' || v[j] == '\r')
        invariant
            i <= j <= v@.len(),
            skip_b(v@.skip(j as int)) == skip_b(v@.skip(i as int)),
        decreases v@.len() - j,
    {
        proof {
            let l = v@.skip(j as int);
            assert(l[0] == v@[j as int]);
            assert(is_blank(l[0]));
            assert(l.drop_first() =~= v@.skip(j + 1));
        }
        j = j + 1;
    }
    proof {
        let l = v@.skip(j as int);
        if j < v.len() {
            assert(l[0] == v@[j as int]);
            assert(!is_blank(l[0]));
        }
        assert(skip_b(l) == l);
    }
    j
}

/// Whether the characters of `p` stand at position `i` of `v`.
fn match_at(v: &Vec<char>, i: usize, p: &str) -> (b: bool)
    requires
        i <= v@.len(),
    ensures
        b == (strip_prefix(v@.skip(i as int), p@) is Some),
        b ==> i + p@.len() <= v@.len() && strip_prefix(v@.skip(i as int), p@) == Some(
            v@.skip(i as int + p@.len()),
        ),
{
    let ghost l = v@.skip(i as int);
    let n = p.unicode_len();
    if n > v.len() - i {
        proof {
            assert(l.len() == v@.len() - i);
        }
        return false;
    }
    let mut k: usize = 0;
    while k < n
        invariant
            0 <= k <= n,
            i + n <= v@.len(),
            n == p@.len(),
            l == v@.skip(i as int),
            forall|m: int| 0 <= m < k ==> l[m] == p@[m],
        decreases n - k,
    {
        proof {
            assert(v.len() == v@.len());
            assert(i + k < v@.len());
        }
        let c = v[i + k];
        proof {
            assert(l[k as int] == v@[i + k]);
        }
        if c != p.get_char(k) {
            proof {
                if strip_prefix(l, p@) is Some {
                    assert(l.subrange(0, n as int)[k as int] == p@[k as int]);
                    assert(false);
                }
            }
            return false;
        }
        k = k + 1;
    }
    proof {
        assert(l.subrange(0, n as int) =~= p@);
        assert(l.skip(n as int) =~= v@.skip(i as int + n));
    }
    true
}

/// How an option's payload is prefixed while a quoted value is read.
spec fn prepend_q(prefix: Seq<char>, o: Option<(Seq<char>, Seq<char>)>) -> Option<
    (Seq<char>, Seq<char>),
> {
    match o {
        Some(p) => Some((prefix + p.0, p.1)),
        None => None,
    }
}

/// Reads a quoted value starting right after the opening quote at position
/// `i`; yields the decoded value and the position just past the closing
/// quote.
fn parse_qstr(v: &Vec<char>, i: usize) -> (r: Option<(String, usize)>)
    requires
        i <= v@.len(),
    ensures
        match r {
            Some(p) => p.1 <= v@.len() && parse_qcontent(v@.skip(i as int)) == Some(
                (p.0@, v@.skip(p.1 as int)),
            ),
            None => parse_qcontent(v@.skip(i as int)) is None,
        },
{
    let mut out = String::new();
    let mut j = i;
    proof {
        assert(parse_qcontent(v@.skip(i as int)) == prepend_q(
            out@,
            parse_qcontent(v@.skip(j as int)),
        )) by {
            match parse_qcontent(v@.skip(i as int)) {
                Some(p) => {
                    assert(Seq::<char>::empty() + p.0 =~= p.0);
                },
                None => {},
            }
        }
    }
    while j < v.len()
        invariant
            i <= j <= v@.len(),
            parse_qcontent(v@.skip(i as int)) == prepend_q(
                out@,
                parse_qcontent(v@.skip(j as int)),
            ),
        decreases v@.len() - j,
    {
        let ghost l = v@.skip(j as int);
        proof {
            assert(l[0] == v@[j as int]);
        }
        let c = v[j];
        if c == '"' {
            proof {
                assert(l.drop_first() =~= v@.skip(j + 1));
                assert(parse_qcontent(l) == Some((Seq::<char>::empty(), v@.skip(j + 1))));
                assert(out@ + Seq::<char>::empty() =~= out@);
            }
            return Some((out, j + 1));
        } else if c == '\\' {
            if j + 1 >= v.len() {
                proof {
                    assert(l.len() < 2);
                    assert(parse_qcontent(l) is None);
                }
                return None;
            }
            let c2 = v[j + 1];
            proof {
                assert(l[1] == v@[j + 1]);
            }
            let d_opt: Option<char> = if c2 == '\\' {
                Some('\\')
            } else if c2 == '"' {
                Some('"')
            } else if c2 == 'n' {
                Some('\n')
            } else if c2 == 'r' {
                Some('\r')
            } else if c2 == 't' {
                Some('\t')
            } else {
                None
            };
            match d_opt {
                None => {
                    proof {
                        assert(unescape_code(l[1]) is None);
                        assert(parse_qcontent(l) is None);
                    }
                    return None;
                },
                Some(d) => {
                    proof {
                        assert(unescape_code(l[1]) == Some(d));
                        assert(l.skip(2) =~= v@.skip(j + 2));
                        let ghost inner = parse_qcontent(v@.skip(j + 2));
                        assert(parse_qcontent(l) == prepend_q(seq![d], inner));
                        match inner {
                            Some(p) => {
                                assert(out@ + (seq![d] + p.0) =~= out@.push(d) + p.0);
                            },
                            None => {},
                        }
                    }
                    out.push(d);
                    j = j + 2;
                },
            }
        } else {
            proof {
                assert(l.drop_first() =~= v@.skip(j + 1));
                let ghost inner = parse_qcontent(v@.skip(j + 1));
                assert(parse_qcontent(l) == prepend_q(seq![c], inner));
                match inner {
                    Some(p) => {
                        assert(out@ + (seq![c] + p.0) =~= out@.push(c) + p.0);
                    },
                    None => {},
                }
            }
            out.push(c);
            j = j + 1;
        }
    }
    proof {
        assert(v@.skip(j as int).len() == 0);
        assert(parse_qcontent(v@.skip(j as int)) is None);
    }
    None
}

/// The views of the keyword literals used by the parser.
proof fn reveal_kw()
    ensures
        "[[items]]"@ == header_chars(),
        "todo"@ == kw_todo(),
        "status"@ == kw_status(),
        "info"@ == kw_info(),
        "true"@ == kw_true(),
        "false"@ == kw_false(),
        "="@ == seq!['='],
        "\""@ == seq!['"'],
{
    reveal_strlit("[[items]]");
    reveal_strlit("todo");
    reveal_strlit("status");
    reveal_strlit("info");
    reveal_strlit("true");
    reveal_strlit("false");
    reveal_strlit("=");
    reveal_strlit("\"");
    assert("[[items]]"@ =~= header_chars());
    assert("todo"@ =~= kw_todo());
    assert("status"@ =~= kw_status());
    assert("info"@ =~= kw_info());
    assert("true"@ =~= kw_true());
    assert("false"@ =~= kw_false());
    assert("="@ =~= seq!['=']);
    assert("\""@ =~= seq!['"']);
}

/// After a field keyword at position `i`: reads `= "value"` and trailing
/// blanks.
fn parse_eq_str_exec(v: &Vec<char>, i: usize) -> (r: Option<String>)
    requires
        i <= v@.len(),
    ensures
        match r {
            Some(s) => crate::format::parse_eq_str(v@.skip(i as int)) == Some(s@),
            None => crate::format::parse_eq_str(v@.skip(i as int)) is None,
        },
{
    proof {
        reveal_kw();
    }
    let ghost rr = v@.skip(i as int);
    let k = skip_blanks(v, i);
    if !match_at(v, k, "=") {
        return None;
    }
    proof {
        assert(v.len() == v@.len());
        assert(v@.skip(k as int + 1) =~= v@.skip(k as int).skip(1));
    }
    let k2 = skip_blanks(v, k + 1);
    if !match_at(v, k2, "\"") {
        return None;
    }
    proof {
        assert(v.len() == v@.len());
        assert(v@.skip(k2 as int + 1) =~= v@.skip(k2 as int).skip(1));
    }
    match parse_qstr(v, k2 + 1) {
        None => None,
        Some(p) => {
            let (s, j) = p;
            let k3 = skip_blanks(v, j);
            if k3 == v.len() {
                proof {
                    assert(v@.skip(k3 as int).len() == 0);
                }
                Some(s)
            } else {
                proof {
                    assert(v@.skip(k3 as int).len() > 0);
                }
                None
            }
        },
    }
}

/// After the `status` keyword at position `i`: reads `= true` or `= false`
/// and trailing blanks.
fn parse_eq_bool_exec(v: &Vec<char>, i: usize) -> (r: Option<bool>)
    requires
        i <= v@.len(),
    ensures
        r == crate::format::parse_eq_bool(v@.skip(i as int)),
{
    proof {
        reveal_kw();
    }
    let k = skip_blanks(v, i);
    if !match_at(v, k, "=") {
        return None;
    }
    proof {
        assert(v.len() == v@.len());
        assert(v@.skip(k as int + 1) =~= v@.skip(k as int).skip(1));
    }
    let k2 = skip_blanks(v, k + 1);
    if match_at(v, k2, "true") {
        proof {
            assert(v.len() == v@.len());
        }
        let k3 = skip_blanks(v, k2 + 4);
        proof {
            assert(v@.skip(k2 as int + 4) =~= v@.skip(k2 as int).skip(4));
        }
        if k3 == v.len() {
            proof {
                assert(v@.skip(k3 as int).len() == 0);
            }
            Some(true)
        } else {
            proof {
                assert(v@.skip(k3 as int).len() > 0);
            }
            None
        }
    } else if match_at(v, k2, "false") {
        proof {
            assert(v.len() == v@.len());
        }
        let k3 = skip_blanks(v, k2 + 5);
        proof {
            assert(v@.skip(k2 as int + 5) =~= v@.skip(k2 as int).skip(5));
        }
        if k3 == v.len() {
            proof {
                assert(v@.skip(k3 as int).len() == 0);
            }
            Some(false)
        } else {
            proof {
                assert(v@.skip(k3 as int).len() > 0);
            }
            None
        }
    } else {
        None
    }
}

/// What one line of the file was found to hold.
enum Line {
    Blank,
    Header,
    FieldTodo(String),
    FieldStatus(bool),
    FieldInfo(String),
    Bad,
}

impl View for Line {
    type V = crate::format::LineKind;

    closed spec fn view(&self) -> crate::format::LineKind {
        match self {
            Line::Blank => crate::format::LineKind::Blank,
            Line::Header => crate::format::LineKind::Header,
            Line::FieldTodo(s) => crate::format::LineKind::FieldTodo(s@),
            Line::FieldStatus(b) => crate::format::LineKind::FieldStatus(*b),
            Line::FieldInfo(s) => crate::format::LineKind::FieldInfo(s@),
            Line::Bad => crate::format::LineKind::Bad,
        }
    }
}

/// Classifies one line of the file.
fn parse_line_exec(v: &Vec<char>) -> (r: Line)
    ensures
        r@ == crate::format::parse_line(v@),
{
    proof {
        reveal_kw();
        assert(v@.skip(0) =~= v@);
    }
    let i1 = skip_blanks(v, 0);
    if i1 == v.len() {
        proof {
            assert(skip_b(v@).len() == 0);
        }
        return Line::Blank;
    }
    proof {
        assert(skip_b(v@).len() > 0);
    }
    if match_at(v, i1, "[[items]]") {
        let k = skip_blanks(v, i1 + 9);
        proof {
            assert(v@.skip(i1 as int + 9) =~= v@.skip(i1 as int).skip(9));
        }
        if k == v.len() {
            proof {
                assert(v@.skip(k as int).len() == 0);
            }
            return Line::Header;
        } else {
            proof {
                assert(v@.skip(k as int).len() > 0);
            }
            return Line::Bad;
        }
    }
    if match_at(v, i1, "status") {
        proof {
            assert(v@.skip(i1 as int + 6) =~= v@.skip(i1 as int).skip(6));
        }
        match parse_eq_bool_exec(v, i1 + 6) {
            Some(b) => {
                return Line::FieldStatus(b);
            },
            None => {
                return Line::Bad;
            },
        }
    }
    if match_at(v, i1, "todo") {
        proof {
            assert(v@.skip(i1 as int + 4) =~= v@.skip(i1 as int).skip(4));
        }
        match parse_eq_str_exec(v, i1 + 4) {
            Some(s) => {
                return Line::FieldTodo(s);
            },
            None => {
                return Line::Bad;
            },
        }
    }
    if match_at(v, i1, "info") {
        proof {
            assert(v@.skip(i1 as int + 4) =~= v@.skip(i1 as int).skip(4));
        }
        match parse_eq_str_exec(v, i1 + 4) {
            Some(s) => {
                return Line::FieldInfo(s);
            },
            None => {
                return Line::Bad;
            },
        }
    }
    Line::Bad
}


/// The character sequences of a sequence of line buffers.
spec fn views_of(s: Seq<Vec<char>>) -> Seq<Seq<char>> {
    s.map(|i: int, l: Vec<char>| l@)
}

/// Splits the text into its lines.
fn split_lines(v: &Vec<char>) -> (r: Vec<Vec<char>>)
    ensures
        views_of(r@) == crate::format::lines_of(v@),
{
    let mut out: Vec<Vec<char>> = Vec::new();
    let mut cur: Vec<char> = Vec::new();
    let mut i: usize = 0;
    proof {
        assert(v@.skip(0) =~= v@);
        assert(views_of(out@) + crate::format::lines_acc(v@, cur@) =~= crate::format::lines_acc(
            v@,
            cur@,
        ));
    }
    while i < v.len()
        invariant
            0 <= i <= v@.len(),
            views_of(out@) + crate::format::lines_acc(v@.skip(i as int), cur@)
                == crate::format::lines_of(v@),
        decreases v@.len() - i,
    {
        let ghost out0 = out@;
        let ghost cur0 = cur@;
        let ghost l = v@.skip(i as int);
        proof {
            assert(l[0] == v@[i as int]);
            assert(l.drop_first() =~= v@.skip(i + 1));
        }
        let c = v[i];
        if c == '\n' {
            out.push(cur);
            cur = Vec::new();
            proof {
                assert(views_of(out@) =~= views_of(out0).push(cur0));
                assert(crate::format::lines_acc(l, cur0) == seq![cur0]
                    + crate::format::lines_acc(v@.skip(i + 1), Seq::<char>::empty()));
                assert(views_of(out0).push(cur0) + crate::format::lines_acc(
                    v@.skip(i + 1),
                    Seq::<char>::empty(),
                ) =~= views_of(out0) + (seq![cur0] + crate::format::lines_acc(
                    v@.skip(i + 1),
                    Seq::<char>::empty(),
                )));
            }
        } else {
            cur.push(c);
            proof {
                assert(crate::format::lines_acc(l, cur0) == crate::format::lines_acc(
                    v@.skip(i + 1),
                    cur0.push(c),
                ));
            }
        }
        i = i + 1;
    }
    proof {
        assert(v@.skip(i as int).len() == 0);
    }
    if cur.len() > 0 {
        let ghost out0 = out@;
        let ghost cur0 = cur@;
        out.push(cur);
        proof {
            assert(views_of(out@) =~= views_of(out0).push(cur0));
            assert(crate::format::lines_acc(v@.skip(v@.len() as int), cur0) == seq![cur0]);
            assert(views_of(out0).push(cur0) =~= views_of(out0) + seq![cur0]);
        }
    } else {
        proof {
            assert(crate::format::lines_acc(v@.skip(v@.len() as int), cur@)
                == Seq::<Seq<char>>::empty());
            assert(views_of(out@) + Seq::<Seq<char>>::empty() =~= views_of(out@));
        }
    }
    out
}

/// The partly-read record: which fields have been seen so far.
struct Acc {
    todo: Option<String>,
    status: Option<bool>,
    info: Option<String>,
}

impl View for Acc {
    type V = crate::format::RecAcc;

    closed spec fn view(&self) -> crate::format::RecAcc {
        crate::format::RecAcc {
            todo: match &self.todo {
                Some(s) => Some(s@),
                None => None,
            },
            status: self.status,
            info: match &self.info {
                Some(s) => Some(s@),
                None => None,
            },
        }
    }
}

/// The parser state that the executable loop stands in.
spec fn st_of(done: Seq<crate::task::TodoItem>, cur: Option<Acc>) -> crate::format::PState {
    crate::format::PState {
        ok: true,
        done: crate::task::tasks_view(done),
        cur: match cur {
            Some(a) => Some(a@),
            None => None,
        },
    }
}

/// Reads a task list from the persisted text, also reporting whether the
/// text was well-formed: malformed text yields the empty list and `false`,
/// so a caller can log that content was discarded without failing.
pub fn load_string_report(text: &str) -> (r: (crate::task::TodoList, bool))
    ensures
        r.1 == (crate::format::parse_tasks(text@) is Some),
        match crate::format::parse_tasks(text@) {
            Some(ts) => r.0@ == ts,
            None => r.0@ == Seq::<crate::task::TaskView>::empty(),
        },
{
    let v = chars_of(text);
    let lines = split_lines(&v);
    let ghost lv = views_of(lines@);
    let mut done_items: Vec<crate::task::TodoItem> = Vec::new();
    let mut cur: Option<Acc> = None;
    let mut k: usize = 0;
    proof {
        assert(lv.skip(0) =~= lv);
        assert(crate::task::tasks_view(done_items@) =~= Seq::<crate::task::TaskView>::empty());
        assert(st_of(done_items@, cur) == crate::format::init_state());
    }
    while k < lines.len()
        invariant
            0 <= k <= lines@.len(),
            lv == views_of(lines@),
            lv == crate::format::lines_of(text@),
            crate::format::run_lines(crate::format::init_state(), lv) == crate::format::run_lines(
                st_of(done_items@, cur),
                lv.skip(k as int),
            ),
        decreases lines@.len() - k,
    {
        let ghost stk = st_of(done_items@, cur);
        let kind = parse_line_exec(&lines[k]);
        let ghost lk = lv[k as int];
        proof {
            assert(lv[k as int] == lines@[k as int]@);
            assert(lv.skip(k as int)[0] == lv[k as int]);
            assert(lv.skip(k as int).drop_first() =~= lv.skip(k + 1));
            assert(crate::format::run_lines(stk, lv.skip(k as int)) == crate::format::run_lines(
                crate::format::step_line(stk, lk),
                lv.skip(k + 1),
            ));
        }
        let ghost stn = crate::format::step_line(stk, lk);
        match kind {
            Line::Blank => {
                proof {
                    assert(stn == stk);
                }
            },
            Line::Header => {
                let prev = cur;
                match prev {
                    None => {
                        cur = Some(Acc { todo: None, status: None, info: None });
                        proof {
                            assert(st_of(done_items@, cur) == stn);
                        }
                    },
                    Some(acc) => {
                        let Acc { todo, status, info } = acc;
                        match (todo, status, info) {
                            (Some(t), Some(b), Some(inf)) => {
                                let ghost done0 = done_items@;
                                let item = crate::task::TodoItem::new(b, t, inf);
                                done_items.push(item);
                                cur = Some(Acc { todo: None, status: None, info: None });
                                proof {
                                    assert(crate::task::tasks_view(done0.push(item))
                                        =~= crate::task::tasks_view(done0).push(item@));
                                    assert(st_of(done_items@, cur) == stn);
                                }
                            },
                            _ => {
                                proof {
                                    assert(!stn.ok);
                                    crate::roundtrip::lemma_run_lines_stuck(stn, lv.skip(k + 1));
                                    assert(crate::format::parse_tasks(text@) is None);
                                }
                                return (crate::task::TodoList::new(), false);
                            },
                        }
                    },
                }
            },
            Line::FieldTodo(s) => {
                let prev = cur;
                match prev {
                    Some(acc) => {
                        let Acc { todo, status, info } = acc;
                        match todo {
                            None => {
                                cur = Some(Acc { todo: Some(s), status, info });
                                proof {
                                    assert(st_of(done_items@, cur) == stn);
                                }
                            },
                            Some(_) => {
                                proof {
                                    assert(!stn.ok);
                                    crate::roundtrip::lemma_run_lines_stuck(stn, lv.skip(k + 1));
                                    assert(crate::format::parse_tasks(text@) is None);
                                }
                                return (crate::task::TodoList::new(), false);
                            },
                        }
                    },
                    None => {
                        proof {
                            assert(!stn.ok);
                            crate::roundtrip::lemma_run_lines_stuck(stn, lv.skip(k + 1));
                            assert(crate::format::parse_tasks(text@) is None);
                        }
                        return (crate::task::TodoList::new(), false);
                    },
                }
            },
            Line::FieldStatus(b) => {
                let prev = cur;
                match prev {
                    Some(acc) => {
                        let Acc { todo, status, info } = acc;
                        match status {
                            None => {
                                cur = Some(Acc { todo, status: Some(b), info });
                                proof {
                                    assert(st_of(done_items@, cur) == stn);
                                }
                            },
                            Some(_) => {
                                proof {
                                    assert(!stn.ok);
                                    crate::roundtrip::lemma_run_lines_stuck(stn, lv.skip(k + 1));
                                    assert(crate::format::parse_tasks(text@) is None);
                                }
                                return (crate::task::TodoList::new(), false);
                            },
                        }
                    },
                    None => {
                        proof {
                            assert(!stn.ok);
                            crate::roundtrip::lemma_run_lines_stuck(stn, lv.skip(k + 1));
                            assert(crate::format::parse_tasks(text@) is None);
                        }
                        return (crate::task::TodoList::new(), false);
                    },
                }
            },
            Line::FieldInfo(s) => {
                let prev = cur;
                match prev {
                    Some(acc) => {
                        let Acc { todo, status, info } = acc;
                        match info {
                            None => {
                                cur = Some(Acc { todo, status, info: Some(s) });
                                proof {
                                    assert(st_of(done_items@, cur) == stn);
                                }
                            },
                            Some(_) => {
                                proof {
                                    assert(!stn.ok);
                                    crate::roundtrip::lemma_run_lines_stuck(stn, lv.skip(k + 1));
                                    assert(crate::format::parse_tasks(text@) is None);
                                }
                                return (crate::task::TodoList::new(), false);
                            },
                        }
                    },
                    None => {
                        proof {
                            assert(!stn.ok);
                            crate::roundtrip::lemma_run_lines_stuck(stn, lv.skip(k + 1));
                            assert(crate::format::parse_tasks(text@) is None);
                        }
                        return (crate::task::TodoList::new(), false);
                    },
                }
            },
            Line::Bad => {
                proof {
                    assert(!stn.ok);
                    crate::roundtrip::lemma_run_lines_stuck(stn, lv.skip(k + 1));
                    assert(crate::format::parse_tasks(text@) is None);
                }
                return (crate::task::TodoList::new(), false);
            },
        }
        k = k + 1;
    }
    proof {
        assert(lv.skip(k as int).len() == 0);
        assert(crate::format::run_lines(crate::format::init_state(), lv) == st_of(
            done_items@,
            cur,
        ));
    }
    match cur {
        None => {
            proof {
                assert(crate::format::parse_tasks(text@) == Some(
                    crate::task::tasks_view(done_items@),
                ));
            }
            (crate::task::TodoList { items: done_items }, true)
        },
        Some(acc) => {
            let Acc { todo, status, info } = acc;
            match (todo, status, info) {
                (Some(t), Some(b), Some(inf)) => {
                    let ghost done0 = done_items@;
                    let item = crate::task::TodoItem::new(b, t, inf);
                    done_items.push(item);
                    proof {
                        assert(crate::task::tasks_view(done0.push(item))
                            =~= crate::task::tasks_view(done0).push(item@));
                    }
                    (crate::task::TodoList { items: done_items }, true)
                },
                _ => (crate::task::TodoList::new(), false),
            }
        },
    }
}

/// Reads a task list from the persisted text. A missing or malformed file
/// never fails: any text that does not parse yields the empty list, so
/// corrupt state is self-healing.
pub fn load_string(text: &str) -> (r: crate::task::TodoList)
    ensures
        match crate::format::parse_tasks(text@) {
            Some(ts) => r@ == ts,
            None => r@ == Seq::<crate::task::TaskView>::empty(),
        },
{
    let (list, _wellformed) = load_string_report(text);
    list
}


/// Appends `s` to `out` with backslash escapes for quotes, backslashes and
/// control whitespace.
fn append_escaped(out: &mut String, s: &str)
    ensures
        final(out)@ == old(out)@ + crate::format::escape(s@),
{
    let n = s.unicode_len();
    let mut i: usize = 0;
    proof {
        assert(s@.take(0) =~= Seq::<char>::empty());
        assert(crate::format::escape(Seq::<char>::empty()) == Seq::<char>::empty());
        assert(old(out)@ + Seq::<char>::empty() =~= old(out)@);
    }
    while i < n
        invariant
            n == s@.len(),
            0 <= i <= n,
            out@ == old(out)@ + crate::format::escape(s@.take(i as int)),
        decreases n - i,
    {
        let ghost pre = out@;
        let c = s.get_char(i);
        proof {
            crate::roundtrip::lemma_escape_snoc(s@.take(i as int), s@[i as int]);
            assert(s@.take(i as int).push(s@[i as int]) =~= s@.take(i + 1));
        }
        if c == '\\' {
            out.push('\\');
            out.push('\\');
        } else if c == '"' {
            out.push('\\');
            out.push('"');
        } else if c == '\n' {
            out.push('\\');
            out.push('n');
        } else if c == '\r' {
            out.push('\\');
            out.push('r');
        } else if c == '\t' {
            out.push('\\');
            out.push('t');
        } else {
            out.push(c);
        }
        proof {
            assert(out@ =~= pre + crate::format::escape_char(s@[i as int]));
            assert(pre + crate::format::escape_char(s@[i as int]) =~= old(out)@
                + crate::format::escape(s@.take(i + 1)));
        }
        i = i + 1;
    }
    proof {
        assert(s@.take(n as int) =~= s@);
    }
}

/// The views of the literal pieces that the serializer writes.
proof fn reveal_fmt()
    ensures
        "[[items]]\n"@ == header_chars() + nl(),
        "todo = \""@ == todo_open(),
        "\"\n"@ == quote() + nl(),
        "status = "@ == status_open(),
        "true"@ == kw_true(),
        "false"@ == kw_false(),
        "\n"@ == nl(),
        "info = \""@ == info_open(),
{
    reveal_strlit("[[items]]\n");
    reveal_strlit("todo = \"");
    reveal_strlit("\"\n");
    reveal_strlit("status = ");
    reveal_strlit("true");
    reveal_strlit("false");
    reveal_strlit("\n");
    reveal_strlit("info = \"");
    assert("[[items]]\n"@ =~= header_chars() + nl());
    assert("todo = \""@ =~= todo_open());
    assert("\"\n"@ =~= quote() + nl());
    assert("status = "@ =~= status_open());
    assert("true"@ =~= kw_true());
    assert("false"@ =~= kw_false());
    assert("\n"@ =~= nl());
    assert("info = \""@ =~= info_open());
}

/// Serializes the whole list, in order, to the persisted text format. What
/// this writes reads back as the same list: see `roundtrip::lemma_round_trip`.
#[verifier::rlimit(60)]
pub fn save_string(list: &crate::task::TodoList) -> (r: String)
    ensures
        r@ == crate::format::fmt_list(list@),
{
    let mut out = String::new();
    let mut i: usize = 0;
    let ghost tv = list@;
    proof {
        assert(tv.take(0) =~= Seq::<crate::task::TaskView>::empty());
        assert(crate::format::fmt_list(Seq::<crate::task::TaskView>::empty())
            == Seq::<char>::empty());
    }
    while i < list.items.len()
        invariant
            tv == list@,
            tv.len() == list.items@.len(),
            0 <= i <= tv.len(),
            out@ == crate::format::fmt_list(tv.take(i as int)),
        decreases tv.len() - i,
    {
        let ghost out0 = out@;
        let ghost t = tv[i as int];
        let it = &list.items[i];
        proof {
            assert(it@ == tv[i as int]);
        }
        out.append("[[items]]\n");
        out.append("todo = \"");
        append_escaped(&mut out, it.todo.as_str());
        out.append("\"\n");
        out.append("status = ");
        if it.status {
            out.append("true");
        } else {
            out.append("false");
        }
        out.append("\n");
        out.append("info = \"");
        append_escaped(&mut out, it.info.as_str());
        out.append("\"\n");
        proof {
            reveal_fmt();
            assert(out@ =~= out0 + crate::format::fmt_task(t));
            crate::roundtrip::lemma_fmt_list_snoc(tv.take(i as int), t);
            assert(tv.take(i as int).push(t) =~= tv.take(i + 1));
        }
        i = i + 1;
    }
    proof {
        assert(tv.take(tv.len() as int) =~= tv);
    }
    out
}

} // verus!
