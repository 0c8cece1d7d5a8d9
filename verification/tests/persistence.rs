use todotui::load_string;
use todotui::load_string_report;
use todotui::save_string;
use todotui::TodoItem;
use todotui::TodoList;

fn item(title: &str, done: bool, desc: &str) -> TodoItem {
    TodoItem::new(done, String::from(title), String::from(desc))
}

fn assert_lists_equal(a: &TodoList, b: &TodoList) {
    assert_eq!(a.items.len(), b.items.len());
    for i in 0..a.items.len() {
        assert_eq!(a.items[i].todo, b.items[i].todo);
        assert_eq!(a.items[i].status, b.items[i].status);
        assert_eq!(a.items[i].info, b.items[i].info);
    }
}

#[test]
fn round_trip_empty_list() {
    let l = TodoList::new();
    let text = save_string(&l);
    assert_eq!(text, "");
    let l2 = load_string(&text);
    assert_eq!(l2.items.len(), 0);
}

#[test]
fn round_trip_two_tasks() {
    let l = TodoList { items: vec![item("Buy milk", false, "2%"), item("Call home", true, "")] };
    let l2 = load_string(&save_string(&l));
    assert_lists_equal(&l, &l2);
}

#[test]
fn round_trip_special_characters() {
    let l = TodoList {
        items: vec![
            item("a\"b\\c\nd", false, "tab\there"),
            item("line\r\nbreak", true, "back\\slash \"quoted\""),
            item("unicode \u{e9}\u{4e16}\u{754c}", false, "emoji \u{1f600}"),
        ],
    };
    let l2 = load_string(&save_string(&l));
    assert_lists_equal(&l, &l2);
}

#[test]
fn save_writes_exact_format() {
    let l = TodoList { items: vec![item("Buy milk", false, "2%")] };
    let text = save_string(&l);
    assert_eq!(text, "[[items]]\ntodo = \"Buy milk\"\nstatus = false\ninfo = \"2%\"\n");
}

#[test]
fn save_escapes_values() {
    let l = TodoList { items: vec![item("a\"b", true, "c\\d\ne")] };
    let text = save_string(&l);
    assert_eq!(text, "[[items]]\ntodo = \"a\\\"b\"\nstatus = true\ninfo = \"c\\\\d\\ne\"\n");
}

#[test]
fn load_empty_text_gives_empty_list() {
    let l = load_string("");
    assert_eq!(l.items.len(), 0);
}

#[test]
fn load_blank_lines_only_gives_empty_list() {
    let l = load_string("\n   \n\t\n");
    assert_eq!(l.items.len(), 0);
}

#[test]
fn load_tolerates_padding_and_blank_lines() {
    let text = "\n  [[items]]  \n  todo   =  \"a\"  \n\n status = true \n info = \"b\"\n\n";
    let l = load_string(text);
    assert_eq!(l.items.len(), 1);
    assert_eq!(l.items[0].todo, "a");
    assert!(l.items[0].status);
    assert_eq!(l.items[0].info, "b");
}

#[test]
fn load_tolerates_crlf_line_endings() {
    let text = "[[items]]\r\ntodo = \"a\"\r\nstatus = false\r\ninfo = \"b\"\r\n";
    let l = load_string(text);
    assert_eq!(l.items.len(), 1);
    assert_eq!(l.items[0].todo, "a");
    assert_eq!(l.items[0].info, "b");
}

#[test]
fn load_accepts_any_field_order() {
    let text = "[[items]]\nstatus = true\ninfo = \"b\"\ntodo = \"a\"\n";
    let l = load_string(text);
    assert_eq!(l.items.len(), 1);
    assert_eq!(l.items[0].todo, "a");
    assert!(l.items[0].status);
    assert_eq!(l.items[0].info, "b");
}

#[test]
fn load_accepts_missing_final_newline() {
    let text = "[[items]]\ntodo = \"a\"\nstatus = false\ninfo = \"b\"";
    let l = load_string(text);
    assert_eq!(l.items.len(), 1);
    assert_eq!(l.items[0].info, "b");
}

#[test]
fn load_garbage_gives_empty_list() {
    assert_eq!(load_string("couldnt read toml").items.len(), 0);
    assert_eq!(load_string("{\"json\": true}").items.len(), 0);
}

#[test]
fn load_field_before_header_gives_empty_list() {
    let l = load_string("todo = \"a\"\n[[items]]\nstatus = false\ninfo = \"b\"\n");
    assert_eq!(l.items.len(), 0);
}

#[test]
fn load_incomplete_record_gives_empty_list() {
    let l = load_string("[[items]]\ntodo = \"a\"\nstatus = false\n");
    assert_eq!(l.items.len(), 0);
}

#[test]
fn load_duplicate_field_gives_empty_list() {
    let text = "[[items]]\ntodo = \"a\"\ntodo = \"b\"\nstatus = false\ninfo = \"c\"\n";
    assert_eq!(load_string(text).items.len(), 0);
}

#[test]
fn load_unterminated_quote_gives_empty_list() {
    let l = load_string("[[items]]\ntodo = \"a\nstatus = false\ninfo = \"b\"\n");
    assert_eq!(l.items.len(), 0);
}

#[test]
fn load_unknown_escape_gives_empty_list() {
    let l = load_string("[[items]]\ntodo = \"a\\q\"\nstatus = false\ninfo = \"b\"\n");
    assert_eq!(l.items.len(), 0);
}

#[test]
fn load_bad_status_value_gives_empty_list() {
    let l = load_string("[[items]]\ntodo = \"a\"\nstatus = maybe\ninfo = \"b\"\n");
    assert_eq!(l.items.len(), 0);
}

#[test]
fn load_one_bad_record_discards_all() {
    let good = "[[items]]\ntodo = \"a\"\nstatus = false\ninfo = \"b\"\n";
    let bad = "[[items]]\ntodo = \"c\"\n";
    let mut text = String::from(good);
    text.push_str(bad);
    assert_eq!(load_string(&text).items.len(), 0);
}

#[test]
fn round_trip_after_mutations() {
    let mut l = TodoList { items: vec![item("a", false, "1"), item("b", false, "2")] };
    l.toggle(1);
    l.edit(0, String::from("a2"), String::from("1b"));
    let l2 = load_string(&save_string(&l));
    assert_lists_equal(&l, &l2);
}

#[test]
fn load_report_flags_malformed_content() {
    let (l, ok) = load_string_report("not the format");
    assert!(!ok);
    assert_eq!(l.items.len(), 0);
    let (l, ok) = load_string_report("[[items]]\ntodo = \"a\"\nstatus = false\ninfo = \"b\"\n");
    assert!(ok);
    assert_eq!(l.items.len(), 1);
    let (l, ok) = load_string_report("");
    assert!(ok);
    assert_eq!(l.items.len(), 0);
}
