use todotui::load_string;
use todotui::save_string;
use todotui::ActiveTodo;
use todotui::App;
use todotui::Key;
use todotui::Selection;
use todotui::TodoItem;
use todotui::TodoList;

fn item(title: &str, done: bool, desc: &str) -> TodoItem {
    TodoItem::new(done, String::from(title), String::from(desc))
}

fn list3() -> TodoList {
    TodoList { items: vec![item("a", false, "1"), item("b", true, "2"), item("c", false, "3")] }
}

fn type_str(app: &mut App, s: &str) {
    for c in s.chars() {
        app.handle_key(Key::Char(c));
    }
}

#[test]
fn selection_next_clamps_at_last() {
    let mut s = Selection::new();
    assert!(s.selected().is_none());
    s.select_next(3);
    assert_eq!(s.selected(), Some(0));
    s.select_next(3);
    s.select_next(3);
    assert_eq!(s.selected(), Some(2));
    s.select_next(3);
    assert_eq!(s.selected(), Some(2));
}

#[test]
fn selection_previous_clamps_at_first() {
    let mut s = Selection::new();
    s.select_first(3);
    assert_eq!(s.selected(), Some(0));
    s.select_previous(3);
    assert_eq!(s.selected(), Some(0));
}

#[test]
fn selection_previous_from_empty_selects_last() {
    let mut s = Selection::new();
    s.select_previous(3);
    assert_eq!(s.selected(), Some(2));
}

#[test]
fn selection_first_last_and_clear() {
    let mut s = Selection::new();
    s.select_last(4);
    assert_eq!(s.selected(), Some(3));
    s.select_first(4);
    assert_eq!(s.selected(), Some(0));
    s.select_none();
    assert!(s.selected().is_none());
}

#[test]
fn selection_ops_are_noops_on_empty_list() {
    let mut s = Selection::new();
    s.select_next(0);
    assert!(s.selected().is_none());
    s.select_previous(0);
    assert!(s.selected().is_none());
    s.select_first(0);
    assert!(s.selected().is_none());
    s.select_last(0);
    assert!(s.selected().is_none());
}

#[test]
fn delete_last_selected_moves_selection_to_new_last() {
    let mut app = App::new(list3());
    app.handle_key(Key::Char('G'));
    assert_eq!(app.selected(), Some(2));
    let persist = app.handle_key(Key::Char('x'));
    assert!(persist);
    assert_eq!(app.tasks().len(), 2);
    assert_eq!(app.selected(), Some(1));
}

#[test]
fn delete_only_task_clears_selection() {
    let mut app = App::new(TodoList { items: vec![item("only", false, "")] });
    app.handle_key(Key::Char('j'));
    assert_eq!(app.selected(), Some(0));
    let persist = app.handle_key(Key::Char('x'));
    assert!(persist);
    assert_eq!(app.tasks().len(), 0);
    assert!(app.selected().is_none());
}

#[test]
fn reconcile_shifts_selection_above_removed_slot_down() {
    let mut s = Selection::new();
    s.idx = Some(2);
    s.reconcile_after_delete(0, 2);
    assert_eq!(s.selected(), Some(1));
}

#[test]
fn reconcile_keeps_selection_below_removed_slot() {
    let mut s = Selection::new();
    s.idx = Some(0);
    s.reconcile_after_delete(2, 2);
    assert_eq!(s.selected(), Some(0));
}

#[test]
fn reconcile_keeps_empty_selection_empty() {
    let mut s = Selection::new();
    s.reconcile_after_delete(1, 2);
    assert!(s.selected().is_none());
}

#[test]
fn delete_with_no_selection_is_noop() {
    let mut app = App::new(list3());
    let persist = app.handle_key(Key::Char('x'));
    assert!(!persist);
    assert_eq!(app.tasks().len(), 3);
}

#[test]
fn toggle_twice_restores_done_flag() {
    let mut l = list3();
    assert!(!l.items[0].status);
    l.toggle(0);
    assert!(l.items[0].status);
    l.toggle(0);
    assert!(!l.items[0].status);
    assert!(l.items[1].status);
    l.toggle(1);
    l.toggle(1);
    assert!(l.items[1].status);
}

#[test]
fn toggle_out_of_range_is_noop() {
    let mut l = list3();
    l.toggle(7);
    assert_eq!(l.items.len(), 3);
    assert!(!l.items[0].status);
    assert!(l.items[1].status);
}

#[test]
fn delete_out_of_range_is_noop() {
    let mut l = list3();
    l.delete(3);
    assert_eq!(l.items.len(), 3);
}

#[test]
fn edit_preserves_done_flag_and_position() {
    let mut l = list3();
    l.edit(1, String::from("B"), String::from("two"));
    assert_eq!(l.items.len(), 3);
    assert_eq!(l.items[1].todo, "B");
    assert_eq!(l.items[1].info, "two");
    assert!(l.items[1].status);
    assert_eq!(l.items[0].todo, "a");
    assert_eq!(l.items[2].todo, "c");
}

#[test]
fn create_with_empty_title_is_rejected() {
    let mut l = TodoList::new();
    let created = l.create(String::from(""), String::from("desc"));
    assert!(!created);
    assert_eq!(l.items.len(), 0);
}

#[test]
fn create_with_whitespace_title_is_rejected() {
    let mut l = TodoList::new();
    let created = l.create(String::from("  \t "), String::from("desc"));
    assert!(!created);
    assert_eq!(l.items.len(), 0);
}

#[test]
fn create_appends_not_done_task() {
    let mut l = TodoList::new();
    let created = l.create(String::from("write tests"), String::from("soon"));
    assert!(created);
    assert_eq!(l.items.len(), 1);
    assert_eq!(l.items[0].todo, "write tests");
    assert!(!l.items[0].status);
    assert_eq!(l.items[0].info, "soon");
}

#[test]
fn modal_confirm_with_empty_title_cancels() {
    let mut app = App::new(TodoList::new());
    app.handle_key(Key::Char('a'));
    assert!(app.modal_active());
    app.handle_key(Key::Tab);
    type_str(&mut app, "desc");
    let persist = app.handle_key(Key::Enter);
    assert!(!persist);
    assert!(!app.modal_active());
    assert_eq!(app.tasks().len(), 0);
}

#[test]
fn modal_escape_discards_buffers() {
    let mut app = App::new(TodoList::new());
    app.handle_key(Key::Char('a'));
    type_str(&mut app, "half-typed");
    app.handle_key(Key::Esc);
    assert!(!app.modal_active());
    assert_eq!(app.tasks().len(), 0);
    app.handle_key(Key::Char('a'));
    assert!(app.modal_active());
    assert_eq!(app.input_title().as_str(), "");
    assert_eq!(app.input_desc().as_str(), "");
}

#[test]
fn modal_tab_switches_fields_cyclically() {
    let mut app = App::new(TodoList::new());
    app.handle_key(Key::Char('a'));
    assert!(matches!(app.active_field(), ActiveTodo::Todo));
    app.handle_key(Key::Tab);
    assert!(matches!(app.active_field(), ActiveTodo::Desc));
    app.handle_key(Key::Tab);
    assert!(matches!(app.active_field(), ActiveTodo::Todo));
}

#[test]
fn modal_backspace_edits_active_field() {
    let mut app = App::new(TodoList::new());
    app.handle_key(Key::Char('a'));
    type_str(&mut app, "abc");
    app.handle_key(Key::Backspace);
    assert_eq!(app.input_title().as_str(), "ab");
    app.handle_key(Key::Backspace);
    app.handle_key(Key::Backspace);
    app.handle_key(Key::Backspace);
    assert_eq!(app.input_title().as_str(), "");
    app.handle_key(Key::Tab);
    app.handle_key(Key::Backspace);
    assert_eq!(app.input_desc().as_str(), "");
}

#[test]
fn modal_keys_do_not_navigate() {
    let mut app = App::new(list3());
    app.handle_key(Key::Char('a'));
    app.handle_key(Key::Char('j'));
    app.handle_key(Key::Char('q'));
    assert!(app.selected().is_none());
    assert!(!app.exiting());
    assert_eq!(app.input_title().as_str(), "jq");
}

#[test]
fn quit_key_sets_exit_flag() {
    let mut app = App::new(TodoList::new());
    assert!(!app.exiting());
    app.handle_key(Key::Char('q'));
    assert!(app.exiting());
}

#[test]
fn arrow_keys_mirror_letter_keys() {
    let mut app = App::new(list3());
    app.handle_key(Key::Down);
    assert_eq!(app.selected(), Some(0));
    app.handle_key(Key::Down);
    assert_eq!(app.selected(), Some(1));
    app.handle_key(Key::Up);
    assert_eq!(app.selected(), Some(0));
    app.handle_key(Key::End);
    assert_eq!(app.selected(), Some(2));
    app.handle_key(Key::Home);
    assert_eq!(app.selected(), Some(0));
    app.handle_key(Key::Left);
    assert!(app.selected().is_none());
}

#[test]
fn end_to_end_add_toggle_delete() {
    let mut app = App::new(load_string(""));
    assert_eq!(app.tasks().len(), 0);

    app.handle_key(Key::Char('a'));
    type_str(&mut app, "Buy milk");
    app.handle_key(Key::Tab);
    type_str(&mut app, "2%");
    let persist = app.handle_key(Key::Enter);
    assert!(persist);
    assert!(!app.modal_active());
    assert_eq!(app.tasks().len(), 1);
    assert_eq!(app.tasks().get(0).todo, "Buy milk");
    assert_eq!(app.tasks().get(0).info, "2%");
    assert!(!app.tasks().get(0).status);
    let on_disk = save_string(app.tasks());
    let reloaded = load_string(&on_disk);
    assert_eq!(reloaded.items.len(), 1);
    assert_eq!(reloaded.items[0].todo, "Buy milk");

    app.handle_key(Key::Char('j'));
    let persist = app.handle_key(Key::Char('l'));
    assert!(persist);
    assert!(app.tasks().get(0).status);
    let on_disk = save_string(app.tasks());
    assert!(load_string(&on_disk).items[0].status);

    let persist = app.handle_key(Key::Char('x'));
    assert!(persist);
    assert_eq!(app.tasks().len(), 0);
    assert!(app.selected().is_none());
    let on_disk = save_string(app.tasks());
    assert_eq!(on_disk, "");
    assert_eq!(load_string(&on_disk).items.len(), 0);
}

#[test]
fn from_tuples_keeps_order_and_fields() {
    let l = TodoList::from_tuples(vec![
        (String::from("a"), true, String::from("1")),
        (String::from("b"), false, String::from("2")),
    ]);
    assert_eq!(l.items.len(), 2);
    assert_eq!(l.items[0].todo, "a");
    assert!(l.items[0].status);
    assert_eq!(l.items[1].info, "2");
    assert!(!l.items[1].status);
}

#[test]
fn unmapped_keys_change_nothing() {
    let mut app = App::new(list3());
    let persist = app.handle_key(Key::Other);
    assert!(!persist);
    let persist = app.handle_key(Key::Char('e'));
    assert!(!persist);
    assert_eq!(app.tasks().len(), 3);
    assert!(app.selected().is_none());
    assert!(!app.modal_active());
}
