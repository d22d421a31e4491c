use sendme_egui::progress::{ProgressBar, ProgressList};

fn bar(name: &str, current: usize, total: usize, complete: bool) -> ProgressBar {
    ProgressBar { name: name.to_string(), current, total, complete }
}

#[test]
fn new_list_is_empty() {
    let list = ProgressList::new();
    assert_eq!(list.len(), 0);
    assert!(list.bars().is_empty());
}

#[test]
fn insert_creates_an_incomplete_track() {
    let mut list = ProgressList::new();
    list.insert("a.txt".to_string(), 3, 10);
    assert_eq!(list.bars(), &vec![bar("a.txt", 3, 10, false)]);
    assert_eq!(list.len(), 1);
}

#[test]
fn insert_overwrites_position_and_keeps_completion() {
    let mut list = ProgressList::new();
    list.insert("a.txt".to_string(), 3, 10);
    list.complete("a.txt".to_string());
    list.insert("a.txt".to_string(), 7, 12);
    assert_eq!(list.bars(), &vec![bar("a.txt", 7, 12, true)]);
}

#[test]
fn insert_is_idempotent() {
    let mut once = ProgressList::new();
    once.insert("b".to_string(), 1, 2);
    once.insert("a".to_string(), 5, 9);
    let mut many = ProgressList::new();
    many.insert("b".to_string(), 1, 2);
    for _ in 0..5 {
        many.insert("a".to_string(), 5, 9);
    }
    assert_eq!(once.bars(), many.bars());
    assert_eq!(many.len(), 2);
}

#[test]
fn bars_are_displayed_in_the_order_of_their_names() {
    let mut list = ProgressList::new();
    for name in ["b/c.txt", "Export", "a.txt", "Download", "z", "a"] {
        list.insert(name.to_string(), 0, 1);
    }
    let names: Vec<&str> = list.bars().iter().map(|b| b.name.as_str()).collect();
    assert_eq!(names, vec!["Download", "Export", "a", "a.txt", "b/c.txt", "z"]);
    let mut sorted = names.clone();
    sorted.sort();
    assert_eq!(names, sorted);
}

#[test]
fn complete_marks_only_the_named_track() {
    let mut list = ProgressList::new();
    list.insert("a".to_string(), 1, 4);
    list.insert("b".to_string(), 2, 4);
    list.complete("b".to_string());
    assert_eq!(list.bars(), &vec![bar("a", 1, 4, false), bar("b", 2, 4, true)]);
}

#[test]
fn complete_of_an_unknown_track_changes_nothing() {
    let mut list = ProgressList::new();
    list.insert("a".to_string(), 1, 4);
    list.complete("zz".to_string());
    list.complete("A".to_string());
    assert_eq!(list.bars(), &vec![bar("a", 1, 4, false)]);
}

#[test]
fn finish_removes_the_named_track() {
    let mut list = ProgressList::new();
    list.insert("a".to_string(), 1, 4);
    list.insert("b".to_string(), 2, 4);
    list.insert("c".to_string(), 3, 4);
    list.finish("b".to_string());
    assert_eq!(list.bars(), &vec![bar("a", 1, 4, false), bar("c", 3, 4, false)]);
    list.finish("missing".to_string());
    assert_eq!(list.len(), 2);
}

#[test]
fn a_removed_track_starts_incomplete_again() {
    let mut list = ProgressList::new();
    list.insert("a".to_string(), 1, 4);
    list.complete("a".to_string());
    list.finish("a".to_string());
    list.insert("a".to_string(), 0, 4);
    assert_eq!(list.bars(), &vec![bar("a", 0, 4, false)]);
}

#[test]
fn clear_empties_the_list() {
    let mut list = ProgressList::new();
    list.insert("a".to_string(), 1, 4);
    list.insert("b".to_string(), 2, 4);
    list.clear();
    assert_eq!(list.len(), 0);
    assert!(list.bars().is_empty());
}

#[test]
fn filled_part_never_exceeds_the_total() {
    assert_eq!(bar("a", 3, 10, false).filled(), 3);
    assert_eq!(bar("a", 10, 10, false).filled(), 10);
    assert_eq!(bar("a", 12, 10, false).filled(), 10);
    assert_eq!(bar("a", 0, 0, false).filled(), 0);
    assert_eq!(bar("a", 5, 0, false).filled(), 0);
}
