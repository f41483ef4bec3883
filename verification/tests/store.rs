use todo_list::store::TodoList;
use todo_list::todo::Todo;

fn record(id: usize, title: &str, completed: bool) -> Todo {
    Todo { id, title: title.to_string(), completed }
}

#[test]
fn new_store_is_empty() {
    let list = TodoList::new();
    assert!(list.list().is_empty());
    assert!(list.read(1).is_none());
}

#[test]
fn creates_number_records_from_one() {
    let mut list = TodoList::new();
    let titles = ["first", "second", "third", "fourth", "fifth"];
    for (k, title) in titles.iter().enumerate() {
        let todo = list.create(title.to_string());
        assert_eq!(todo.id, k + 1);
        assert_eq!(todo.title, *title);
        assert!(!todo.completed);
    }
    let ids: Vec<usize> = list.list().iter().map(|t| t.id).collect();
    assert_eq!(ids, vec![1, 2, 3, 4, 5]);
    let stored: Vec<&str> = list.list().iter().map(|t| t.title.as_str()).collect();
    assert_eq!(stored, titles.to_vec());
}

#[test]
fn create_accepts_an_empty_title() {
    let mut list = TodoList::new();
    let todo = list.create(String::new());
    assert_eq!(*todo, record(1, "", false));
    assert_eq!(list.list(), &vec![record(1, "", false)]);
}

#[test]
fn create_hands_out_the_stored_record() {
    let mut list = TodoList::new();
    list.create("A".to_string());
    let made = list.create("B".to_string()).clone();
    assert_eq!(made, record(2, "B", false));
    assert_eq!(list.list().last(), Some(&made));
}

#[test]
fn read_finds_what_create_made() {
    let mut list = TodoList::new();
    list.create("A".to_string());
    list.create("B".to_string());
    assert_eq!(list.read(1), Some(&record(1, "A", false)));
    assert_eq!(list.read(2), Some(&record(2, "B", false)));
}

#[test]
fn read_finds_what_update_made() {
    let mut list = TodoList::new();
    list.create("A".to_string());
    list.create("B".to_string());
    list.update(2, Some("B2".to_string()), Some(true));
    assert_eq!(list.read(2), Some(&record(2, "B2", true)));
    list.update(2, None, Some(false));
    assert_eq!(list.read(2), Some(&record(2, "B2", false)));
    assert_eq!(list.read(1), Some(&record(1, "A", false)));
}

#[test]
fn read_of_an_id_never_created_finds_nothing() {
    let mut list = TodoList::new();
    list.create("A".to_string());
    assert!(list.read(0).is_none());
    assert!(list.read(2).is_none());
    assert!(list.read(usize::MAX).is_none());
}

#[test]
fn read_changes_nothing() {
    let mut list = TodoList::new();
    list.create("A".to_string());
    list.create("B".to_string());
    let before = list.list().clone();
    list.read(1);
    list.read(7);
    assert_eq!(list.list(), &before);
}

#[test]
fn update_replaces_the_title_only() {
    let mut list = TodoList::new();
    list.create("A".to_string());
    let updated = list.update(1, Some("A2".to_string()), None).cloned();
    assert_eq!(updated, Some(record(1, "A2", false)));
    assert_eq!(list.list(), &vec![record(1, "A2", false)]);
}

#[test]
fn update_replaces_the_flag_only() {
    let mut list = TodoList::new();
    list.create("A".to_string());
    let updated = list.update(1, None, Some(true)).cloned();
    assert_eq!(updated, Some(record(1, "A", true)));
    assert_eq!(list.list(), &vec![record(1, "A", true)]);
}

#[test]
fn update_replaces_both_fields() {
    let mut list = TodoList::new();
    list.create("A".to_string());
    list.create("B".to_string());
    let updated = list.update(2, Some(String::new()), Some(true)).cloned();
    assert_eq!(updated, Some(record(2, "", true)));
    assert_eq!(list.list(), &vec![record(1, "A", false), record(2, "", true)]);
}

#[test]
fn update_with_nothing_given_changes_nothing() {
    let mut list = TodoList::new();
    list.create("A".to_string());
    list.create("B".to_string());
    list.update(2, None, Some(true));
    let before = list.list().clone();
    let updated = list.update(2, None, None).cloned();
    assert_eq!(updated, Some(record(2, "B", true)));
    assert_eq!(list.list(), &before);
}

#[test]
fn update_of_an_absent_id_changes_nothing() {
    let mut list = TodoList::new();
    list.create("A".to_string());
    list.create("B".to_string());
    let before = list.list().clone();
    assert!(list.update(3, Some("X".to_string()), Some(true)).is_none());
    assert!(list.update(0, Some("X".to_string()), None).is_none());
    assert_eq!(list.list(), &before);
}

#[test]
fn delete_then_read_finds_nothing() {
    let mut list = TodoList::new();
    list.create("A".to_string());
    list.create("B".to_string());
    list.create("C".to_string());
    assert!(list.delete(2));
    assert!(list.read(2).is_none());
    assert!(!list.delete(2));
}

#[test]
fn delete_keeps_the_order_of_the_rest() {
    let mut list = TodoList::new();
    list.create("A".to_string());
    list.create("B".to_string());
    list.create("C".to_string());
    list.create("D".to_string());
    assert!(list.delete(2));
    assert_eq!(
        list.list(),
        &vec![record(1, "A", false), record(3, "C", false), record(4, "D", false)]
    );
    assert!(list.delete(1));
    assert_eq!(list.list(), &vec![record(3, "C", false), record(4, "D", false)]);
    assert!(list.delete(4));
    assert_eq!(list.list(), &vec![record(3, "C", false)]);
}

#[test]
fn delete_of_an_absent_id_changes_nothing() {
    let mut list = TodoList::new();
    list.create("A".to_string());
    list.create("B".to_string());
    let before = list.list().clone();
    assert!(!list.delete(3));
    assert!(!list.delete(0));
    assert_eq!(list.list(), &before);
}

#[test]
fn delete_on_an_empty_store_removes_nothing() {
    let mut list = TodoList::new();
    assert!(!list.delete(1));
    assert!(list.list().is_empty());
}

#[test]
fn ids_follow_the_count_after_a_delete() {
    let mut list = TodoList::new();
    assert_eq!(list.create("A".to_string()).id, 1);
    assert_eq!(list.create("B".to_string()).id, 2);
    assert!(list.delete(1));
    assert_eq!(list.create("C".to_string()).id, 2);
    assert_eq!(list.list().len(), 2);
    assert_eq!(list.list(), &vec![record(2, "B", false), record(2, "C", false)]);
}

#[test]
fn a_shared_id_leads_to_the_earliest_record() {
    let mut list = TodoList::new();
    list.create("A".to_string());
    list.create("B".to_string());
    list.delete(1);
    list.create("C".to_string());
    assert_eq!(list.read(2), Some(&record(2, "B", false)));
    let updated = list.update(2, None, Some(true)).cloned();
    assert_eq!(updated, Some(record(2, "B", true)));
    assert_eq!(list.list(), &vec![record(2, "B", true), record(2, "C", false)]);
    assert!(list.delete(2));
    assert_eq!(list.read(2), Some(&record(2, "C", false)));
    assert_eq!(list.list(), &vec![record(2, "C", false)]);
}

#[test]
fn no_id_is_below_its_position() {
    let mut list = TodoList::new();
    for title in ["A", "B", "C", "D", "E"] {
        list.create(title.to_string());
    }
    list.delete(2);
    list.delete(4);
    list.create("F".to_string());
    list.delete(1);
    list.create("G".to_string());
    for (position, todo) in list.list().iter().enumerate() {
        assert!(todo.id >= position + 1);
    }
}

#[test]
fn buy_milk_and_walk_dog() {
    let mut list = TodoList::new();
    let milk = list.create("Buy milk".to_string());
    assert_eq!(milk.id, 1);
    assert!(!milk.completed);
    let dog = list.create("Walk dog".to_string());
    assert_eq!(dog.id, 2);
    let updated = list.update(1, None, Some(true)).cloned();
    assert_eq!(updated, Some(record(1, "Buy milk", true)));
    assert!(list.delete(2));
    assert!(list.read(2).is_none());
    assert_eq!(list.list(), &vec![record(1, "Buy milk", true)]);
}
