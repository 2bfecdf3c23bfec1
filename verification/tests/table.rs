use todo_list::{add_todo, display_todo_list, remove_todo, Task, TaskTable, TodoError};

fn names(table: &TaskTable) -> Vec<String> {
    table.list_all().into_iter().map(|task| task.name).collect()
}

fn ids(table: &TaskTable) -> Vec<i32> {
    table.list_all().into_iter().map(|task| task.id).collect()
}

#[test]
fn new_table_lists_nothing_and_shows_only_the_header() {
    let table = TaskTable::new();
    assert_eq!(table.list_all(), Vec::<Task>::new());
    assert_eq!(display_todo_list(&table.list_all()), vec![String::from("Todo items:")]);
}

#[test]
fn insert_gives_ids_in_order_from_one() {
    let mut table = TaskTable::new();
    assert_eq!(table.insert("a"), Ok(()));
    assert_eq!(table.insert("b"), Ok(()));
    assert_eq!(table.insert("c"), Ok(()));
    assert_eq!(
        table.list_all(),
        vec![
            Task::new(1, String::from("a")),
            Task::new(2, String::from("b")),
            Task::new(3, String::from("c")),
        ]
    );
}

#[test]
fn add_lengthens_the_listing_by_the_new_task_at_the_end() {
    let mut table = TaskTable::new();
    add_todo(&mut table, "first").unwrap();
    add_todo(&mut table, "second").unwrap();
    let before = table.list_all();
    assert_eq!(add_todo(&mut table, "third"), Ok(String::from("Todo item added: third")));
    let after = table.list_all();
    assert_eq!(after.len(), before.len() + 1);
    assert_eq!(&after[..before.len()], &before[..]);
    assert_eq!(after[before.len()].name, "third");
    let shown = display_todo_list(&after);
    assert_eq!(shown[shown.len() - 1], "3: third");
}

#[test]
fn add_takes_an_empty_name() {
    let mut table = TaskTable::new();
    assert_eq!(add_todo(&mut table, ""), Ok(String::from("Todo item added: ")));
    assert_eq!(table.list_all(), vec![Task::new(1, String::new())]);
    assert_eq!(display_todo_list(&table.list_all())[1], "1: ");
}

#[test]
fn delete_removes_the_row_with_that_id_and_counts_it() {
    let mut table = TaskTable::new();
    table.insert("a").unwrap();
    table.insert("b").unwrap();
    table.insert("c").unwrap();
    assert_eq!(table.delete(2), 1);
    assert_eq!(
        table.list_all(),
        vec![Task::new(1, String::from("a")), Task::new(3, String::from("c"))]
    );
}

#[test]
fn delete_of_an_absent_id_removes_nothing() {
    let mut table = TaskTable::new();
    table.insert("a").unwrap();
    table.insert("b").unwrap();
    let before = table.list_all();
    assert_eq!(table.delete(3), 0);
    assert_eq!(table.delete(0), 0);
    assert_eq!(table.delete(-1), 0);
    assert_eq!(table.list_all(), before);
    assert_eq!(table.delete(1), 1);
    assert_eq!(table.delete(1), 0);
}

#[test]
fn ids_are_not_given_out_again() {
    let mut table = TaskTable::new();
    table.insert("a").unwrap();
    table.insert("b").unwrap();
    assert_eq!(table.delete(2), 1);
    table.insert("c").unwrap();
    assert_eq!(ids(&table), vec![1, 3]);
    assert_eq!(table.delete(1), 1);
    assert_eq!(table.delete(3), 1);
    table.insert("d").unwrap();
    assert_eq!(table.list_all(), vec![Task::new(4, String::from("d"))]);
}

#[test]
fn done_first_of_two_leaves_the_second_at_position_one() {
    let mut table = TaskTable::new();
    add_todo(&mut table, "A").unwrap();
    add_todo(&mut table, "B").unwrap();
    assert_eq!(remove_todo(&mut table, "1"), Ok(1));
    assert_eq!(table.list_all(), vec![Task::new(2, String::from("B"))]);
    assert_eq!(
        display_todo_list(&table.list_all()),
        vec![String::from("Todo items:"), String::from("1: B")]
    );
}

#[test]
fn done_beyond_the_count_removes_nothing() {
    let mut table = TaskTable::new();
    add_todo(&mut table, "A").unwrap();
    add_todo(&mut table, "B").unwrap();
    let before = table.list_all();
    assert_eq!(remove_todo(&mut table, "3"), Err(TodoError::PositionNotFound));
    assert_eq!(remove_todo(&mut table, "100"), Err(TodoError::PositionNotFound));
    assert_eq!(table.list_all(), before);
    let mut nothing = TaskTable::new();
    assert_eq!(remove_todo(&mut nothing, "1"), Err(TodoError::PositionNotFound));
    assert_eq!(nothing.list_all(), Vec::<Task>::new());
}

#[test]
fn done_with_a_position_that_is_no_number_removes_nothing() {
    let mut table = TaskTable::new();
    add_todo(&mut table, "A").unwrap();
    add_todo(&mut table, "B").unwrap();
    let before = table.list_all();
    assert_eq!(remove_todo(&mut table, "abc"), Err(TodoError::InvalidPosition));
    assert_eq!(remove_todo(&mut table, ""), Err(TodoError::InvalidPosition));
    assert_eq!(remove_todo(&mut table, "0"), Err(TodoError::InvalidPosition));
    assert_eq!(remove_todo(&mut table, "-1"), Err(TodoError::InvalidPosition));
    assert_eq!(remove_todo(&mut table, "1st"), Err(TodoError::InvalidPosition));
    assert_eq!(table.list_all(), before);
}

#[test]
fn done_in_the_middle_moves_later_tasks_up() {
    let mut table = TaskTable::new();
    for name in ["a", "b", "c", "d"] {
        add_todo(&mut table, name).unwrap();
    }
    assert_eq!(remove_todo(&mut table, "2"), Ok(1));
    assert_eq!(names(&table), vec!["a", "c", "d"]);
    assert_eq!(ids(&table), vec![1, 3, 4]);
    assert_eq!(remove_todo(&mut table, "3"), Ok(1));
    assert_eq!(names(&table), vec!["a", "c"]);
    assert_eq!(remove_todo(&mut table, "3"), Err(TodoError::PositionNotFound));
}

#[test]
fn adding_tasks_and_marking_the_first_done_as_often_empties_the_table() {
    for count in [0usize, 1, 2, 5, 40] {
        let mut table = TaskTable::new();
        for i in 0..count {
            add_todo(&mut table, &format!("task {}", i)).unwrap();
        }
        assert_eq!(table.list_all().len(), count);
        for left in (0..count).rev() {
            assert_eq!(remove_todo(&mut table, "1"), Ok(1));
            assert_eq!(table.list_all().len(), left);
        }
        assert_eq!(table.list_all(), Vec::<Task>::new());
        assert_eq!(remove_todo(&mut table, "1"), Err(TodoError::PositionNotFound));
    }
}

#[test]
fn list_all_hands_out_tasks_of_its_own() {
    let mut table = TaskTable::new();
    table.insert("a").unwrap();
    let mut listing = table.list_all();
    listing[0].name.push_str(" changed");
    listing.clear();
    assert_eq!(table.list_all(), vec![Task::new(1, String::from("a"))]);
}

#[test]
fn a_listing_with_ascending_ids_is_a_table() {
    let listing = vec![Task::new(2, String::from("b")), Task::new(5, String::from("e"))];
    let mut table = TaskTable::from_listing(listing.clone()).unwrap();
    assert_eq!(table.list_all(), listing);
    table.insert("f").unwrap();
    assert_eq!(ids(&table), vec![2, 5, 6]);
    let empty = TaskTable::from_listing(Vec::new()).unwrap();
    assert_eq!(empty.list_all(), Vec::<Task>::new());
}

#[test]
fn a_listing_out_of_order_is_no_table() {
    let both = |a: i32, b: i32| vec![Task::new(a, String::from("a")), Task::new(b, String::from("b"))];
    assert!(TaskTable::from_listing(both(2, 1)).is_none());
    assert!(TaskTable::from_listing(both(3, 3)).is_none());
    assert!(TaskTable::from_listing(both(0, 1)).is_none());
    assert!(TaskTable::from_listing(both(-4, 2)).is_none());
    assert!(TaskTable::from_listing(vec![Task::new(0, String::new())]).is_none());
    assert!(TaskTable::from_listing(both(1, 2)).is_some());
    assert!(TaskTable::from_listing(both(1, i32::MAX)).is_some());
}

#[test]
fn a_table_whose_ids_are_used_up_takes_no_more_tasks() {
    let listing = vec![Task::new(i32::MAX, String::from("last"))];
    let mut table = TaskTable::from_listing(listing.clone()).unwrap();
    assert_eq!(table.insert("one more"), Err(TodoError::WriteFailed));
    assert_eq!(add_todo(&mut table, "one more"), Err(TodoError::WriteFailed));
    assert_eq!(table.list_all(), listing);
    assert_eq!(remove_todo(&mut table, "1"), Ok(1));
    assert_eq!(add_todo(&mut table, "one more"), Err(TodoError::WriteFailed));
    assert_eq!(table.list_all(), Vec::<Task>::new());

    let mut nearly = TaskTable::from_listing(vec![Task::new(i32::MAX - 1, String::from("x"))]).unwrap();
    assert_eq!(add_todo(&mut nearly, "fits"), Ok(String::from("Todo item added: fits")));
    assert_eq!(ids(&nearly), vec![i32::MAX - 1, i32::MAX]);
    assert_eq!(add_todo(&mut nearly, "does not"), Err(TodoError::WriteFailed));
}
