use todo_cli::task::TodoItem;
use todo_cli::task_list::{
    add_task, complete_tasks, greatest_id, is_selected, list_tasks, next_id, remove_tasks,
};

fn item(id: usize, task: &str, completed: bool) -> TodoItem {
    TodoItem { id, task: task.to_string(), completed }
}

fn fields(tasks: &[TodoItem]) -> Vec<(usize, String, bool)> {
    tasks.iter().map(|t| (t.id, t.task.clone(), t.completed)).collect()
}

fn expect(rows: &[(usize, &str, bool)]) -> Vec<(usize, String, bool)> {
    rows.iter().map(|r| (r.0, r.1.to_string(), r.2)).collect()
}

#[test]
fn adding_to_the_empty_list_gives_id_one() {
    let mut tasks: Vec<TodoItem> = Vec::new();
    add_task(&mut tasks, "buy milk".to_string());
    assert_eq!(fields(&tasks), expect(&[(1, "buy milk", false)]));
}

#[test]
fn adding_gives_the_next_id() {
    let mut tasks = vec![item(1, "a", false), item(2, "b", false)];
    add_task(&mut tasks, "c".to_string());
    assert_eq!(fields(&tasks), expect(&[(1, "a", false), (2, "b", false), (3, "c", false)]));
}

#[test]
fn removing_the_selected_task_keeps_the_other() {
    let mut tasks = vec![item(1, "a", false), item(2, "b", true)];
    remove_tasks(&mut tasks, &vec![1]);
    assert_eq!(fields(&tasks), expect(&[(2, "b", true)]));
}

#[test]
fn completing_the_selected_task_leaves_the_other() {
    let mut tasks = vec![item(1, "a", false), item(2, "b", false)];
    complete_tasks(&mut tasks, &vec![2]);
    assert_eq!(fields(&tasks), expect(&[(1, "a", false), (2, "b", true)]));
}

#[test]
fn next_id_of_the_empty_list_is_one() {
    assert_eq!(next_id(&Vec::new()), 1);
    assert_eq!(greatest_id(&Vec::new()), 0);
}

#[test]
fn next_id_follows_the_greatest_id_wherever_it_stands() {
    let tasks = vec![item(7, "a", false), item(3, "b", false), item(5, "c", true)];
    assert_eq!(greatest_id(&tasks), 7);
    assert_eq!(next_id(&tasks), 8);
}

#[test]
fn an_id_is_not_given_out_again_after_the_last_task_left() {
    let mut tasks = vec![item(1, "a", false), item(2, "b", false), item(3, "c", false)];
    remove_tasks(&mut tasks, &vec![2]);
    add_task(&mut tasks, "d".to_string());
    assert_eq!(fields(&tasks), expect(&[(1, "a", false), (3, "c", false), (4, "d", false)]));
}

#[test]
fn the_id_after_an_addition_is_new_to_the_list() {
    let before = vec![item(4, "a", false), item(9, "b", true), item(2, "c", false)];
    let mut tasks = vec![item(4, "a", false), item(9, "b", true), item(2, "c", false)];
    add_task(&mut tasks, "x".to_string());
    remove_tasks(&mut tasks, &Vec::new());
    let id = next_id(&tasks);
    assert_eq!(id, 11);
    assert!(before.iter().all(|t| t.id != id));
}

#[test]
fn a_description_is_taken_as_it_is() {
    let mut tasks: Vec<TodoItem> = Vec::new();
    add_task(&mut tasks, "".to_string());
    add_task(&mut tasks, "   ".to_string());
    assert_eq!(fields(&tasks), expect(&[(1, "", false), (2, "   ", false)]));
}

#[test]
fn completing_twice_is_completing_once() {
    let mut once = vec![item(1, "a", false), item(2, "b", true), item(3, "c", false)];
    let mut twice = vec![item(1, "a", false), item(2, "b", true), item(3, "c", false)];
    let ids = vec![2, 3, 8];
    complete_tasks(&mut once, &ids);
    complete_tasks(&mut twice, &ids);
    complete_tasks(&mut twice, &ids);
    assert_eq!(fields(&once), expect(&[(1, "a", false), (2, "b", true), (3, "c", true)]));
    assert_eq!(fields(&twice), fields(&once));
}

#[test]
fn removing_nothing_leaves_the_list() {
    let mut tasks = vec![item(1, "a", false), item(2, "b", true)];
    remove_tasks(&mut tasks, &Vec::new());
    assert_eq!(fields(&tasks), expect(&[(1, "a", false), (2, "b", true)]));
}

#[test]
fn removing_every_id_leaves_the_empty_list() {
    let mut tasks = vec![item(1, "a", false), item(2, "b", true), item(5, "c", false)];
    remove_tasks(&mut tasks, &vec![5, 1, 2]);
    assert!(tasks.is_empty());
}

#[test]
fn ids_of_no_task_are_ignored() {
    let mut tasks = vec![item(1, "a", false), item(2, "b", false)];
    remove_tasks(&mut tasks, &vec![3, 40]);
    complete_tasks(&mut tasks, &vec![0, 77]);
    assert_eq!(fields(&tasks), expect(&[(1, "a", false), (2, "b", false)]));
}

#[test]
fn an_id_named_twice_counts_once() {
    let mut tasks = vec![item(1, "a", false), item(2, "b", false), item(3, "c", false)];
    remove_tasks(&mut tasks, &vec![2, 2]);
    complete_tasks(&mut tasks, &vec![3, 3]);
    assert_eq!(fields(&tasks), expect(&[(1, "a", false), (3, "c", true)]));
}

#[test]
fn removing_neighbours_keeps_the_order_of_the_rest() {
    let mut tasks = vec![
        item(1, "a", false),
        item(2, "b", false),
        item(3, "c", true),
        item(4, "d", false),
        item(5, "e", true),
    ];
    remove_tasks(&mut tasks, &vec![3, 2, 5]);
    assert_eq!(fields(&tasks), expect(&[(1, "a", false), (4, "d", false)]));
}

#[test]
fn listing_gives_the_tasks_in_order() {
    let tasks = vec![item(2, "b", true), item(1, "a", false)];
    assert_eq!(fields(list_tasks(&tasks)), expect(&[(2, "b", true), (1, "a", false)]));
    assert!(list_tasks(&Vec::new()).is_empty());
}

#[test]
fn a_selection_names_what_it_holds() {
    let ids = vec![4, 9];
    assert!(is_selected(&ids, 4));
    assert!(is_selected(&ids, 9));
    assert!(!is_selected(&ids, 5));
    assert!(!is_selected(&Vec::new(), 4));
}

#[test]
fn the_greatest_id_that_fits_can_be_held() {
    let tasks = vec![item(usize::MAX - 1, "a", false)];
    assert_eq!(next_id(&tasks), usize::MAX);
}
