use todo_cli::label::{
    all_offered, completion_options, decimal_string, is_offered, label_id, removal_options,
    selected_ids, task_label, task_line,
};
use todo_cli::task::TodoItem;

fn entry(id: usize, task: &str, completed: bool) -> TodoItem {
    TodoItem { id, task: task.to_string(), completed }
}

#[test]
fn decimal_of_small_and_large_numbers() {
    assert_eq!(decimal_string(0), "0");
    assert_eq!(decimal_string(7), "7");
    assert_eq!(decimal_string(10), "10");
    assert_eq!(decimal_string(1203), "1203");
    assert_eq!(decimal_string(usize::MAX), usize::MAX.to_string());
}

#[test]
fn a_label_shows_id_and_description() {
    assert_eq!(task_label(&entry(1, "buy milk", false)), "[1] buy milk");
    assert_eq!(task_label(&entry(42, "", true)), "[42] ");
}

#[test]
fn a_line_shows_id_state_and_description() {
    assert_eq!(task_line(&entry(1, "buy milk", false)), "[1] \u{274c} buy milk");
    assert_eq!(task_line(&entry(12, "call home", true)), "[12] \u{2705} call home");
}

#[test]
fn the_id_is_read_back_from_a_label() {
    assert_eq!(label_id("[1] buy milk"), Some(1));
    assert_eq!(label_id("[42] "), Some(42));
    assert_eq!(label_id("[007]"), Some(7));
    assert_eq!(label_id(&task_label(&entry(usize::MAX, "x", false))), Some(usize::MAX));
}

#[test]
fn a_description_cannot_change_the_id() {
    assert_eq!(label_id(&task_label(&entry(3, "[9] ] 12", false))), Some(3));
    assert_eq!(label_id(&task_label(&entry(15, "]", false))), Some(15));
    assert_eq!(label_id(&task_label(&entry(8, "\u{2705} done [1]", true))), Some(8));
}

#[test]
fn what_is_no_label_names_no_id() {
    assert_eq!(label_id(""), None);
    assert_eq!(label_id("[]"), None);
    assert_eq!(label_id("[] x"), None);
    assert_eq!(label_id("[1"), None);
    assert_eq!(label_id("1] x"), None);
    assert_eq!(label_id("x1] y"), None);
    assert_eq!(label_id("[+1] x"), None);
    assert_eq!(label_id("[-1] x"), None);
    assert_eq!(label_id("[1 ] x"), None);
    assert_eq!(label_id("[1a] x"), None);
    assert_eq!(label_id("[\u{0661}] x"), None);
}

#[test]
fn a_number_that_does_not_fit_names_no_id() {
    let too_large = format!("[{}0] x", usize::MAX);
    assert_eq!(label_id(&too_large), None);
    let next = format!("[{}] x", (usize::MAX as u128) + 1);
    assert_eq!(label_id(&next), None);
}

#[test]
fn all_tasks_are_offered_for_removal() {
    let tasks = vec![entry(1, "a", false), entry(2, "b", true)];
    assert_eq!(removal_options(&tasks), vec!["[1] a".to_string(), "[2] b".to_string()]);
    assert!(removal_options(&Vec::new()).is_empty());
}

#[test]
fn open_tasks_are_offered_for_completion() {
    let tasks = vec![entry(1, "a", true), entry(2, "b", false), entry(3, "c", true), entry(4, "d", false)];
    assert_eq!(completion_options(&tasks), vec!["[2] b".to_string(), "[4] d".to_string()]);
    assert!(completion_options(&vec![entry(1, "a", true)]).is_empty());
}

#[test]
fn picked_labels_give_their_ids() {
    let tasks = vec![entry(3, "a", false), entry(10, "b] [4]", false), entry(7, "c", false)];
    let options = removal_options(&tasks);
    assert_eq!(selected_ids(&options), Some(vec![3, 10, 7]));
    let picked = vec![options[2].clone(), options[0].clone()];
    assert_eq!(selected_ids(&picked), Some(vec![7, 3]));
    assert_eq!(selected_ids(&Vec::new()), Some(Vec::new()));
}

#[test]
fn one_bad_label_spoils_the_selection() {
    let picked = vec!["[1] a".to_string(), "2 b".to_string()];
    assert_eq!(selected_ids(&picked), None);
}

#[test]
fn a_selection_is_checked_against_what_was_offered() {
    let offered = vec!["[1] a".to_string(), "[2] b".to_string()];
    assert!(is_offered(&offered, &"[2] b".to_string()));
    assert!(!is_offered(&offered, &"[2] c".to_string()));
    assert!(all_offered(&offered, &Vec::new()));
    assert!(all_offered(&offered, &vec!["[2] b".to_string(), "[1] a".to_string()]));
    assert!(!all_offered(&offered, &vec!["[2] b".to_string(), "[3] c".to_string()]));
    assert!(!all_offered(&Vec::new(), &vec!["[1] a".to_string()]));
}
