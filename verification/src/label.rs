//! The text under which a task is shown, and the way back from a label
//! that was picked to the task's identifier.
//!
//! A label is the identifier in decimal between square brackets, a space
//! and the description. The identifier is read back from what stands
//! between the opening bracket and the first closing one, so nothing in a
//! description can change it.

use vstd::prelude::*;
use vstd::string::*;
use crate::task::{list_view, TaskView, TodoItem};

verus! {

/// The character of a decimal digit.
pub open spec fn digit(d: nat) -> char
    recommends
        d < 10,
{
    seq!['0', '1', '2', '3', '4', '5', '6', '7', '8', '9'][d as int]
}

/// The decimal form of a number: no sign, and no leading zero but for 0
/// itself.
pub open spec fn decimal(n: nat) -> Seq<char>
    decreases n,
{
    if n < 10 {
        seq![digit(n)]
    } else {
        decimal(n / 10).push(digit(n % 10))
    }
}

/// Whether the character is a decimal digit.
pub open spec fn is_digit(c: char) -> bool {
    '0' <= c <= '9'
}

/// The number that a decimal digit stands for.
pub open spec fn digit_value(c: char) -> nat
    recommends
        is_digit(c),
{
    (c as u32 - '0' as u32) as nat
}

/// Whether the text is made of decimal digits alone.
pub open spec fn all_digits(s: Seq<char>) -> bool {
    forall|i: int| 0 <= i < s.len() ==> is_digit(#[trigger] s[i])
}

/// The number that a text of decimal digits stands for, 0 for the empty
/// text. Leading zeros count for nothing.
pub open spec fn digits_value(s: Seq<char>) -> nat
    decreases s.len(),
{
    if s.len() == 0 {
        0
    } else {
        digits_value(s.drop_last()) * 10 + digit_value(s.last())
    }
}

/// The label of a task.
pub open spec fn label_of(t: TaskView) -> Seq<char> {
    seq!['['] + decimal(t.id) + seq![']', ' '] + t.task
}

/// The mark of a completed task.
pub open spec fn done_mark() -> Seq<char> {
    seq!['\u{2705}']
}

/// The mark of a task that is still to be done.
pub open spec fn open_mark() -> Seq<char> {
    seq!['\u{274c}']
}

/// The line that lists a task: the identifier in brackets, the mark of its
/// state and the description, with a space between them.
pub open spec fn line_of(t: TaskView) -> Seq<char> {
    seq!['['] + decimal(t.id) + seq![']', ' '] + (if t.completed {
        done_mark()
    } else {
        open_mark()
    }) + seq![' '] + t.task
}

/// The label opens with a bracket, and its first closing bracket stands at
/// `close`, after one or more digits that give a number within `usize`.
pub open spec fn closes_at(label: Seq<char>, close: int) -> bool {
    &&& 2 <= close < label.len()
    &&& label[0] == '['
    &&& label[close] == ']'
    &&& all_digits(label.subrange(1, close))
    &&& digits_value(label.subrange(1, close)) <= usize::MAX
}

/// The identifier that a label names, if it has the form of a label.
pub open spec fn labelled_id(label: Seq<char>) -> Option<nat> {
    if exists|close: int| closes_at(label, close) {
        let close = choose|close: int| closes_at(label, close);
        Some(digits_value(label.subrange(1, close)))
    } else {
        None
    }
}

/// The texts of a sequence of strings.
pub open spec fn texts(strings: Seq<String>) -> Seq<Seq<char>> {
    strings.map_values(|s: String| s@)
}

/// The labels of all tasks of the list, in list order.
pub open spec fn labels_of(list: Seq<TaskView>) -> Seq<Seq<char>> {
    list.map_values(|t: TaskView| label_of(t))
}

/// The test that a task passes if it is still to be done.
pub open spec fn is_open() -> spec_fn(TaskView) -> bool {
    |t: TaskView| !t.completed
}

/// The identifiers that the labels name, if every one of them has the form
/// of a label.
pub open spec fn labelled_ids(labels: Seq<Seq<char>>) -> Option<Seq<nat>> {
    if forall|i: int| 0 <= i < labels.len() ==> labelled_id(#[trigger] labels[i]) is Some {
        Some(labels.map_values(|label: Seq<char>| labelled_id(label).unwrap()))
    } else {
        None
    }
}

/// The decimal form is made of digits, one at least, and stands for the
/// number it was made from.
pub proof fn lemma_decimal(n: nat)
    ensures
        decimal(n).len() >= 1,
        all_digits(decimal(n)),
        digits_value(decimal(n)) == n,
    decreases n,
{
    if n < 10 {
        assert(digits_value(decimal(n).drop_last()) == 0);
    } else {
        lemma_decimal(n / 10);
        assert(decimal(n).drop_last() =~= decimal(n / 10));
    }
}

/// In a text of digits, the digits up to any place stand for no more than
/// the whole text does.
pub proof fn lemma_digits_value_grows(s: Seq<char>, upto: int)
    requires
        0 <= upto <= s.len(),
    ensures
        digits_value(s.take(upto)) <= digits_value(s),
    decreases s.len() - upto,
{
    if upto == s.len() {
        assert(s.take(upto) =~= s);
    } else {
        lemma_digits_value_grows(s, upto + 1);
        assert(s.take(upto + 1).drop_last() =~= s.take(upto));
    }
}

/// A label has one reading at most: two places that close it are the same
/// place.
pub proof fn lemma_closes_once(label: Seq<char>, a: int, b: int)
    requires
        closes_at(label, a),
        closes_at(label, b),
    ensures
        a == b,
{
    if a < b {
        assert(label.subrange(1, b)[a - 1] == label[a]);
    } else if b < a {
        assert(label.subrange(1, a)[b - 1] == label[b]);
    }
}

/// The label of a task names the task's identifier, whatever the
/// description holds.
pub proof fn lemma_label_names_its_task(t: TaskView)
    requires
        t.id <= usize::MAX,
    ensures
        labelled_id(label_of(t)) == Some(t.id),
{
    let label = label_of(t);
    let close = decimal(t.id).len() as int + 1;
    lemma_decimal(t.id);
    assert(label.subrange(1, close) =~= decimal(t.id));
    assert(closes_at(label, close));
    let chosen = choose|close: int| closes_at(label, close);
    lemma_closes_once(label, close, chosen);
}

/// The text of one decimal digit.
fn digit_text(d: usize) -> (text: &'static str)
    requires
        d < 10,
    ensures
        text@ == seq![digit(d as nat)],
{
    proof {
        reveal_strlit("0");
        reveal_strlit("1");
        reveal_strlit("2");
        reveal_strlit("3");
        reveal_strlit("4");
        reveal_strlit("5");
        reveal_strlit("6");
        reveal_strlit("7");
        reveal_strlit("8");
        reveal_strlit("9");
    }
    if d == 0 {
        "0"
    } else if d == 1 {
        "1"
    } else if d == 2 {
        "2"
    } else if d == 3 {
        "3"
    } else if d == 4 {
        "4"
    } else if d == 5 {
        "5"
    } else if d == 6 {
        "6"
    } else if d == 7 {
        "7"
    } else if d == 8 {
        "8"
    } else {
        "9"
    }
}

/// The number in decimal.
pub fn decimal_string(n: usize) -> (text: String)
    ensures
        text@ == decimal(n as nat),
    decreases n,
{
    if n < 10 {
        String::from_str(digit_text(n))
    } else {
        let mut text = decimal_string(n / 10);
        text.append(digit_text(n % 10));
        text
    }
}

/// The label under which a task is offered for selection.
pub fn task_label(item: &TodoItem) -> (label: String)
    ensures
        label@ == label_of(item@),
        labelled_id(label@) == Some(item.id as nat),
{
    proof {
        reveal_strlit("[");
        reveal_strlit("] ");
        lemma_label_names_its_task(item@);
    }
    let mut label = String::from_str("[");
    label.append(decimal_string(item.id).as_str());
    label.append("] ");
    label.append(item.task.as_str());
    label
}

/// The line that shows a task in a listing.
pub fn task_line(item: &TodoItem) -> (line: String)
    ensures
        line@ == line_of(item@),
{
    proof {
        reveal_strlit("[");
        reveal_strlit("] ");
        reveal_strlit(" ");
        reveal_strlit("\u{2705}");
        reveal_strlit("\u{274c}");
    }
    let mut line = String::from_str("[");
    line.append(decimal_string(item.id).as_str());
    line.append("] ");
    if item.completed {
        line.append("\u{2705}");
    } else {
        line.append("\u{274c}");
    }
    line.append(" ");
    line.append(item.task.as_str());
    line
}

/// The identifier that a label names: the number between the opening
/// bracket and the first closing one. `None` for a text that is no label, or
/// whose number does not fit.
pub fn label_id(label: &str) -> (id: Option<usize>)
    ensures
        match id {
            Some(id) => labelled_id(label@) == Some(id as nat),
            None => labelled_id(label@) is None,
        },
{
    let len = label.unicode_len();
    if len < 3 || label.get_char(0) != '[' {
        return None;
    }
    let mut value: usize = 0;
    let mut i: usize = 1;
    while i < len
        invariant
            1 <= i <= len,
            len == label@.len(),
            label@[0] == '[',
            all_digits(label@.subrange(1, i as int)),
            value as nat == digits_value(label@.subrange(1, i as int)),
        decreases len - i,
    {
        let c = label.get_char(i);
        if c == ']' {
            if i >= 2 {
                proof {
                    let chosen = choose|close: int| closes_at(label@, close);
                    lemma_closes_once(label@, i as int, chosen);
                }
                return Some(value);
            } else {
                proof {
                    assert forall|close: int| !closes_at(label@, close) by {
                        if closes_at(label@, close) {
                            assert(label@.subrange(1, close)[0] == label@[1]);
                        }
                    }
                }
                return None;
            }
        }
        if !(c >= '0' && c <= '9') {
            proof {
                assert forall|close: int| !closes_at(label@, close) by {
                    if closes_at(label@, close) {
                        if close <= i {
                            assert(label@.subrange(1, i as int)[close - 1] == label@[close]);
                        } else {
                            assert(label@.subrange(1, close)[i - 1] == label@[i as int]);
                        }
                    }
                }
            }
            return None;
        }
        let d: usize = (c as u32 - '0' as u32) as usize;
        proof {
            let upto = label@.subrange(1, i + 1);
            assert(upto.drop_last() =~= label@.subrange(1, i as int));
        }
        if value > (usize::MAX - d) / 10 {
            proof {
                assert forall|close: int| !closes_at(label@, close) by {
                    if closes_at(label@, close) {
                        if close <= i {
                            assert(label@.subrange(1, i as int)[close - 1] == label@[close]);
                        } else {
                            let number = label@.subrange(1, close);
                            lemma_digits_value_grows(number, i as int);
                            assert(number.take(i as int) =~= label@.subrange(1, i + 1));
                        }
                    }
                }
            }
            return None;
        }
        value = value * 10 + d;
        i += 1;
    }
    proof {
        assert forall|close: int| !closes_at(label@, close) by {
            if closes_at(label@, close) {
                assert(label@.subrange(1, len as int)[close - 1] == label@[close]);
            }
        }
    }
    None
}

/// The labels of all tasks in list order: what is offered for removal.
pub fn removal_options(tasks: &Vec<TodoItem>) -> (labels: Vec<String>)
    ensures
        texts(labels@) == labels_of(list_view(tasks@)),
{
    let mut labels: Vec<String> = Vec::new();
    let mut i: usize = 0;
    while i < tasks.len()
        invariant
            0 <= i <= tasks.len(),
            texts(labels@) == labels_of(list_view(tasks@).take(i as int)),
        decreases tasks.len() - i,
    {
        let label = task_label(&tasks[i]);
        let ghost shown = labels@;
        labels.push(label);
        proof {
            assert(texts(shown.push(label)) =~= texts(shown).push(label@));
            assert(list_view(tasks@).take(i + 1) =~= list_view(tasks@).take(i as int).push(
                tasks@[i as int]@,
            ));
        }
        i += 1;
    }
    labels
}

/// The labels of the tasks that are still to be done, in list order: what is
/// offered for completion.
pub fn completion_options(tasks: &Vec<TodoItem>) -> (labels: Vec<String>)
    ensures
        texts(labels@) == labels_of(list_view(tasks@).filter(is_open())),
{
    let mut labels: Vec<String> = Vec::new();
    let mut i: usize = 0;
    proof {
        reveal(Seq::filter);
    }
    while i < tasks.len()
        invariant
            0 <= i <= tasks.len(),
            texts(labels@) == labels_of(list_view(tasks@).take(i as int).filter(is_open())),
        decreases tasks.len() - i,
    {
        proof {
            reveal(Seq::filter);
            let list = list_view(tasks@);
            assert(list.take(i + 1).drop_last() =~= list.take(i as int));
        }
        if !tasks[i].completed {
            let label = task_label(&tasks[i]);
            let ghost shown = labels@;
            labels.push(label);
            proof {
                assert(texts(shown.push(label)) =~= texts(shown).push(label@));
            }
        }
        i += 1;
    }
    proof {
        assert(list_view(tasks@).take(tasks.len() as int) =~= list_view(tasks@));
    }
    labels
}

/// The identifiers of the labels that were picked, in the order of the
/// labels. `None` if one of them is no label.
pub fn selected_ids(selected: &Vec<String>) -> (ids: Option<Vec<usize>>)
    ensures
        match ids {
            Some(ids) => labelled_ids(texts(selected@)) == Some(
                ids@.map_values(|id: usize| id as nat),
            ),
            None => labelled_ids(texts(selected@)) is None,
        },
{
    let mut ids: Vec<usize> = Vec::new();
    let mut i: usize = 0;
    while i < selected.len()
        invariant
            0 <= i <= selected.len(),
            ids.len() == i,
            forall|j: int| 0 <= j < i ==> labelled_id(#[trigger] texts(selected@)[j]) == Some(ids@[j] as nat),
        decreases selected.len() - i,
    {
        match label_id(selected[i].as_str()) {
            Some(id) => {
                ids.push(id);
            },
            None => {
                assert(labelled_id(texts(selected@)[i as int]) is None);
                return None;
            },
        }
        i += 1;
    }
    proof {
        let labels = texts(selected@);
        assert(labels.map_values(|label: Seq<char>| labelled_id(label).unwrap()) =~= ids@.map_values(
            |id: usize| id as nat,
        ));
    }
    Some(ids)
}

/// Whether the text is one of those offered.
pub fn is_offered(offered: &Vec<String>, label: &String) -> (found: bool)
    ensures
        found == texts(offered@).contains(label@),
{
    let mut i: usize = 0;
    while i < offered.len()
        invariant
            0 <= i <= offered.len(),
            forall|j: int| 0 <= j < i ==> texts(offered@)[j] != label@,
        decreases offered.len() - i,
    {
        if offered[i] == *label {
            assert(texts(offered@)[i as int] == label@);
            return true;
        }
        i += 1;
    }
    false
}

/// Whether everything that was picked is among what was offered.
pub fn all_offered(offered: &Vec<String>, picked: &Vec<String>) -> (all: bool)
    ensures
        all == forall|i: int|
            0 <= i < picked.len() ==> texts(offered@).contains(#[trigger] texts(picked@)[i]),
{
    let mut i: usize = 0;
    while i < picked.len()
        invariant
            0 <= i <= picked.len(),
            forall|j: int| 0 <= j < i ==> texts(offered@).contains(#[trigger] texts(picked@)[j]),
        decreases picked.len() - i,
    {
        if !is_offered(offered, &picked[i]) {
            assert(!texts(offered@).contains(texts(picked@)[i as int]));
            return false;
        }
        i += 1;
    }
    true
}

/// A label that is among the labels of a list names a task of the list.
pub proof fn lemma_offered_label_names_a_task(list: Seq<TaskView>, label: Seq<char>)
    requires
        forall|i: int| 0 <= i < list.len() ==> (#[trigger] list[i]).id <= usize::MAX,
        labels_of(list).contains(label),
    ensures
        exists|i: int| 0 <= i < list.len() && labelled_id(label) == Some((#[trigger] list[i]).id),
{
    let i = choose|i: int| 0 <= i < labels_of(list).len() && labels_of(list)[i] == label;
    lemma_label_names_its_task(list[i]);
}

/// The labels of a list name the identifiers of its tasks, in list order.
pub proof fn lemma_labels_name_their_tasks(list: Seq<TaskView>)
    requires
        forall|i: int| 0 <= i < list.len() ==> (#[trigger] list[i]).id <= usize::MAX,
    ensures
        labelled_ids(labels_of(list)) == Some(list.map_values(|t: TaskView| t.id)),
{
    let labels = labels_of(list);
    assert forall|i: int| 0 <= i < labels.len() implies labelled_id(#[trigger] labels[i]) == Some(
        list[i].id,
    ) by {
        lemma_label_names_its_task(list[i]);
    }
    assert(labels.map_values(|label: Seq<char>| labelled_id(label).unwrap()) =~= list.map_values(
        |t: TaskView| t.id,
    ));
}

} // verus!
