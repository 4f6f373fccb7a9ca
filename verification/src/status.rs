//! Item status and the cursor primitives of an item list.

use crate::text::strip_prefix;
use vstd::prelude::*;

verus! {

/// Which of the two lists an item belongs to.
#[derive(Debug, Clone, Copy, PartialEq, Eq, Structural)]
pub enum Status {
    Todo,
    Done,
}

impl Status {
    /// The status on the other side.
    pub open spec fn toggled(self) -> Status {
        match self {
            Status::Todo => Status::Done,
            Status::Done => Status::Todo,
        }
    }

    /// Switches between the two statuses.
    pub fn toggle(&self) -> (other: Status)
        ensures
            other == self.toggled(),
    {
        match self {
            Status::Todo => Status::Done,
            Status::Done => Status::Todo,
        }
    }
}

/// A cursor is valid for a list of `len` items when it points at one of them,
/// or rests at 0 while the list is empty.
pub open spec fn cursor_valid(len: int, cursor: int) -> bool {
    0 <= cursor < len || (len == 0 && cursor == 0)
}

/// The cursor after a step towards the start of the list.
pub open spec fn moved_up(cursor: int) -> int {
    if cursor > 0 {
        cursor - 1
    } else {
        cursor
    }
}

/// The cursor after a step towards the end of a list of `len` items.
pub open spec fn moved_down(len: int, cursor: int) -> int {
    if cursor + 1 < len {
        cursor + 1
    } else {
        cursor
    }
}

/// The cursor after a jump to the last of `len` items.
pub open spec fn moved_last(len: int, cursor: int) -> int {
    if len > 0 {
        len - 1
    } else {
        cursor
    }
}

/// Prefix that marks a line as an item still to do.
pub open spec fn todo_prefix() -> Seq<char> {
    seq!['T', 'O', 'D', 'O', ':', ' ']
}

/// Prefix that marks a line as an item that is done.
pub open spec fn done_prefix() -> Seq<char> {
    seq!['D', 'O', 'N', 'E', ':', ' ']
}

/// What a line of the item file says: the status its prefix names and the
/// text behind the prefix. A line with neither prefix says nothing.
pub open spec fn parsed_item(line: Seq<char>) -> Option<(Status, Seq<char>)> {
    if todo_prefix().is_prefix_of(line) {
        Some((Status::Todo, line.skip(6)))
    } else if done_prefix().is_prefix_of(line) {
        Some((Status::Done, line.skip(6)))
    } else {
        None
    }
}

/// Reads one line of the item file.
pub fn parse_item(line: &str) -> (item: Option<(Status, &str)>)
    ensures
        match item {
            Some((status, title)) => parsed_item(line@) == Some((status, title@)),
            None => parsed_item(line@) is None,
        },
{
    proof {
        reveal_strlit("TODO: ");
        reveal_strlit("DONE: ");
        assert("TODO: "@ =~= todo_prefix());
        assert("DONE: "@ =~= done_prefix());
    }
    match strip_prefix(line, "TODO: ") {
        Some(title) => Some((Status::Todo, title)),
        None => match strip_prefix(line, "DONE: ") {
            Some(title) => Some((Status::Done, title)),
            None => None,
        },
    }
}

/// Moves the cursor one item up, unless it is on the first one.
pub fn list_up(list_curr: &mut usize)
    ensures
        *final(list_curr) == moved_up(*old(list_curr) as int),
{
    if *list_curr > 0 {
        *list_curr -= 1;
    }
}

/// Moves the cursor one item down, unless it is on the last one.
pub fn list_down(list: &[String], list_curr: &mut usize)
    ensures
        *final(list_curr) == moved_down(list@.len() as int, *old(list_curr) as int),
{
    if list.len() > 0 && *list_curr < list.len() - 1 {
        *list_curr += 1;
    }
}

/// Moves the cursor to the first item.
pub fn list_first(list_curr: &mut usize)
    ensures
        *final(list_curr) == 0,
{
    if *list_curr > 0 {
        *list_curr = 0;
    }
}

/// Moves the cursor to the last item; an empty list leaves it where it is.
pub fn list_last(list: &[String], list_curr: &mut usize)
    ensures
        *final(list_curr) == moved_last(list@.len() as int, *old(list_curr) as int),
{
    if !list.is_empty() {
        *list_curr = list.len() - 1;
    }
}

/// The list with the items at positions `i` and `j` exchanged.
pub open spec fn swapped<T>(list: Seq<T>, i: int, j: int) -> Seq<T> {
    list.update(i, list[j]).update(j, list[i])
}

/// The list after the item under the cursor has changed places with the one
/// before it.
pub open spec fn dragged_up<T>(list: Seq<T>, cursor: int) -> Seq<T> {
    if 0 < cursor < list.len() {
        swapped(list, cursor, cursor - 1)
    } else {
        list
    }
}

/// The list after the item under the cursor has changed places with the one
/// after it.
pub open spec fn dragged_down<T>(list: Seq<T>, cursor: int) -> Seq<T> {
    if 0 <= cursor && cursor + 1 < list.len() {
        swapped(list, cursor, cursor + 1)
    } else {
        list
    }
}

/// Exchanges the item at `i` with the one before it.
fn swap_with_previous(list: &mut [String], i: usize)
    requires
        0 < i < old(list)@.len(),
    ensures
        final(list)@ == swapped(old(list)@, i as int, i - 1),
{
    let ghost before = list@;
    let (head, tail) = list.split_at_mut(i);
    let upper = head.last_mut().unwrap();
    let lower = tail.first_mut().unwrap();
    core::mem::swap(upper, lower);
    assert(list@ =~= swapped(before, i as int, i - 1));
}

/// Moves the item under the cursor one place up, and the cursor with it. On
/// the first item nothing changes.
pub fn list_drag_up(list: &mut [String], list_curr: &mut usize)
    requires
        cursor_valid(old(list)@.len() as int, *old(list_curr) as int),
    ensures
        final(list)@ == dragged_up(old(list)@, *old(list_curr) as int),
        *final(list_curr) == moved_up(*old(list_curr) as int),
{
    if *list_curr > 0 {
        swap_with_previous(list, *list_curr);
        *list_curr -= 1;
    }
}

/// Moves the item under the cursor one place down, and the cursor with it. On
/// the last item nothing changes.
pub fn list_drag_down(list: &mut [String], list_curr: &mut usize)
    ensures
        final(list)@ == dragged_down(old(list)@, *old(list_curr) as int),
        *final(list_curr) == moved_down(old(list)@.len() as int, *old(list_curr) as int),
{
    if list.len() > 0 && *list_curr < list.len() - 1 {
        swap_with_previous(list, *list_curr + 1);
        assert(swapped(old(list)@, *list_curr + 1, *list_curr as int) =~= swapped(
            old(list)@,
            *list_curr as int,
            *list_curr + 1,
        ));
        *list_curr += 1;
    }
}

/// The list without the item under the cursor; a cursor that points at no
/// item removes nothing.
pub open spec fn without_item<T>(list: Seq<T>, cursor: int) -> Seq<T> {
    if 0 <= cursor < list.len() {
        list.remove(cursor)
    } else {
        list
    }
}

/// The cursor after the item under it has left a list of `len` items. It
/// keeps its place; only where that place lies behind the items that are
/// left, and some are left, it falls back to the last of them. A cursor that
/// pointed at no item stays as it is.
pub open spec fn cursor_after_removal(len: int, cursor: int) -> int {
    let left = len - 1;
    if 0 <= cursor < len && cursor >= left && left > 0 {
        left - 1
    } else {
        cursor
    }
}

/// Removes the item under the cursor and keeps the cursor inside the list.
pub fn list_delete(list: &mut Vec<String>, list_curr: &mut usize)
    ensures
        final(list)@ == without_item(old(list)@, *old(list_curr) as int),
        *final(list_curr) == cursor_after_removal(
            old(list)@.len() as int,
            *old(list_curr) as int,
        ),
{
    if *list_curr < list.len() {
        list.remove(*list_curr);
        if *list_curr >= list.len() && !list.is_empty() {
            *list_curr = list.len() - 1;
        }
    }
}

/// Moves the item under the source cursor to the end of the destination list,
/// and keeps the cursor inside the source list. A cursor that points at no
/// item moves nothing.
pub fn list_transfer(
    list_dst: &mut Vec<String>,
    list_src: &mut Vec<String>,
    list_src_curr: &mut usize,
)
    ensures
        final(list_src)@ == without_item(old(list_src)@, *old(list_src_curr) as int),
        *final(list_src_curr) == cursor_after_removal(
            old(list_src)@.len() as int,
            *old(list_src_curr) as int,
        ),
        *old(list_src_curr) < old(list_src)@.len() ==> final(list_dst)@ == old(list_dst)@.push(
            old(list_src)@[*old(list_src_curr) as int],
        ),
        *old(list_src_curr) >= old(list_src)@.len() ==> final(list_dst)@ == old(list_dst)@,
        *old(list_src_curr) < old(list_src)@.len() ==> {
            &&& final(list_src)@.len() == old(list_src)@.len() - 1
            &&& final(list_dst)@.len() == old(list_dst)@.len() + 1
            &&& final(list_dst)@.last() == old(list_src)@[*old(list_src_curr) as int]
        },
{
    if *list_src_curr < list_src.len() {
        list_dst.push(list_src.remove(*list_src_curr));
        if *list_src_curr >= list_src.len() && !list_src.is_empty() {
            *list_src_curr = list_src.len() - 1;
        }
    }
}

/// Dragging an item up and then down again puts the list and the cursor back
/// where they were, provided the first drag moved something: the cursor was
/// on an item other than the first.
pub proof fn lemma_drag_up_then_down<T>(list: Seq<T>, cursor: int)
    requires
        0 < cursor < list.len(),
    ensures
        dragged_down(dragged_up(list, cursor), moved_up(cursor)) == list,
        moved_down(dragged_up(list, cursor).len() as int, moved_up(cursor)) == cursor,
{
    assert(dragged_down(dragged_up(list, cursor), moved_up(cursor)) =~= list);
}

/// Dragging an item down and then up again puts the list and the cursor back
/// where they were, provided the first drag moved something: the cursor was
/// on an item other than the last.
pub proof fn lemma_drag_down_then_up<T>(list: Seq<T>, cursor: int)
    requires
        0 <= cursor,
        cursor + 1 < list.len(),
    ensures
        dragged_up(dragged_down(list, cursor), moved_down(list.len() as int, cursor)) == list,
        moved_up(moved_down(list.len() as int, cursor)) == cursor,
{
    assert(dragged_up(dragged_down(list, cursor), moved_down(list.len() as int, cursor))
        =~= list);
}

/// A drag keeps every item: the list afterwards has the same length and holds
/// each item as often as before.
pub proof fn lemma_drag_keeps_items<T>(list: Seq<T>, cursor: int)
    ensures
        dragged_up(list, cursor).len() == list.len(),
        dragged_down(list, cursor).len() == list.len(),
        dragged_up(list, cursor).to_multiset() == list.to_multiset(),
        dragged_down(list, cursor).to_multiset() == list.to_multiset(),
{
    if 0 < cursor < list.len() {
        lemma_swapped_keeps_items(list, cursor, cursor - 1);
    }
    if 0 <= cursor && cursor + 1 < list.len() {
        lemma_swapped_keeps_items(list, cursor, cursor + 1);
    }
}

proof fn lemma_swapped_keeps_items<T>(list: Seq<T>, i: int, j: int)
    requires
        0 <= i < list.len(),
        0 <= j < list.len(),
    ensures
        swapped(list, i, j).to_multiset() == list.to_multiset(),
{
    broadcast use vstd::seq_lib::group_to_multiset_ensures;

    let once = list.update(i, list[j]);
    assert(once.to_multiset() =~= list.to_multiset().insert(list[j]).remove(list[i]));
    assert(swapped(list, i, j).to_multiset() =~= once.to_multiset().insert(list[i]).remove(
        once[j],
    ));
    assert(once[j] == list[j]);
    assert(swapped(list, i, j).to_multiset() =~= list.to_multiset());
}

/// Once the cursor is on the last item, a step down changes nothing.
pub proof fn lemma_last_then_down(len: nat, cursor: nat)
    ensures
        moved_down(len as int, moved_last(len as int, cursor as int)) == moved_last(
            len as int,
            cursor as int,
        ),
        len > 0 ==> moved_last(len as int, cursor as int) == len - 1,
{
}

/// Removing the only item of a list leaves the list empty and the cursor at 0.
pub proof fn lemma_delete_only_item<T>(list: Seq<T>)
    requires
        list.len() == 1,
    ensures
        without_item(list, 0).len() == 0,
        cursor_after_removal(1, 0) == 0,
{
}

/// Every cursor primitive keeps a valid cursor valid for the list it leaves
/// behind.
pub proof fn lemma_cursor_stays_valid<T>(list: Seq<T>, cursor: int)
    requires
        cursor_valid(list.len() as int, cursor),
    ensures
        cursor_valid(list.len() as int, moved_up(cursor)),
        cursor_valid(list.len() as int, moved_down(list.len() as int, cursor)),
        cursor_valid(list.len() as int, 0),
        cursor_valid(list.len() as int, moved_last(list.len() as int, cursor)),
        cursor_valid(
            without_item(list, cursor).len() as int,
            cursor_after_removal(list.len() as int, cursor),
        ),
{
}

} // verus!
