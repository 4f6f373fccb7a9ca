//! The item file: one line per item, each behind the prefix of its status.
//!
//! The items still to do come first, then those that are done, each group in
//! the order of its list.

use crate::status::{done_prefix, parse_item, parsed_item, todo_prefix, Status};
use crate::text::{push_char, texts};
use vstd::prelude::*;
use vstd::string::StringExecFns;

verus! {

/// Where the first line of a text ends: the offset of its first line feed,
/// or its length where it has none.
pub open spec fn first_line_len(text: Seq<char>) -> int
    decreases text.len(),
{
    if text.len() == 0 || text[0] == '\n' {
        0
    } else {
        1 + first_line_len(text.drop_first())
    }
}

/// A line without the carriage return that may end it.
pub open spec fn without_cr(line: Seq<char>) -> Seq<char> {
    if line.len() > 0 && line.last() == '\r' {
        line.drop_last()
    } else {
        line
    }
}

/// The lines of a text. A line ends with a line feed, or with a carriage
/// return and a line feed, neither of which belongs to it; what follows the
/// last line feed is a line of its own unless it is empty.
pub open spec fn lines_of(text: Seq<char>) -> Seq<Seq<char>>
    decreases text.len(),
{
    let n = first_line_len(text);
    if text.len() == 0 {
        seq![]
    } else if 0 <= n < text.len() {
        seq![without_cr(text.take(n))] + lines_of(text.skip(n + 1))
    } else {
        seq![text]
    }
}

/// The first line of a text ends where its first line feed stands.
proof fn lemma_first_line_len(text: Seq<char>, n: int)
    requires
        0 <= n <= text.len(),
        forall|k: int| 0 <= k < n ==> text[k] != '\n',
        n < text.len() ==> text[n] == '\n',
    ensures
        first_line_len(text) == n,
    decreases n,
{
    if n > 0 {
        lemma_first_line_len(text.drop_first(), n - 1);
    }
}

/// The lines of the part of a text from `start` on, where the next line feed
/// stands at `end`.
proof fn lemma_lines_step(text: Seq<char>, start: int, end: int)
    requires
        0 <= start <= end < text.len(),
        forall|k: int| start <= k < end ==> text[k] != '\n',
        text[end] == '\n',
    ensures
        lines_of(text.skip(start)) == seq![without_cr(text.subrange(start, end))] + lines_of(
            text.skip(end + 1),
        ),
{
    let rest = text.skip(start);
    lemma_first_line_len(rest, end - start);
    assert(rest.take(end - start) =~= text.subrange(start, end));
    assert(rest.skip(end - start + 1) =~= text.skip(end + 1));
}

/// The lines of the part of a text from `start` on, where no line feed
/// follows.
proof fn lemma_lines_end(text: Seq<char>, start: int)
    requires
        0 <= start <= text.len(),
        forall|k: int| start <= k < text.len() ==> text[k] != '\n',
    ensures
        lines_of(text.skip(start)) == if start == text.len() {
            Seq::<Seq<char>>::empty()
        } else {
            seq![text.skip(start)]
        },
{
    lemma_first_line_len(text.skip(start), text.len() - start);
}

/// Cuts a text into its lines.
pub fn split_lines(text: &str) -> (lines: Vec<String>)
    ensures
        texts(lines@) == lines_of(text@),
{
    let mut lines: Vec<String> = Vec::new();
    let mut line = String::new();
    // A carriage return that has been read and not yet put into the line.
    let mut cr = false;
    let ghost mut start: int = 0;
    assert(text@.skip(0) =~= text@);
    for c in it: text.chars()
        invariant
            it.seq() == text@,
            0 <= start <= it.index() <= text@.len(),
            lines_of(text@) == texts(lines@) + lines_of(text@.skip(start)),
            text@.subrange(start, it.index() as int) == if cr {
                line@.push('\r')
            } else {
                line@
            },
            !cr ==> line@.len() == 0 || line@.last() != '\r',
            forall|k: int| start <= k < it.index() ==> text@[k] != '\n',
    {
        let ghost at: int = it.index() as int;
        assert(c == text@[at]);
        if c == '\n' {
            proof {
                lemma_lines_step(text@, start, at);
                assert(without_cr(text@.subrange(start, at)) == line@);
                assert(texts(lines@.push(line)) =~= texts(lines@).push(line@));
                start = at + 1;
            }
            lines.push(line);
            line = String::new();
            cr = false;
            assert(text@.subrange(start, at + 1) =~= line@);
        } else {
            if cr {
                push_char(&mut line, '\r');
            }
            if c == '\r' {
                cr = true;
                assert(text@.subrange(start, at + 1) =~= line@.push('\r'));
            } else {
                cr = false;
                push_char(&mut line, c);
                assert(text@.subrange(start, at + 1) =~= line@);
            }
        }
    }
    if cr {
        push_char(&mut line, '\r');
    }
    proof {
        lemma_lines_end(text@, start);
        assert(text@.skip(start) =~= text@.subrange(start, text@.len() as int));
    }
    if !line.as_str().is_empty() {
        proof {
            assert(texts(lines@.push(line)) =~= texts(lines@).push(line@));
        }
        lines.push(line);
    }
    lines
}

/// The texts of the items of one status among the lines, in the order of the
/// lines. A line that is no item adds nothing.
pub open spec fn items_with(status: Status, lines: Seq<Seq<char>>) -> Seq<Seq<char>>
    decreases lines.len(),
{
    if lines.len() == 0 {
        seq![]
    } else {
        let before = items_with(status, lines.drop_last());
        match parsed_item(lines.last()) {
            Some((s, title)) => if s == status {
                before.push(title)
            } else {
                before
            },
            None => before,
        }
    }
}

/// A line of the item file that is no item.
#[derive(Debug, Clone, Copy, PartialEq, Eq, Structural)]
pub struct IllFormedLine {
    /// The number of the line, counted from 1.
    pub line: usize,
}

/// Reads the item file and appends its items to the two lists, each to the
/// list of its status.
///
/// Reading stops at the first line that is no item; the items of the lines
/// before it have been appended by then.
pub fn load_state(todos: &mut Vec<String>, dones: &mut Vec<String>, text: &str) -> (r: Result<
    (),
    IllFormedLine,
>)
    ensures
        ({
            let lines = lines_of(text@);
            let read = match r {
                Ok(()) => lines.len() as int,
                Err(e) => e.line - 1,
            };
            &&& 0 <= read <= lines.len()
            &&& forall|k: int| 0 <= k < read ==> parsed_item(#[trigger] lines[k]) is Some
            &&& r is Err ==> read < lines.len() && parsed_item(lines[read]) is None
            &&& texts(final(todos)@) == texts(old(todos)@) + items_with(
                Status::Todo,
                lines.take(read),
            )
            &&& texts(final(dones)@) == texts(old(dones)@) + items_with(
                Status::Done,
                lines.take(read),
            )
        }),
{
    let lines = split_lines(text);
    let mut index: usize = 0;
    while index < lines.len()
        invariant
            index <= lines@.len(),
            texts(lines@) == lines_of(text@),
            forall|k: int| 0 <= k < index ==> parsed_item(#[trigger] lines_of(text@)[k]) is Some,
            texts(todos@) == texts(old(todos)@) + items_with(
                Status::Todo,
                lines_of(text@).take(index as int),
            ),
            texts(dones@) == texts(old(dones)@) + items_with(
                Status::Done,
                lines_of(text@).take(index as int),
            ),
        decreases lines@.len() - index,
    {
        let ghost all = lines_of(text@);
        assert(lines@[index as int]@ == all[index as int]);
        assert(all.take(index + 1).drop_last() =~= all.take(index as int));
        assert(all.take(index + 1).last() == all[index as int]);
        match parse_item(lines[index].as_str()) {
            Some((Status::Todo, title)) => {
                let ghost before = todos@;
                todos.push(title.to_owned());
                assert(texts(todos@) =~= texts(before).push(title@));
            },
            Some((Status::Done, title)) => {
                let ghost before = dones@;
                dones.push(title.to_owned());
                assert(texts(dones@) =~= texts(before).push(title@));
            },
            None => {
                return Err(IllFormedLine { line: index + 1 });
            },
        }
        index += 1;
    }
    assert(lines_of(text@).take(index as int) =~= lines_of(text@));
    Ok(())
}

/// The lines that a list of items takes in the item file: for each item the
/// prefix, the item's text and a line feed.
pub open spec fn item_lines(prefix: Seq<char>, items: Seq<Seq<char>>) -> Seq<char>
    decreases items.len(),
{
    if items.len() == 0 {
        seq![]
    } else {
        item_lines(prefix, items.drop_last()) + prefix + items.last() + seq!['\n']
    }
}

/// The item file of two lists: the items still to do, then those done.
pub open spec fn saved(todos: Seq<Seq<char>>, dones: Seq<Seq<char>>) -> Seq<char> {
    item_lines(todo_prefix(), todos) + item_lines(done_prefix(), dones)
}

/// Appends the lines of a list of items to a text.
fn append_items(out: &mut String, prefix: &str, items: &[String])
    ensures
        final(out)@ == old(out)@ + item_lines(prefix@, texts(items@)),
{
    let mut index: usize = 0;
    assert(texts(items@).take(0) =~= Seq::<Seq<char>>::empty());
    while index < items.len()
        invariant
            index <= items@.len(),
            out@ == old(out)@ + item_lines(prefix@, texts(items@).take(index as int)),
        decreases items@.len() - index,
    {
        let ghost all = texts(items@);
        assert(all.take(index + 1).drop_last() =~= all.take(index as int));
        assert(all.take(index + 1).last() == items@[index as int]@);
        let ghost before = out@;
        out.append(prefix);
        out.append(items[index].as_str());
        push_char(out, '\n');
        assert(out@ =~= old(out)@ + item_lines(prefix@, all.take(index + 1)));
        index += 1;
    }
    assert(texts(items@).take(index as int) =~= texts(items@));
}

/// Writes the item file of two lists.
pub fn save_state(todos: &[String], dones: &[String]) -> (text: String)
    ensures
        text@ == saved(texts(todos@), texts(dones@)),
{
    proof {
        reveal_strlit("TODO: ");
        reveal_strlit("DONE: ");
        assert("TODO: "@ =~= todo_prefix());
        assert("DONE: "@ =~= done_prefix());
    }
    let mut text = String::new();
    append_items(&mut text, "TODO: ", todos);
    append_items(&mut text, "DONE: ", dones);
    text
}

/// The prefix that marks the lines of a status.
pub open spec fn prefix_of(status: Status) -> Seq<char> {
    match status {
        Status::Todo => todo_prefix(),
        Status::Done => done_prefix(),
    }
}

/// Whether the item file can hold an item as a line of its own: the text has
/// no line feed and does not end with a carriage return.
pub open spec fn storable(item: Seq<char>) -> bool {
    &&& forall|i: int| 0 <= i < item.len() ==> item[i] != '\n'
    &&& item.len() > 0 ==> item.last() != '\r'
}

/// Whether the item file can hold every item of a list.
pub open spec fn all_storable(items: Seq<Seq<char>>) -> bool {
    forall|k: int| 0 <= k < items.len() ==> storable(#[trigger] items[k])
}

/// The items of a list, each behind a prefix.
pub open spec fn prefixed(prefix: Seq<char>, items: Seq<Seq<char>>) -> Seq<Seq<char>> {
    Seq::new(items.len(), |k: int| prefix + items[k])
}

/// The lines of a list of items start with the line of the first item.
proof fn lemma_item_lines_front(prefix: Seq<char>, items: Seq<Seq<char>>)
    requires
        items.len() > 0,
    ensures
        item_lines(prefix, items) == prefix + items[0] + seq!['\n'] + item_lines(
            prefix,
            items.drop_first(),
        ),
    decreases items.len(),
{
    if items.len() == 1 {
        assert(items.drop_last() =~= Seq::<Seq<char>>::empty());
        assert(items.drop_first() =~= Seq::<Seq<char>>::empty());
        assert(item_lines(prefix, items) =~= prefix + items[0] + seq!['\n'] + item_lines(
            prefix,
            items.drop_first(),
        ));
    } else {
        lemma_item_lines_front(prefix, items.drop_last());
        assert(items.drop_last().drop_first() =~= items.drop_first().drop_last());
        assert(items.drop_last()[0] == items[0]);
        assert(items.drop_first().last() == items.last());
        assert(item_lines(prefix, items) =~= prefix + items[0] + seq!['\n'] + item_lines(
            prefix,
            items.drop_first(),
        ));
    }
}

/// Read as lines, the lines of a list of storable items are the items behind
/// the prefix, whatever text follows them.
proof fn lemma_lines_of_item_lines(prefix: Seq<char>, items: Seq<Seq<char>>, rest: Seq<char>)
    requires
        storable(prefix),
        prefix.len() > 0,
        all_storable(items),
    ensures
        lines_of(item_lines(prefix, items) + rest) == prefixed(prefix, items) + lines_of(rest),
    decreases items.len(),
{
    if items.len() == 0 {
        assert(item_lines(prefix, items) + rest =~= rest);
        assert(prefixed(prefix, items) + lines_of(rest) =~= lines_of(rest));
    } else {
        let line = prefix + items[0];
        let after = item_lines(prefix, items.drop_first()) + rest;
        let text = item_lines(prefix, items) + rest;
        lemma_item_lines_front(prefix, items);
        assert(text =~= line + seq!['\n'] + after);
        assert(storable(items[0]));
        lemma_lines_step(text, 0, line.len() as int);
        assert(text.skip(0) =~= text);
        assert(text.subrange(0, line.len() as int) =~= line);
        assert(text.skip(line.len() as int + 1) =~= after);
        assert(without_cr(line) == line);
        assert(all_storable(items.drop_first())) by {
            assert forall|k: int| 0 <= k < items.drop_first().len() implies storable(
                #[trigger] items.drop_first()[k],
            ) by {
                assert(items.drop_first()[k] == items[k + 1]);
            }
        }
        lemma_lines_of_item_lines(prefix, items.drop_first(), rest);
        assert(prefixed(prefix, items) =~= seq![line] + prefixed(prefix, items.drop_first()));
        assert(seq![line] + (prefixed(prefix, items.drop_first()) + lines_of(rest)) =~= prefixed(
            prefix,
            items,
        ) + lines_of(rest));
    }
}

/// The items among two runs of lines are those of the first run, then those
/// of the second.
proof fn lemma_items_with_concat(status: Status, a: Seq<Seq<char>>, b: Seq<Seq<char>>)
    ensures
        items_with(status, a + b) == items_with(status, a) + items_with(status, b),
    decreases b.len(),
{
    if b.len() == 0 {
        assert(a + b =~= a);
        assert(items_with(status, a) + items_with(status, b) =~= items_with(status, a));
    } else {
        lemma_items_with_concat(status, a, b.drop_last());
        assert((a + b).drop_last() =~= a + b.drop_last());
        assert((a + b).last() == b.last());
        assert(items_with(status, a + b) =~= items_with(status, a) + items_with(status, b));
    }
}

/// A line made of the prefix of a status and a text is an item of that status
/// with that text.
proof fn lemma_parsed_prefixed(status: Status, text: Seq<char>)
    ensures
        parsed_item(prefix_of(status) + text) == Some((status, text)),
{
    let line = prefix_of(status) + text;
    assert(line.skip(6) =~= text);
    assert(line.subrange(0, 6) =~= prefix_of(status));
    match status {
        Status::Todo => {},
        Status::Done => {
            assert(line[0] == 'D');
            assert(!todo_prefix().is_prefix_of(line));
        },
    }
}

/// Among the lines of a list of items behind the prefix of a status, the
/// items of that status are the list, and there is no item of the other
/// status.
proof fn lemma_items_with_prefixed(status: Status, wanted: Status, items: Seq<Seq<char>>)
    ensures
        items_with(wanted, prefixed(prefix_of(status), items)) == if wanted == status {
            items
        } else {
            Seq::<Seq<char>>::empty()
        },
    decreases items.len(),
{
    let lines = prefixed(prefix_of(status), items);
    if items.len() == 0 {
        assert(items =~= Seq::<Seq<char>>::empty());
    } else {
        lemma_items_with_prefixed(status, wanted, items.drop_last());
        assert(lines.drop_last() =~= prefixed(prefix_of(status), items.drop_last()));
        assert(lines.last() == prefix_of(status) + items.last());
        lemma_parsed_prefixed(status, items.last());
        if wanted == status {
            assert(items.drop_last().push(items.last()) =~= items);
        }
    }
}

/// What is saved can be loaded again: the item file of two lists of storable
/// items has one line per item, every line is an item, and the items of each
/// status are the list that was saved, in its order.
pub proof fn lemma_load_reads_what_save_wrote(todos: Seq<Seq<char>>, dones: Seq<Seq<char>>)
    requires
        all_storable(todos),
        all_storable(dones),
    ensures
        ({
            let lines = lines_of(saved(todos, dones));
            &&& lines == prefixed(todo_prefix(), todos) + prefixed(done_prefix(), dones)
            &&& forall|k: int| 0 <= k < lines.len() ==> parsed_item(#[trigger] lines[k]) is Some
            &&& items_with(Status::Todo, lines) == todos
            &&& items_with(Status::Done, lines) == dones
        }),
{
    let first = prefixed(todo_prefix(), todos);
    let second = prefixed(done_prefix(), dones);
    let lines = lines_of(saved(todos, dones));
    assert(storable(todo_prefix()));
    assert(storable(done_prefix()));
    lemma_lines_of_item_lines(done_prefix(), dones, Seq::empty());
    lemma_lines_of_item_lines(
        todo_prefix(),
        todos,
        item_lines(done_prefix(), dones) + Seq::<char>::empty(),
    );
    assert(item_lines(done_prefix(), dones) + Seq::<char>::empty() =~= item_lines(
        done_prefix(),
        dones,
    ));
    assert(first + (second + lines_of(Seq::empty())) =~= first + second);
    assert(lines == first + second);
    assert forall|k: int| 0 <= k < lines.len() implies parsed_item(#[trigger] lines[k]) is Some by {
        if k < first.len() {
            lemma_parsed_prefixed(Status::Todo, todos[k]);
        } else {
            lemma_parsed_prefixed(Status::Done, dones[k - first.len()]);
        }
    }
    lemma_items_with_concat(Status::Todo, first, second);
    lemma_items_with_concat(Status::Done, first, second);
    lemma_items_with_prefixed(Status::Todo, Status::Todo, todos);
    lemma_items_with_prefixed(Status::Done, Status::Todo, dones);
    lemma_items_with_prefixed(Status::Todo, Status::Done, todos);
    lemma_items_with_prefixed(Status::Done, Status::Done, dones);
    assert(todos + Seq::<Seq<char>>::empty() =~= todos);
    assert(Seq::<Seq<char>>::empty() + dones =~= dones);
}

} // verus!
