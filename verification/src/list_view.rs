//! A list of items shown as a column of rows.
//!
//! A list without focus shows its title and its items. The list in focus
//! highlights the item under its cursor and lets it see the waiting key.

use crate::keys::{key_byte, key_char};
use crate::text::{byte_len, glyph_at, str_len, texts};
use crate::ui::{
    field_cursor, field_key, field_ready, field_text, Drawn, Ui, Vec2, HIGHLIGHT_PAIR,
    REGULAR_PAIR,
};
use vstd::prelude::*;
use vstd::string::StringExecFns;

verus! {

/// A line of text at a place on the grid.
pub open spec fn row(x: int, y: int, pair: i16, text: Seq<char>) -> Drawn {
    Drawn { pos: Vec2 { x: x as i32, y: y as i32 }, pair, text }
}

/// What a list without focus shows from `(x, y)` down: its title, and below
/// it each item behind the mark of the list.
pub open spec fn plain_rows(
    x: int,
    y: int,
    title: Seq<char>,
    mark: Seq<char>,
    items: Seq<Seq<char>>,
) -> Seq<Drawn> {
    seq![row(x, y, REGULAR_PAIR, title)] + Seq::new(
        items.len(),
        |k: int| row(x, y + 1 + k, REGULAR_PAIR, mark + items[k]),
    )
}

/// The text of an item's row: the mark of its list and the item's text.
pub fn item_label(mark: &str, text: &str) -> (label: String)
    ensures
        label@ == mark@ + text@,
{
    let mut label = String::from_str(mark);
    label.append(text);
    label
}

/// Shows a list that is not in focus as a column of rows: the title, then
/// the items in their order.
pub fn plain_list(ui: &mut Ui, title: &str, mark: &str, items: &[String], width: i32)
    requires
        old(ui).layouts@.len() > 0,
        old(ui).top().has_rows(items@.len() as int + 1),
    ensures
        final(ui).layouts@ == old(ui).layouts@.update(
            old(ui).layouts@.len() - 1,
            old(ui).top().with_rows(width, items@.len() as int + 1),
        ),
        final(ui).drawn() == old(ui).drawn() + plain_rows(
            old(ui).top().pos.x as int,
            old(ui).top().pos.y + old(ui).top().size.y,
            title@,
            mark@,
            texts(items@),
        ),
        final(ui).key == old(ui).key,
{
    let ghost top = ui.top();
    let ghost x = top.pos.x as int;
    let ghost y = top.pos.y + top.size.y;
    let ghost all = texts(items@);
    ui.label_fixed_width(title, width, REGULAR_PAIR);
    assert(ui.layouts@ =~= old(ui).layouts@.update(
        old(ui).layouts@.len() - 1,
        top.with_rows(width, 1),
    ));
    assert(ui.drawn() =~= old(ui).drawn() + plain_rows(x, y, title@, mark@, all.take(0)));
    let mut index: usize = 0;
    while index < items.len()
        invariant
            index <= items@.len(),
            old(ui).layouts@.len() > 0,
            top == old(ui).top(),
            top.has_rows(items@.len() as int + 1),
            x == top.pos.x,
            y == top.pos.y + top.size.y,
            all == texts(items@),
            ui.layouts@ == old(ui).layouts@.update(
                old(ui).layouts@.len() - 1,
                top.with_rows(width, index + 1),
            ),
            ui.drawn() == old(ui).drawn() + plain_rows(x, y, title@, mark@, all.take(index as int)),
            ui.key == old(ui).key,
        decreases items@.len() - index,
    {
        let label = item_label(mark, items[index].as_str());
        ui.label_fixed_width(label.as_str(), width, REGULAR_PAIR);
        assert(ui.layouts@ =~= old(ui).layouts@.update(
            old(ui).layouts@.len() - 1,
            top.with_rows(width, index + 2),
        ));
        assert(ui.drawn() =~= old(ui).drawn() + plain_rows(
            x,
            y,
            title@,
            mark@,
            all.take(index + 1),
        ));
        index += 1;
    }
    assert(all.take(index as int) =~= all);
}

/// The list in focus, as a frame finds it: its items and its cursor, whether
/// the item under the cursor is being edited and where in its text, and the
/// key that waits.
pub ghost struct Focus {
    pub items: Seq<Seq<char>>,
    pub cursor: int,
    pub editing: bool,
    pub editing_cursor: int,
    pub key: Option<i32>,
}

impl Focus {
    /// Whether the cursor is on an item.
    pub open spec fn on_item(self) -> bool {
        0 <= self.cursor < self.items.len()
    }

    /// The item under the cursor.
    pub open spec fn item(self) -> Seq<char> {
        self.items[self.cursor]
    }

    /// Whether the item under the cursor can be shown at column `x`: where
    /// it is being edited, the edit that the key asks for is defined and the
    /// text cursor stays on the grid.
    pub open spec fn ready(self, x: int) -> bool {
        self.on_item() && self.editing ==> field_ready(
            self.item(),
            self.editing_cursor,
            self.key,
            x,
        )
    }

    /// What item `k` shows in row `y`. An item away from the cursor is
    /// plain, the one under it is highlighted; while it is being edited its
    /// text stands without the mark, as the key has left it, and the text
    /// cursor lies over it.
    pub open spec fn item_rows(self, x: int, y: int, mark: Seq<char>, k: int) -> Seq<Drawn> {
        if k != self.cursor {
            seq![row(x, y, REGULAR_PAIR, mark + self.items[k])]
        } else if !self.editing {
            seq![row(x, y, HIGHLIGHT_PAIR, mark + self.items[k])]
        } else {
            let text = field_text(self.item(), self.editing_cursor, self.key);
            let at = field_cursor(self.item(), self.editing_cursor, self.key);
            seq![row(x, y, REGULAR_PAIR, text), row(x + at, y, HIGHLIGHT_PAIR, glyph_at(text, at))]
        }
    }

    /// What the title and the first `n` items show from `(x, y)` down.
    pub open spec fn rows_upto(
        self,
        x: int,
        y: int,
        title: Seq<char>,
        mark: Seq<char>,
        n: int,
    ) -> Seq<Drawn>
        decreases n,
    {
        if n <= 0 {
            seq![row(x, y, HIGHLIGHT_PAIR, title)]
        } else {
            self.rows_upto(x, y, title, mark, n - 1) + self.item_rows(x, y + n, mark, n - 1)
        }
    }

    /// What the list shows from `(x, y)` down: its highlighted title, and
    /// below it each item in its row.
    pub open spec fn rows(self, x: int, y: int, title: Seq<char>, mark: Seq<char>) -> Seq<Drawn> {
        self.rows_upto(x, y, title, mark, self.items.len() as int)
    }

    /// The list once it has been shown. The item under the cursor has seen
    /// the key: while it is being edited the key goes to its text, and a
    /// line feed that the text does not take ends the editing; otherwise
    /// the key `r` starts editing it at its end. Without an item under the
    /// cursor nothing changes.
    pub open spec fn shown(self) -> Focus {
        if !self.on_item() {
            self
        } else if self.editing {
            Focus {
                items: self.items.update(
                    self.cursor,
                    field_text(self.item(), self.editing_cursor, self.key),
                ),
                editing_cursor: field_cursor(self.item(), self.editing_cursor, self.key),
                editing: !(field_key(self.key) matches Some(k) && key_char(k) == '\n'),
                key: None,
                ..self
            }
        } else if self.key matches Some(k) && key_char(k) == 'r' {
            Focus { editing: true, editing_cursor: byte_len(self.item()), key: None, ..self }
        } else {
            self
        }
    }
}

/// The list in focus that a list of strings, a cursor, the state of editing
/// and the waiting key make up.
pub open spec fn focus_on(
    items: Seq<String>,
    cursor: usize,
    editing: bool,
    editing_cursor: usize,
    key: Option<i32>,
) -> Focus {
    Focus {
        items: texts(items),
        cursor: cursor as int,
        editing,
        editing_cursor: editing_cursor as int,
        key,
    }
}

/// Shows the list in focus as a column of rows, and lets the item under the
/// cursor see the waiting key.
pub fn focused_list(
    ui: &mut Ui,
    title: &str,
    mark: &str,
    items: &mut Vec<String>,
    cursor: usize,
    editing: &mut bool,
    editing_cursor: &mut usize,
    width: i32,
)
    requires
        old(ui).layouts@.len() > 0,
        old(ui).top().has_rows(old(items)@.len() as int + 1),
        focus_on(old(items)@, cursor, *old(editing), *old(editing_cursor), old(ui).key).ready(
            old(ui).top().pos.x as int,
        ),
    ensures
        final(ui).layouts@ == old(ui).layouts@.update(
            old(ui).layouts@.len() - 1,
            old(ui).top().with_rows(width, old(items)@.len() as int + 1),
        ),
        final(ui).drawn() == old(ui).drawn() + focus_on(
            old(items)@,
            cursor,
            *old(editing),
            *old(editing_cursor),
            old(ui).key,
        ).rows(
            old(ui).top().pos.x as int,
            old(ui).top().pos.y + old(ui).top().size.y,
            title@,
            mark@,
        ),
        focus_on(final(items)@, cursor, *final(editing), *final(editing_cursor), final(ui).key)
            == focus_on(
            old(items)@,
            cursor,
            *old(editing),
            *old(editing_cursor),
            old(ui).key,
        ).shown(),
{
    let ghost top = ui.top();
    let ghost x = top.pos.x as int;
    let ghost y = top.pos.y + top.size.y;
    let ghost focus = focus_on(items@, cursor, *editing, *editing_cursor, ui.key);
    let ghost count = items@.len();
    ui.label_fixed_width(title, width, HIGHLIGHT_PAIR);
    assert(ui.layouts@ =~= old(ui).layouts@.update(
        old(ui).layouts@.len() - 1,
        top.with_rows(width, 1),
    ));
    assert(ui.drawn() =~= old(ui).drawn() + focus.rows_upto(x, y, title@, mark@, 0));
    let mut index: usize = 0;
    while index < items.len()
        invariant
            index <= count,
            items@.len() == count,
            old(ui).layouts@.len() > 0,
            top == old(ui).top(),
            top.has_rows(count as int + 1),
            x == top.pos.x,
            y == top.pos.y + top.size.y,
            focus.items == texts(old(items)@),
            focus.items.len() == count,
            focus.cursor == cursor,
            focus.ready(x),
            ui.layouts@ == old(ui).layouts@.update(
                old(ui).layouts@.len() - 1,
                top.with_rows(width, index + 1),
            ),
            ui.drawn() == old(ui).drawn() + focus.rows_upto(x, y, title@, mark@, index as int),
            focus_on(items@, cursor, *editing, *editing_cursor, ui.key) == if index > cursor {
                focus.shown()
            } else {
                focus
            },
        decreases count - index,
    {
        let ghost before = items@;
        assert(texts(before)[index as int] == before[index as int]@);
        if index == cursor {
            if *editing {
                ui.edit_field(&mut items[index], editing_cursor, width);
                if let Some(key) = ui.key.take() {
                    if key_byte(key) as char == '\n' {
                        *editing = false;
                    }
                }
                assert(texts(items@) =~= focus.shown().items);
            } else {
                let label = item_label(mark, items[index].as_str());
                ui.label_fixed_width(label.as_str(), width, HIGHLIGHT_PAIR);
                if let Some(key) = ui.key {
                    if key_byte(key) as char == 'r' {
                        *editing = true;
                        *editing_cursor = str_len(items[index].as_str());
                        ui.key = None;
                    }
                }
            }
        } else {
            let label = item_label(mark, items[index].as_str());
            ui.label_fixed_width(label.as_str(), width, REGULAR_PAIR);
        }
        assert(ui.layouts@ =~= old(ui).layouts@.update(
            old(ui).layouts@.len() - 1,
            top.with_rows(width, index + 2),
        ));
        assert(ui.drawn() =~= old(ui).drawn() + focus.rows_upto(x, y, title@, mark@, index + 1));
        index += 1;
    }
}

} // verus!
