//! The two panels of the editor and what one frame does to them.
//!
//! A frame shows the notification and, side by side, the list of items to do
//! and the list of items done. The panel in focus highlights the item under
//! its cursor and receives the waiting key: while an item is being edited the
//! key goes to its text, otherwise to the command table of the panel.

use crate::keys::{key_byte, key_char};
use crate::list_view::{focused_list, plain_list, plain_rows, row, Focus};
use crate::status::{
    cursor_after_removal, cursor_valid, dragged_down, dragged_up, list_delete, list_down,
    list_drag_down, list_drag_up, list_first, list_last, list_transfer, list_up, moved_down,
    moved_last, moved_up, swapped, without_item, Status,
};
use crate::text::texts;
use crate::ui::{
    clamped, fits_i32, is_field_ready, Drawn, Layout, LayoutKind, Ui, Vec2, REGULAR_PAIR,
};
use vstd::prelude::*;
use vstd::string::StringExecFns;

verus! {

/// The editor between two frames: the two lists with their cursors, the
/// notification, the panel in focus, and whether and where the item under
/// its cursor is being edited.
pub struct Panels {
    pub todos: Vec<String>,
    pub todo_curr: usize,
    pub dones: Vec<String>,
    pub done_curr: usize,
    pub notification: String,
    pub panel: Status,
    pub editing: bool,
    pub editing_cursor: usize,
    pub quit: bool,
}

/// The editor with its texts as sequences of characters.
pub ghost struct Board {
    pub todos: Seq<Seq<char>>,
    pub todo_curr: int,
    pub dones: Seq<Seq<char>>,
    pub done_curr: int,
    pub notification: Seq<char>,
    pub panel: Status,
    pub editing: bool,
    pub editing_cursor: int,
    pub quit: bool,
}

impl View for Panels {
    type V = Board;

    open spec fn view(&self) -> Board {
        Board {
            todos: texts(self.todos@),
            todo_curr: self.todo_curr as int,
            dones: texts(self.dones@),
            done_curr: self.done_curr as int,
            notification: self.notification@,
            panel: self.panel,
            editing: self.editing,
            editing_cursor: self.editing_cursor as int,
            quit: self.quit,
        }
    }
}

/// Half of a width, rounded towards zero.
pub open spec fn half(width: i32) -> int {
    if width >= 0 {
        width / 2
    } else {
        -((-width) / 2)
    }
}

/// The column at which a panel starts: the panel of the items to do at the
/// left edge, the panel of the items done behind it.
pub open spec fn panel_x(side: Status, width: i32) -> int {
    match side {
        Status::Todo => 0,
        Status::Done => if half(width) > 0 {
            half(width)
        } else {
            0
        },
    }
}

/// The title of a panel.
pub open spec fn panel_title(side: Status) -> Seq<char> {
    match side {
        Status::Todo => "TODO"@,
        Status::Done => "DONE"@,
    }
}

/// The mark in front of each item of a panel.
pub open spec fn panel_mark(side: Status) -> Seq<char> {
    match side {
        Status::Todo => "- [ ] "@,
        Status::Done => "- [x] "@,
    }
}

/// Whether the command table of the items to do has an entry for the key.
pub open spec fn todo_takes(key: i32) -> bool {
    let c = key_char(key);
    c == 'K' || c == 'J' || c == 'i' || c == 'd' || c == 'k' || c == 'j' || c == 'g' || c == 'G'
        || c == '\n' || c == '\t'
}

/// Whether the command table of the items done has an entry for the key.
pub open spec fn done_takes(key: i32) -> bool {
    let c = key_char(key);
    c == 'K' || c == 'J' || c == 'k' || c == 'j' || c == 'g' || c == 'G' || c == 'i' || c == 'd'
        || c == '\n' || c == '\t'
}

/// The most items a list can have when a frame starts: the notification, the
/// empty row and the title take three rows of the grid, and the frame may add
/// an item.
pub const MAX_ITEMS: usize = 0x7fff_fffb;

/// Whether the command table of the panel `side` has an entry for the key.
pub open spec fn takes(side: Status, key: i32) -> bool {
    match side {
        Status::Todo => todo_takes(key),
        Status::Done => done_takes(key),
    }
}

impl Board {
    /// Both cursors are valid for their lists, and an item is being edited
    /// only while the cursor of the panel in focus is on one.
    pub open spec fn wf(self) -> bool {
        &&& cursor_valid(self.todos.len() as int, self.todo_curr)
        &&& cursor_valid(self.dones.len() as int, self.done_curr)
        &&& self.editing ==> self.focus(None).on_item()
    }

    /// The items of the panel `side`.
    pub open spec fn items(self, side: Status) -> Seq<Seq<char>> {
        match side {
            Status::Todo => self.todos,
            Status::Done => self.dones,
        }
    }

    /// The list in focus, with the key that waits.
    pub open spec fn focus(self, key: Option<i32>) -> Focus {
        match self.panel {
            Status::Todo => Focus {
                items: self.todos,
                cursor: self.todo_curr,
                editing: self.editing,
                editing_cursor: self.editing_cursor,
                key,
            },
            Status::Done => Focus {
                items: self.dones,
                cursor: self.done_curr,
                editing: self.editing,
                editing_cursor: self.editing_cursor,
                key,
            },
        }
    }

    /// The editor with the list in focus as `focus` has it.
    pub open spec fn with_focus(self, focus: Focus) -> Board {
        match self.panel {
            Status::Todo => Board {
                todos: focus.items,
                editing: focus.editing,
                editing_cursor: focus.editing_cursor,
                ..self
            },
            Status::Done => Board {
                dones: focus.items,
                editing: focus.editing,
                editing_cursor: focus.editing_cursor,
                ..self
            },
        }
    }

    /// What a key does in the panel of the items to do.
    ///
    /// `K` and `J` drag the item under the cursor up and down, `k`, `j`, `g`
    /// and `G` move the cursor. `i` puts an empty item in at the cursor and
    /// starts editing it. A line feed moves the item under the cursor to the
    /// end of the items done. `d` is refused: nothing is deleted from here.
    /// The tabulator hands the focus to the other panel. Any other key does
    /// nothing.
    pub open spec fn todo_command(self, key: i32) -> Board {
        let c = key_char(key);
        if c == 'K' {
            Board {
                todos: dragged_up(self.todos, self.todo_curr),
                todo_curr: moved_up(self.todo_curr),
                ..self
            }
        } else if c == 'J' {
            Board {
                todos: dragged_down(self.todos, self.todo_curr),
                todo_curr: moved_down(self.todos.len() as int, self.todo_curr),
                ..self
            }
        } else if c == 'i' {
            Board {
                todos: self.todos.insert(self.todo_curr, Seq::empty()),
                editing_cursor: 0,
                editing: true,
                notification: self.notification + "What needs to be done?"@,
                ..self
            }
        } else if c == 'd' {
            Board {
                notification: self.notification
                    + "Can't remove items from TODO. Mark it as DONE first."@,
                ..self
            }
        } else if c == 'k' {
            Board { todo_curr: moved_up(self.todo_curr), ..self }
        } else if c == 'j' {
            Board { todo_curr: moved_down(self.todos.len() as int, self.todo_curr), ..self }
        } else if c == 'g' {
            Board { todo_curr: 0, ..self }
        } else if c == 'G' {
            Board { todo_curr: moved_last(self.todos.len() as int, self.todo_curr), ..self }
        } else if c == '\n' {
            Board {
                todos: without_item(self.todos, self.todo_curr),
                todo_curr: cursor_after_removal(self.todos.len() as int, self.todo_curr),
                dones: if 0 <= self.todo_curr < self.todos.len() {
                    self.dones.push(self.todos[self.todo_curr])
                } else {
                    self.dones
                },
                notification: self.notification + "DONE!"@,
                ..self
            }
        } else if c == '\t' {
            Board { panel: self.panel.toggled(), ..self }
        } else {
            self
        }
    }

    /// What a key does in the panel of the items done.
    ///
    /// `K` and `J` drag the item under the cursor up and down, `k`, `j`, `g`
    /// and `G` move the cursor. `d` deletes the item under the cursor. A
    /// line feed moves it back to the end of the items to do. `i` is
    /// refused: nothing is put in here. The tabulator hands the focus to the
    /// other panel. Any other key does nothing.
    pub open spec fn done_command(self, key: i32) -> Board {
        let c = key_char(key);
        if c == 'K' {
            Board {
                dones: dragged_up(self.dones, self.done_curr),
                done_curr: moved_up(self.done_curr),
                ..self
            }
        } else if c == 'J' {
            Board {
                dones: dragged_down(self.dones, self.done_curr),
                done_curr: moved_down(self.dones.len() as int, self.done_curr),
                ..self
            }
        } else if c == 'k' {
            Board { done_curr: moved_up(self.done_curr), ..self }
        } else if c == 'j' {
            Board { done_curr: moved_down(self.dones.len() as int, self.done_curr), ..self }
        } else if c == 'g' {
            Board { done_curr: 0, ..self }
        } else if c == 'G' {
            Board { done_curr: moved_last(self.dones.len() as int, self.done_curr), ..self }
        } else if c == 'i' {
            Board {
                notification: self.notification
                    + "Can't insert new DONE items. Only TODO is allowed."@,
                ..self
            }
        } else if c == 'd' {
            Board {
                dones: without_item(self.dones, self.done_curr),
                done_curr: cursor_after_removal(self.dones.len() as int, self.done_curr),
                notification: self.notification + "Into The Abyss!"@,
                ..self
            }
        } else if c == '\n' {
            Board {
                dones: without_item(self.dones, self.done_curr),
                done_curr: cursor_after_removal(self.dones.len() as int, self.done_curr),
                todos: if 0 <= self.done_curr < self.dones.len() {
                    self.todos.push(self.dones[self.done_curr])
                } else {
                    self.todos
                },
                notification: self.notification + "No, not done yet..."@,
                ..self
            }
        } else if c == '\t' {
            Board { panel: self.panel.toggled(), ..self }
        } else {
            self
        }
    }

    /// What a key does in the panel `side`.
    pub open spec fn command(self, side: Status, key: i32) -> Board {
        match side {
            Status::Todo => self.todo_command(key),
            Status::Done => self.done_command(key),
        }
    }

    /// The editor and the waiting key after the panel `side` has had its
    /// turn in a frame. Out of focus it changes nothing. In focus it first
    /// lets the item under the cursor see the key, and then hands a key that
    /// still waits to its command table.
    pub open spec fn after_panel(self, side: Status, key: Option<i32>) -> (Board, Option<i32>) {
        if self.panel != side {
            (self, key)
        } else {
            let seen = self.focus(key).shown();
            let board = self.with_focus(seen);
            match seen.key {
                Some(k) => if takes(side, k) {
                    (board.command(side, k), None)
                } else {
                    (board, Some(k))
                },
                None => (board, None),
            }
        }
    }

    /// The editor after a frame in which `key` waited. The panel of the
    /// items to do has its turn first, then that of the items done; a key
    /// that neither has taken asks to quit if it is `q`, and is dropped.
    pub open spec fn after_frame(self, key: Option<i32>) -> Board {
        let (first, key1) = self.after_panel(Status::Todo, key);
        let (second, key2) = first.after_panel(Status::Done, key1);
        Board { quit: second.quit || (key2 matches Some(k) && key_char(k) == 'q'), ..second }
    }

    /// What the panel `side` shows at its turn in a frame.
    pub open spec fn panel_rows(self, side: Status, key: Option<i32>, width: i32) -> Seq<Drawn> {
        if self.panel == side {
            self.focus(key).rows(panel_x(side, width), 2, panel_title(side), panel_mark(side))
        } else {
            plain_rows(
                panel_x(side, width),
                2,
                panel_title(side),
                panel_mark(side),
                self.items(side),
            )
        }
    }

    /// What a frame in which `key` waits draws on a screen of the given
    /// width: the notification in the first row, an empty row, and from the
    /// third row down the two panels side by side.
    pub open spec fn screen(self, key: Option<i32>, width: i32) -> Seq<Drawn> {
        let (first, key1) = self.after_panel(Status::Todo, key);
        seq![row(0, 0, REGULAR_PAIR, self.notification), row(0, 1, REGULAR_PAIR, Seq::empty())]
            + self.panel_rows(Status::Todo, key, width) + first.panel_rows(
            Status::Done,
            key1,
            width,
        )
    }

    /// Whether a frame can run on a screen of the given width with `key`
    /// waiting: the editor is well formed, the rows of both lists fit on the
    /// grid, and so does the edit that the key asks for.
    pub open spec fn can_frame(self, key: Option<i32>, width: i32) -> bool {
        &&& self.wf()
        &&& self.todos.len() <= MAX_ITEMS
        &&& self.dones.len() <= MAX_ITEMS
        &&& self.focus(key).ready(panel_x(self.panel, width))
    }
}

/// A frame leaves a well-formed editor well formed.
pub proof fn lemma_frame_keeps_wf(board: Board, key: Option<i32>)
    requires
        board.wf(),
    ensures
        board.after_frame(key).wf(),
{
    let (first, key1) = board.after_panel(Status::Todo, key);
    lemma_panel_keeps_wf(board, Status::Todo, key);
    lemma_panel_keeps_wf(first, Status::Done, key1);
}

/// A frame in which no key waits leaves the editor as it is; only the text
/// cursor of an item that is being edited is brought back into its text.
pub proof fn lemma_idle_frame(board: Board)
    requires
        board.wf(),
    ensures
        !board.editing ==> board.after_frame(None) == board,
        board.editing ==> board.after_frame(None) == (Board {
            editing_cursor: clamped(board.focus(None).item(), board.editing_cursor),
            ..board
        }),
{
    let focus = board.focus(None);
    if board.editing {
        assert(focus.items.update(focus.cursor, focus.item()) =~= focus.items);
    }
}

/// The two refusals change nothing but the notification: `d` among the items
/// to do, and `i` among the items done.
pub proof fn lemma_refusals_only_notify(board: Board, key: i32)
    ensures
        key_char(key) == 'd' ==> board.todo_command(key) == (Board {
            notification: board.todo_command(key).notification,
            ..board
        }),
        key_char(key) == 'i' ==> board.done_command(key) == (Board {
            notification: board.done_command(key).notification,
            ..board
        }),
{
}

/// No command loses an item or makes one up, but for the two that are meant
/// to: `i` among the items to do adds one, and `d` among the items done
/// removes the one under the cursor.
pub proof fn lemma_commands_keep_items(board: Board, key: i32)
    requires
        board.wf(),
    ensures
        ({
            let after = board.todo_command(key);
            let added: int = if key_char(key) == 'i' {
                1
            } else {
                0
            };
            after.todos.len() + after.dones.len() == board.todos.len() + board.dones.len() + added
        }),
        ({
            let after = board.done_command(key);
            let removed: int = if key_char(key) == 'd' && board.done_curr < board.dones.len() {
                1
            } else {
                0
            };
            after.todos.len() + after.dones.len() == board.todos.len() + board.dones.len()
                - removed
        }),
{
}

/// The turn of a panel leaves a well-formed editor well formed.
pub proof fn lemma_panel_keeps_wf(board: Board, side: Status, key: Option<i32>)
    requires
        board.wf(),
    ensures
        board.after_panel(side, key).0.wf(),
{
}

impl Panels {
    /// An editor with two empty lists and the focus on the items to do.
    pub fn new() -> (panels: Panels)
        ensures
            panels@ == (Board {
                todos: Seq::empty(),
                todo_curr: 0,
                dones: Seq::empty(),
                done_curr: 0,
                notification: Seq::empty(),
                panel: Status::Todo,
                editing: false,
                editing_cursor: 0,
                quit: false,
            }),
            panels@.wf(),
    {
        let panels = Panels {
            todos: Vec::new(),
            todo_curr: 0,
            dones: Vec::new(),
            done_curr: 0,
            notification: String::new(),
            panel: Status::Todo,
            editing: false,
            editing_cursor: 0,
            quit: false,
        };
        assert(panels@.todos =~= Seq::empty());
        assert(panels@.dones =~= Seq::empty());
        panels
    }

    /// Hands the waiting key to the command table of the items to do. A key
    /// without an entry keeps waiting.
    pub fn todo_command(&mut self, ui: &mut Ui)
        requires
            cursor_valid(old(self).todos@.len() as int, old(self).todo_curr as int),
        ensures
            final(self)@ == match old(ui).key {
                Some(key) => old(self)@.todo_command(key),
                None => old(self)@,
            },
            final(ui).key == match old(ui).key {
                Some(key) => if todo_takes(key) {
                    None
                } else {
                    Some(key)
                },
                None => None,
            },
            final(ui).layouts == old(ui).layouts,
            final(ui).draws == old(ui).draws,
    {
        if let Some(key) = ui.key.take() {
            let c: char = key_byte(key) as char;
            if c == 'K' {
                list_drag_up(&mut self.todos, &mut self.todo_curr);
                proof {
                    lemma_texts_dragged(old(self).todos@, old(self).todo_curr as int);
                }
            } else if c == 'J' {
                list_drag_down(&mut self.todos, &mut self.todo_curr);
                proof {
                    lemma_texts_dragged(old(self).todos@, old(self).todo_curr as int);
                }
            } else if c == 'i' {
                self.todos.insert(self.todo_curr, String::new());
                self.editing_cursor = 0;
                self.editing = true;
                self.notification.append("What needs to be done?");
                assert(self@.todos =~= old(self)@.todo_command(key).todos);
            } else if c == 'd' {
                self.notification.append("Can't remove items from TODO. Mark it as DONE first.");
            } else if c == 'k' {
                list_up(&mut self.todo_curr);
            } else if c == 'j' {
                list_down(&self.todos, &mut self.todo_curr);
            } else if c == 'g' {
                list_first(&mut self.todo_curr);
            } else if c == 'G' {
                list_last(&self.todos, &mut self.todo_curr);
            } else if c == '\n' {
                list_transfer(&mut self.dones, &mut self.todos, &mut self.todo_curr);
                self.notification.append("DONE!");
                assert(self@.todos =~= old(self)@.todo_command(key).todos);
                assert(self@.dones =~= old(self)@.todo_command(key).dones);
            } else if c == '\t' {
                self.panel = self.panel.toggle();
            } else {
                ui.key = Some(key);
            }
        }
    }

    /// Hands the waiting key to the command table of the items done. A key
    /// without an entry keeps waiting.
    pub fn done_command(&mut self, ui: &mut Ui)
        requires
            cursor_valid(old(self).dones@.len() as int, old(self).done_curr as int),
        ensures
            final(self)@ == match old(ui).key {
                Some(key) => old(self)@.done_command(key),
                None => old(self)@,
            },
            final(ui).key == match old(ui).key {
                Some(key) => if done_takes(key) {
                    None
                } else {
                    Some(key)
                },
                None => None,
            },
            final(ui).layouts == old(ui).layouts,
            final(ui).draws == old(ui).draws,
    {
        if let Some(key) = ui.key.take() {
            let c: char = key_byte(key) as char;
            if c == 'K' {
                list_drag_up(&mut self.dones, &mut self.done_curr);
                proof {
                    lemma_texts_dragged(old(self).dones@, old(self).done_curr as int);
                }
            } else if c == 'J' {
                list_drag_down(&mut self.dones, &mut self.done_curr);
                proof {
                    lemma_texts_dragged(old(self).dones@, old(self).done_curr as int);
                }
            } else if c == 'k' {
                list_up(&mut self.done_curr);
            } else if c == 'j' {
                list_down(&self.dones, &mut self.done_curr);
            } else if c == 'g' {
                list_first(&mut self.done_curr);
            } else if c == 'G' {
                list_last(&self.dones, &mut self.done_curr);
            } else if c == 'i' {
                self.notification.append("Can't insert new DONE items. Only TODO is allowed.");
            } else if c == 'd' {
                list_delete(&mut self.dones, &mut self.done_curr);
                self.notification.append("Into The Abyss!");
                assert(self@.dones =~= old(self)@.done_command(key).dones);
            } else if c == '\n' {
                list_transfer(&mut self.todos, &mut self.dones, &mut self.done_curr);
                self.notification.append("No, not done yet...");
                assert(self@.todos =~= old(self)@.done_command(key).todos);
                assert(self@.dones =~= old(self)@.done_command(key).dones);
            } else if c == '\t' {
                self.panel = self.panel.toggle();
            } else {
                ui.key = Some(key);
            }
        }
    }
    /// Tells whether a frame can run on a screen of the given width: no
    /// layout is open in `ui`, and the editor is ready for the key that waits
    /// there.
    pub fn can_frame(&self, ui: &Ui, width: i32) -> (ok: bool)
        ensures
            ok == (ui.layouts@.len() == 0 && self@.can_frame(ui.key, width)),
    {
        if !ui.layouts.is_empty() {
            return false;
        }
        let todo_len: usize = self.todos.len();
        let done_len: usize = self.dones.len();
        if !(self.todo_curr < todo_len || (todo_len == 0 && self.todo_curr == 0)) {
            return false;
        }
        if !(self.done_curr < done_len || (done_len == 0 && self.done_curr == 0)) {
            return false;
        }
        if todo_len > MAX_ITEMS || done_len > MAX_ITEMS {
            return false;
        }
        if !self.editing {
            return true;
        }
        match self.panel {
            Status::Todo => {
                if self.todo_curr >= todo_len {
                    return false;
                }
                assert(self@.todos[self.todo_curr as int] == self.todos@[self.todo_curr as int]@);
                is_field_ready(self.todos[self.todo_curr].as_str(), self.editing_cursor, ui.key, 0)
            },
            Status::Done => {
                if self.done_curr >= done_len {
                    return false;
                }
                let half: i32 = width / 2;
                let x: i32 = if half > 0 {
                    half
                } else {
                    0
                };
                assert(self@.dones[self.done_curr as int] == self.dones@[self.done_curr as int]@);
                is_field_ready(self.dones[self.done_curr].as_str(), self.editing_cursor, ui.key, x)
            },
        }
    }

    /// A key has arrived: it becomes the key that waits, and the notification
    /// of the last one goes.
    pub fn press(&mut self, ui: &mut Ui, key: i32)
        ensures
            final(self)@ == (Board { notification: Seq::empty(), ..old(self)@ }),
            final(ui).key == Some(key),
            final(ui).layouts == old(ui).layouts,
            final(ui).draws == old(ui).draws,
    {
        self.notification = String::new();
        ui.key = Some(key);
    }

    /// Shows the panel `side` in the innermost layout and gives it its turn.
    fn panel_turn(&mut self, ui: &mut Ui, side: Status, width: i32)
        requires
            old(self)@.wf(),
            old(self).todos@.len() <= MAX_ITEMS + 1,
            old(self).dones@.len() <= MAX_ITEMS + 1,
            old(ui).layouts@.len() > 0,
            old(ui).top() == (Layout {
                kind: LayoutKind::Vert,
                pos: Vec2 { x: panel_x(side, width) as i32, y: 2 },
                size: Vec2 { x: 0, y: 0 },
            }),
            fits_i32(panel_x(side, width)),
            old(self).panel == side ==> old(self)@.focus(old(ui).key).ready(panel_x(side, width)),
        ensures
            (final(self)@, final(ui).key) == old(self)@.after_panel(side, old(ui).key),
            final(ui).drawn() == old(ui).drawn() + old(self)@.panel_rows(
                side,
                old(ui).key,
                width,
            ),
            final(ui).layouts@ == old(ui).layouts@.update(
                old(ui).layouts@.len() - 1,
                Layout {
                    kind: LayoutKind::Vert,
                    pos: old(ui).top().pos,
                    size: Vec2 {
                        x: panel_x(Status::Done, width) as i32,
                        y: (old(self)@.items(side).len() + 1) as i32,
                    },
                },
            ),
    {
        let half: i32 = width / 2;
        match side {
            Status::Todo => {
                if self.panel == Status::Todo {
                    focused_list(
                        ui,
                        "TODO",
                        "- [ ] ",
                        &mut self.todos,
                        self.todo_curr,
                        &mut self.editing,
                        &mut self.editing_cursor,
                        half,
                    );
                    assert(self@ == old(self)@.with_focus(old(self)@.focus(old(ui).key).shown()));
                    self.todo_command(ui);
                } else {
                    plain_list(ui, "TODO", "- [ ] ", &self.todos, half);
                }
            },
            Status::Done => {
                if self.panel == Status::Done {
                    focused_list(
                        ui,
                        "DONE",
                        "- [x] ",
                        &mut self.dones,
                        self.done_curr,
                        &mut self.editing,
                        &mut self.editing_cursor,
                        half,
                    );
                    assert(self@ == old(self)@.with_focus(old(self)@.focus(old(ui).key).shown()));
                    self.done_command(ui);
                } else {
                    plain_list(ui, "DONE", "- [x] ", &self.dones, half);
                }
            },
        }
    }

    /// Runs one frame on a screen `width` columns wide.
    ///
    /// The frame draws the notification and both panels into `ui`, lets the
    /// panel in focus act on the key that waits there, and leaves no key
    /// waiting and no layout open.
    pub fn frame(&mut self, ui: &mut Ui, width: i32)
        requires
            old(ui).layouts@.len() == 0,
            old(self)@.can_frame(old(ui).key, width),
        ensures
            final(self)@ == old(self)@.after_frame(old(ui).key),
            final(self)@.wf(),
            final(ui).drawn() == old(ui).drawn() + old(self)@.screen(old(ui).key, width),
            final(ui).layouts@.len() == 0,
            final(ui).key is None,
    {
        proof {
            lemma_frame_keeps_wf(self@, ui.key);
            lemma_panel_keeps_wf(self@, Status::Todo, ui.key);
        }
        let ghost start = self@;
        let ghost key = ui.key;
        ui.begin(Vec2::new(0, 0), LayoutKind::Vert);
        ui.label_fixed_width(self.notification.as_str(), width, REGULAR_PAIR);
        ui.label_fixed_width("", width, REGULAR_PAIR);
        proof {
            reveal_strlit("");
            assert(""@ =~= Seq::<char>::empty());
            assert(ui.drawn() =~= old(ui).drawn() + seq![
                row(0, 0, REGULAR_PAIR, start.notification),
                row(0, 1, REGULAR_PAIR, Seq::empty()),
            ]);
        }
        ui.begin_layout(LayoutKind::Horz);
        ui.begin_layout(LayoutKind::Vert);
        self.panel_turn(ui, Status::Todo, width);
        ui.end_layout();
        ui.begin_layout(LayoutKind::Vert);
        assert(self.todos@.len() <= MAX_ITEMS + 1 && self.dones@.len() <= MAX_ITEMS + 1) by {
            lemma_turn_adds_one_item(start, key);
        }
        assert(self.panel == Status::Done ==> self@.focus(ui.key).ready(
            panel_x(Status::Done, width),
        ));
        self.panel_turn(ui, Status::Done, width);
        ui.end_layout();
        ui.end_layout();
        ui.end();
        if let Some(last) = ui.key.take() {
            if key_byte(last) as char == 'q' {
                self.quit = true;
            }
        }
    }
}

/// The texts of a list with two items exchanged are the texts of the list
/// with the two exchanged.
proof fn lemma_texts_swapped(list: Seq<String>, i: int, j: int)
    requires
        0 <= i < list.len(),
        0 <= j < list.len(),
    ensures
        texts(swapped(list, i, j)) == swapped(texts(list), i, j),
{
    let once = list.update(i, list[j]);
    let twice = once.update(j, list[i]);
    let texts_once = texts(list).update(i, texts(list)[j]);
    let texts_twice = texts_once.update(j, texts(list)[i]);
    assert(swapped(list, i, j) == twice);
    assert(swapped(texts(list), i, j) == texts_twice);
    assert forall|k: int| 0 <= k < list.len() implies texts(twice)[k] == texts_twice[k] by {
        assert(texts(twice)[k] == twice[k]@);
        assert(texts(list)[k] == list[k]@);
        assert(once.len() == list.len() && texts_once.len() == list.len());
        if k == j {
            assert(twice[k] == list[i] && texts_twice[k] == texts(list)[i]);
        } else if k == i {
            assert(twice[k] == once[k] && texts_twice[k] == texts_once[k]);
            assert(once[k] == list[j] && texts_once[k] == texts(list)[j]);
        } else {
            assert(twice[k] == once[k] && texts_twice[k] == texts_once[k]);
            assert(once[k] == list[k] && texts_once[k] == texts(list)[k]);
        }
    }
    assert(texts(twice) =~= texts_twice);
}

/// The texts of a list after a drag are the texts of the list, dragged.
proof fn lemma_texts_dragged(list: Seq<String>, cursor: int)
    ensures
        texts(dragged_up(list, cursor)) == dragged_up(texts(list), cursor),
        texts(dragged_down(list, cursor)) == dragged_down(texts(list), cursor),
{
    assert(texts(list).len() == list.len());
    if 0 < cursor < list.len() {
        lemma_texts_swapped(list, cursor, cursor - 1);
    }
    if 0 <= cursor && cursor + 1 < list.len() {
        lemma_texts_swapped(list, cursor, cursor + 1);
    }
}

/// The turn of a panel adds at most one item to a list.
proof fn lemma_turn_adds_one_item(board: Board, key: Option<i32>)
    requires
        board.wf(),
    ensures
        board.after_panel(Status::Todo, key).0.todos.len() <= board.todos.len() + 1,
        board.after_panel(Status::Todo, key).0.dones.len() <= board.dones.len() + 1,
{
}

} // verus!
