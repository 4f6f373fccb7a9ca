//! An immediate-mode layout engine for a character grid.
//!
//! Widgets are emitted one after another into a stack of layouts. Each widget
//! is placed at the position its layout has free, and what it shows is
//! recorded as a [`DrawText`] for a terminal backend to put on screen.

use crate::keys::{
    backspace_code, delete_code, is_printable, key_backspace, key_byte, key_dc, key_left,
    key_right, left_code, right_code,
};
use crate::text::{
    byte_len, glyph, glyph_at, insert_char, lemma_with_char_at_end, on_boundary, push_char,
    remove_char, str_len, with_char, without_char,
};
use core::ops::{Add, Mul};
use vstd::prelude::*;
use vstd::std_specs::ops::{AddSpecImpl, MulSpecImpl};

verus! {

/// Colour pair of ordinary text.
pub const REGULAR_PAIR: i16 = 0;

/// Colour pair of the focused item and of the text cursor.
pub const HIGHLIGHT_PAIR: i16 = 10;

/// A position or a size on the character grid.
#[derive(Default, Copy, Clone, Debug, PartialEq, Eq, Structural)]
pub struct Vec2 {
    pub x: i32,
    pub y: i32,
}

impl Vec2 {
    pub fn new(x: i32, y: i32) -> (v: Self)
        ensures
            v == (Vec2 { x, y }),
    {
        Self { x, y }
    }

    /// Both coordinates, as integers without bound.
    pub open spec fn coords(self) -> (int, int) {
        (self.x as int, self.y as int)
    }
}

/// Whether an integer is an `i32`.
pub open spec fn fits_i32(n: int) -> bool {
    i32::MIN <= n <= i32::MAX
}

impl AddSpecImpl for Vec2 {
    open spec fn obeys_add_spec() -> bool {
        true
    }

    open spec fn add_req(self, rhs: Vec2) -> bool {
        fits_i32(self.x + rhs.x) && fits_i32(self.y + rhs.y)
    }

    open spec fn add_spec(self, rhs: Vec2) -> Vec2 {
        Vec2 { x: (self.x + rhs.x) as i32, y: (self.y + rhs.y) as i32 }
    }
}

impl Add for Vec2 {
    type Output = Vec2;

    /// Adds coordinate by coordinate.
    fn add(self, rhs: Vec2) -> Vec2 {
        Vec2 { x: self.x + rhs.x, y: self.y + rhs.y }
    }
}

impl MulSpecImpl for Vec2 {
    open spec fn obeys_mul_spec() -> bool {
        true
    }

    open spec fn mul_req(self, rhs: Vec2) -> bool {
        fits_i32(self.x * rhs.x) && fits_i32(self.y * rhs.y)
    }

    open spec fn mul_spec(self, rhs: Vec2) -> Vec2 {
        Vec2 { x: (self.x * rhs.x) as i32, y: (self.y * rhs.y) as i32 }
    }
}

impl Mul for Vec2 {
    type Output = Vec2;

    /// Multiplies coordinate by coordinate.
    fn mul(self, rhs: Vec2) -> Vec2 {
        Vec2 { x: self.x * rhs.x, y: self.y * rhs.y }
    }
}

/// The direction in which a layout stacks its widgets.
#[derive(Copy, Clone, Debug, PartialEq, Eq, Structural)]
pub enum LayoutKind {
    Vert,
    Horz,
}

/// An open layout: where it starts and how much room its widgets have taken.
#[derive(Copy, Clone, Debug, PartialEq, Eq, Structural)]
pub struct Layout {
    pub kind: LayoutKind,
    pub pos: Vec2,
    pub size: Vec2,
}

impl Layout {
    /// The position of the next widget: the origin moved along the layout's
    /// axis by the room already taken.
    pub open spec fn next_pos(self) -> (int, int) {
        match self.kind {
            LayoutKind::Horz => (self.pos.x + self.size.x, self.pos.y as int),
            LayoutKind::Vert => (self.pos.x as int, self.pos.y + self.size.y),
        }
    }

    /// The position of the next widget as a grid position.
    pub open spec fn next_vec(self) -> Vec2 {
        Vec2 { x: self.next_pos().0 as i32, y: self.next_pos().1 as i32 }
    }

    /// Whether the position of the next widget is still on the grid.
    pub open spec fn has_next_pos(self) -> bool {
        fits_i32(self.next_pos().0) && fits_i32(self.next_pos().1)
    }

    /// The room taken once a widget of the given size has been added: its
    /// extent is added along the layout's axis, and across the axis the
    /// larger extent stays.
    pub open spec fn grown(self, size: Vec2) -> (int, int) {
        match self.kind {
            LayoutKind::Horz => (
                self.size.x + size.x,
                if self.size.y >= size.y {
                    self.size.y as int
                } else {
                    size.y as int
                },
            ),
            LayoutKind::Vert => (
                if self.size.x >= size.x {
                    self.size.x as int
                } else {
                    size.x as int
                },
                self.size.y + size.y,
            ),
        }
    }

    /// Whether a widget of the given size can be added without leaving the
    /// grid.
    pub open spec fn has_room(self, size: Vec2) -> bool {
        fits_i32(self.grown(size).0) && fits_i32(self.grown(size).1)
    }

    /// The layout after a widget of the given size has been added.
    pub open spec fn with_widget(self, size: Vec2) -> Layout {
        Layout {
            kind: self.kind,
            pos: self.pos,
            size: Vec2 { x: self.grown(size).0 as i32, y: self.grown(size).1 as i32 },
        }
    }

    /// Whether the layout is a column that can take `rows` more widgets of
    /// height 1 without leaving the grid.
    pub open spec fn has_rows(self, rows: int) -> bool {
        &&& self.kind == LayoutKind::Vert
        &&& 0 <= rows
        &&& fits_i32(self.pos.y + self.size.y)
        &&& fits_i32(self.pos.y + self.size.y + rows)
        &&& fits_i32(self.size.y + rows)
    }

    /// A column after `rows` widgets of the given width and of height 1 have
    /// been added.
    pub open spec fn with_rows(self, width: i32, rows: int) -> Layout {
        Layout {
            kind: self.kind,
            pos: self.pos,
            size: Vec2 {
                x: if rows > 0 && width > self.size.x {
                    width
                } else {
                    self.size.x
                },
                y: (self.size.y + rows) as i32,
            },
        }
    }

    /// Where the next widget goes.
    pub fn available_pos(&self) -> (pos: Vec2)
        requires
            self.has_next_pos(),
        ensures
            pos == self.next_vec(),
            pos.coords() == self.next_pos(),
    {
        match self.kind {
            LayoutKind::Horz => self.pos + self.size * Vec2::new(1, 0),
            LayoutKind::Vert => self.pos + self.size * Vec2::new(0, 1),
        }
    }

    /// Accounts for a widget of the given size.
    pub fn add_widget(&mut self, size: Vec2)
        requires
            old(self).has_room(size),
        ensures
            *final(self) == old(self).with_widget(size),
            final(self).size.coords() == old(self).grown(size),
    {
        match self.kind {
            LayoutKind::Horz => {
                self.size.x += size.x;
                self.size.y = if self.size.y >= size.y {
                    self.size.y
                } else {
                    size.y
                };
            },
            LayoutKind::Vert => {
                self.size.x = if self.size.x >= size.x {
                    self.size.x
                } else {
                    size.x
                };
                self.size.y += size.y;
            },
        }
    }
}

/// A layout only grows: a widget whose size is not negative leaves no
/// extent of the layout smaller than it was.
pub proof fn lemma_widget_grows_layout(layout: Layout, size: Vec2)
    requires
        size.x >= 0,
        size.y >= 0,
    ensures
        layout.grown(size).0 >= layout.size.x,
        layout.grown(size).1 >= layout.size.y,
        layout.with_widget(size).kind == layout.kind,
        layout.with_widget(size).pos == layout.pos,
{
}

/// A piece of text to put on screen: where, in which colour pair, and what.
#[derive(Debug)]
pub struct DrawText {
    pub pos: Vec2,
    pub pair: i16,
    pub text: String,
}

/// What a [`DrawText`] shows, with its text as a sequence of characters.
pub ghost struct Drawn {
    pub pos: Vec2,
    pub pair: i16,
    pub text: Seq<char>,
}

impl View for DrawText {
    type V = Drawn;

    open spec fn view(&self) -> Drawn {
        Drawn { pos: self.pos, pair: self.pair, text: self.text@ }
    }
}

/// The cursor brought back into the text: an offset behind the end becomes
/// the end.
pub open spec fn clamped(text: Seq<char>, cursor: int) -> int {
    if cursor > byte_len(text) {
        byte_len(text)
    } else {
        cursor
    }
}

/// Whether an editable field handles the key itself.
pub open spec fn field_handles(key: i32) -> bool {
    is_printable(key) || key == left_code() || key == right_code() || key == backspace_code()
        || key == delete_code()
}

/// Whether the edit that the waiting key asks for is defined: a character
/// can only go in, or come out, at an offset between two characters.
pub open spec fn field_accepts(text: Seq<char>, cursor: int, key: Option<i32>) -> bool {
    let at = clamped(text, cursor);
    match key {
        Some(k) => if is_printable(k) {
            on_boundary(text, at)
        } else if k == backspace_code() {
            at > 0 ==> on_boundary(text, at - 1)
        } else if k == delete_code() {
            at < byte_len(text) ==> on_boundary(text, at)
        } else {
            true
        },
        None => true,
    }
}

/// Whether an editable field at column `x` can see the waiting key: the edit
/// that the key asks for is defined, and the text cursor stays on the grid
/// afterwards.
pub open spec fn field_ready(text: Seq<char>, cursor: int, key: Option<i32>, x: int) -> bool {
    &&& field_accepts(text, cursor, key)
    &&& field_cursor(text, cursor, key) <= i32::MAX
    &&& fits_i32(x + field_cursor(text, cursor, key))
}

/// Tells whether an editable field at column `x` can see the waiting key.
pub fn is_field_ready(buffer: &str, cursor: usize, key: Option<i32>, x: i32) -> (ready: bool)
    ensures
        ready == field_ready(buffer@, cursor as int, key, x as int),
{
    let len: usize = str_len(buffer);
    let at: usize = if cursor > len {
        len
    } else {
        cursor
    };
    let mut accepts = true;
    let mut after: u128 = at as u128;
    if let Some(k) = key {
        if 32 <= k && k <= 126 {
            accepts = buffer.is_char_boundary(at);
            after = after + 1;
        } else if k == key_left() {
            if at > 0 {
                after = after - 1;
            }
        } else if k == key_right() {
            if at < len {
                after = after + 1;
            }
        } else if k == key_backspace() {
            if at > 0 {
                accepts = buffer.is_char_boundary(at - 1);
                after = after - 1;
            }
        } else if k == key_dc() {
            if at < len {
                accepts = buffer.is_char_boundary(at);
            }
        }
    }
    assert(accepts == field_accepts(buffer@, cursor as int, key));
    assert(after == field_cursor(buffer@, cursor as int, key));
    accepts && after <= 0x7fff_ffff && x as i128 + after as i128 <= 0x7fff_ffff
}

/// The text of an editable field after it has seen the waiting key.
pub open spec fn field_text(text: Seq<char>, cursor: int, key: Option<i32>) -> Seq<char> {
    let at = clamped(text, cursor);
    match key {
        Some(k) => if is_printable(k) {
            with_char(text, at, k as u8 as char)
        } else if k == backspace_code() && at > 0 {
            without_char(text, at - 1)
        } else if k == delete_code() && at < byte_len(text) {
            without_char(text, at)
        } else {
            text
        },
        None => text,
    }
}

/// The cursor of an editable field after it has seen the waiting key.
pub open spec fn field_cursor(text: Seq<char>, cursor: int, key: Option<i32>) -> int {
    let at = clamped(text, cursor);
    match key {
        Some(k) => if is_printable(k) {
            at + 1
        } else if (k == left_code() || k == backspace_code()) && at > 0 {
            at - 1
        } else if k == right_code() && at < byte_len(text) {
            at + 1
        } else {
            at
        },
        None => at,
    }
}

/// The key that an editable field leaves for its caller: the waiting key,
/// unless the field handled it.
pub open spec fn field_key(key: Option<i32>) -> Option<i32> {
    match key {
        Some(k) => if field_handles(k) {
            None
        } else {
            Some(k)
        },
        None => None,
    }
}

/// The engine: the stack of open layouts, the key that waits for a widget to
/// take it, and what has been drawn so far.
pub struct Ui {
    pub layouts: Vec<Layout>,
    pub key: Option<i32>,
    pub draws: Vec<DrawText>,
}

impl Default for Ui {
    fn default() -> (ui: Ui)
        ensures
            ui.layouts@.len() == 0,
            ui.key is None,
            ui.draws@.len() == 0,
    {
        Ui { layouts: Vec::new(), key: None, draws: Vec::new() }
    }
}

impl Ui {
    /// Everything drawn so far, in the order of drawing.
    pub open spec fn drawn(&self) -> Seq<Drawn> {
        self.draws@.map_values(|d: DrawText| d@)
    }

    /// The innermost open layout.
    pub open spec fn top(&self) -> Layout {
        self.layouts@.last()
    }

    /// Whether a widget of the given size can be emitted: a layout is open,
    /// and neither the widget's position nor the layout's new size leaves
    /// the grid.
    pub open spec fn can_emit(&self, size: Vec2) -> bool {
        &&& self.layouts@.len() > 0
        &&& self.top().has_next_pos()
        &&& self.top().has_room(size)
    }

    /// The stack of layouts after the innermost one has taken a widget of the
    /// given size.
    pub open spec fn layouts_with_widget(&self, size: Vec2) -> Seq<Layout> {
        self.layouts@.update(self.layouts@.len() - 1, self.top().with_widget(size))
    }

    /// Opens the root layout of a frame.
    pub fn begin(&mut self, pos: Vec2, kind: LayoutKind)
        requires
            old(self).layouts@.len() == 0,
        ensures
            final(self).layouts@ == seq![Layout { kind, pos, size: Vec2 { x: 0, y: 0 } }],
            final(self).key == old(self).key,
            final(self).draws == old(self).draws,
    {
        self.layouts.push(Layout { kind, pos, size: Vec2::new(0, 0) })
    }

    /// Opens a layout inside the innermost one, at the position that one has
    /// free.
    pub fn begin_layout(&mut self, kind: LayoutKind)
        requires
            old(self).layouts@.len() > 0,
            old(self).top().has_next_pos(),
        ensures
            final(self).layouts@ == old(self).layouts@.push(
                Layout { kind, pos: old(self).top().next_vec(), size: Vec2 { x: 0, y: 0 } },
            ),
            final(self).key == old(self).key,
            final(self).draws == old(self).draws,
    {
        let layout = self.layouts.last().unwrap();
        let pos = layout.available_pos();
        self.layouts.push(Layout { kind, pos, size: Vec2::new(0, 0) });
    }

    /// Closes the innermost layout and accounts for its size in the layout
    /// around it.
    pub fn end_layout(&mut self)
        requires
            old(self).layouts@.len() >= 2,
            old(self).layouts@[old(self).layouts@.len() - 2].has_room(old(self).top().size),
        ensures
            final(self).layouts@ == old(self).layouts@.drop_last().drop_last().push(
                old(self).layouts@[old(self).layouts@.len() - 2].with_widget(old(self).top().size),
            ),
            final(self).key == old(self).key,
            final(self).draws == old(self).draws,
    {
        let layout = self.layouts.pop().unwrap();
        self.layouts.last_mut().unwrap().add_widget(layout.size);
        assert(self.layouts@ =~= old(self).layouts@.drop_last().drop_last().push(
            old(self).layouts@[old(self).layouts@.len() - 2].with_widget(old(self).top().size),
        ));
    }

    /// Closes the root layout, and with it the frame.
    pub fn end(&mut self)
        requires
            old(self).layouts@.len() == 1,
        ensures
            final(self).layouts@.len() == 0,
            final(self).key == old(self).key,
            final(self).draws == old(self).draws,
    {
        self.layouts.pop();
    }

    /// Emits a line of text that takes `width` columns of its layout, however
    /// long the text is.
    pub fn label_fixed_width(&mut self, text: &str, width: i32, pair: i16)
        requires
            old(self).can_emit(Vec2 { x: width, y: 1 }),
        ensures
            final(self).layouts@ == old(self).layouts_with_widget(Vec2 { x: width, y: 1 }),
            final(self).drawn() == old(self).drawn().push(
                Drawn { pos: old(self).top().next_vec(), pair, text: text@ },
            ),
            final(self).key == old(self).key,
    {
        let layout = self.layouts.last_mut().unwrap();
        let pos = layout.available_pos();
        self.draws.push(DrawText { pos, pair, text: text.to_owned() });
        layout.add_widget(Vec2::new(width, 1));
        assert(self.layouts@ =~= old(self).layouts_with_widget(Vec2 { x: width, y: 1 }));
        assert(self.drawn() =~= old(self).drawn().push(
            Drawn { pos: old(self).top().next_vec(), pair, text: text@ },
        ));
    }

    /// Emits a line of text that takes as many columns as it has bytes.
    pub fn label(&mut self, text: &str, pair: i16)
        requires
            old(self).can_emit(Vec2 { x: text.len() as i32, y: 1 }),
        ensures
            final(self).layouts@ == old(self).layouts_with_widget(
                Vec2 { x: text.len() as i32, y: 1 },
            ),
            final(self).drawn() == old(self).drawn().push(
                Drawn { pos: old(self).top().next_vec(), pair, text: text@ },
            ),
            final(self).key == old(self).key,
    {
        self.label_fixed_width(text, #[verifier::truncate] (text.len() as i32), pair);
    }

    /// Emits an editable line of text that takes `width` columns of its
    /// layout, and hands it the waiting key.
    ///
    /// The cursor is first brought back into the text. A waiting key is then
    /// taken: a printable character goes into the text at the cursor, the
    /// arrow keys move the cursor, backspace and delete remove the character
    /// before and under it. Any other key is put back for the caller. The
    /// text is drawn as it stands after that, and over it the cursor.
    pub fn edit_field(&mut self, buffer: &mut String, cursor: &mut usize, width: i32)
        requires
            old(self).can_emit(Vec2 { x: width, y: 1 }),
            field_ready(
                old(buffer)@,
                *old(cursor) as int,
                old(self).key,
                old(self).top().next_pos().0,
            ),
        ensures
            final(buffer)@ == field_text(old(buffer)@, *old(cursor) as int, old(self).key),
            *final(cursor) == field_cursor(old(buffer)@, *old(cursor) as int, old(self).key),
            final(self).key == field_key(old(self).key),
            final(self).layouts@ == old(self).layouts_with_widget(Vec2 { x: width, y: 1 }),
            final(self).drawn() == old(self).drawn().push(
                Drawn { pos: old(self).top().next_vec(), pair: REGULAR_PAIR, text: final(buffer)@ },
            ).push(
                Drawn {
                    pos: Vec2 {
                        x: (old(self).top().next_pos().0 + *final(cursor)) as i32,
                        y: old(self).top().next_vec().y,
                    },
                    pair: HIGHLIGHT_PAIR,
                    text: glyph_at(final(buffer)@, *final(cursor) as int),
                },
            ),
    {
        let layout = self.layouts.last_mut().unwrap();
        let pos = layout.available_pos();

        let len: usize = str_len(buffer.as_str());
        if *cursor > len {
            *cursor = len;
        }
        if let Some(key) = self.key.take() {
            if 32 <= key && key <= 126 {
                let c: char = key_byte(key) as char;
                if *cursor >= len {
                    push_char(buffer, c);
                    proof {
                        lemma_with_char_at_end(old(buffer)@, c);
                    }
                } else {
                    insert_char(buffer, *cursor, c);
                }
                *cursor += 1;
            } else if key == key_left() {
                if *cursor > 0 {
                    *cursor -= 1
                }
            } else if key == key_right() {
                if *cursor < len {
                    *cursor += 1;
                }
            } else if key == key_backspace() {
                if *cursor > 0 {
                    *cursor -= 1;
                    if *cursor < len {
                        remove_char(buffer, *cursor);
                    }
                }
            } else if key == key_dc() {
                if *cursor < len {
                    remove_char(buffer, *cursor);
                }
            } else {
                self.key = Some(key);
            }
        }
        // The text.
        self.draws.push(DrawText { pos, pair: REGULAR_PAIR, text: buffer.clone() });
        layout.add_widget(Vec2::new(width, 1));

        // The cursor.
        self.draws.push(
            DrawText {
                pos: Vec2::new(pos.x + *cursor as i32, pos.y),
                pair: HIGHLIGHT_PAIR,
                text: glyph(buffer.as_str(), *cursor).to_owned(),
            },
        );
        assert(self.layouts@ =~= old(self).layouts_with_widget(Vec2 { x: width, y: 1 }));
        assert(self.drawn() =~= old(self).drawn().push(
            Drawn { pos: old(self).top().next_vec(), pair: REGULAR_PAIR, text: buffer@ },
        ).push(
            Drawn {
                pos: Vec2 {
                    x: (old(self).top().next_pos().0 + *cursor) as i32,
                    y: old(self).top().next_vec().y,
                },
                pair: HIGHLIGHT_PAIR,
                text: glyph_at(buffer@, *cursor as int),
            },
        ));
    }
}

} // verus!
