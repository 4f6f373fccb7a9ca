//! The key codes of curses that the editor acts on.
//!
//! The codes are read from the `ncurses` crate, so that a key which its
//! `getch` delivers is recognised here. The printable characters are their
//! own codes.

use vstd::prelude::*;

verus! {

/// Code of the left-arrow key.
pub open spec fn left_code() -> i32 {
    0x104
}

/// Code of the right-arrow key.
pub open spec fn right_code() -> i32 {
    0x105
}

/// Code of the backspace key.
pub open spec fn backspace_code() -> i32 {
    0x107
}

/// Code of the delete-character key.
pub open spec fn delete_code() -> i32 {
    0x14a
}

/// `ncurses::constants::KEY_LEFT`, which that crate sets to 0x104.
#[verifier::external_body]
pub(crate) fn key_left() -> (code: i32)
    ensures
        code == left_code(),
{
    ncurses::constants::KEY_LEFT
}

/// `ncurses::constants::KEY_RIGHT`, which that crate sets to 0x105.
#[verifier::external_body]
pub(crate) fn key_right() -> (code: i32)
    ensures
        code == right_code(),
{
    ncurses::constants::KEY_RIGHT
}

/// `ncurses::constants::KEY_BACKSPACE`, which that crate sets to 0x107.
#[verifier::external_body]
pub(crate) fn key_backspace() -> (code: i32)
    ensures
        code == backspace_code(),
{
    ncurses::constants::KEY_BACKSPACE
}

/// `ncurses::constants::KEY_DC`, which that crate sets to 0x14a.
#[verifier::external_body]
pub(crate) fn key_dc() -> (code: i32)
    ensures
        code == delete_code(),
{
    ncurses::constants::KEY_DC
}

/// Whether a key code is that of a printable ASCII character.
pub open spec fn is_printable(key: i32) -> bool {
    32 <= key <= 126
}

/// The low byte of a key code, which is how the editor reads a key as a
/// character.
pub open spec fn low_byte(key: i32) -> u8 {
    (key & 0xff) as u8
}

/// The character that a key stands for in a command table.
pub open spec fn key_char(key: i32) -> char {
    low_byte(key) as char
}

/// Reads a key as a character by its low byte.
pub fn key_byte(key: i32) -> (b: u8)
    ensures
        b == low_byte(key),
        is_printable(key) ==> b == key,
{
    let b: u8 = (key & 0xff) as u8;
    assert(0 <= key & 0xff < 256) by (bit_vector);
    assert(32 <= key <= 126 ==> key & 0xff == key) by (bit_vector);
    b
}

} // verus!
