//! Raw three-byte keypress records and what they mean to the game.

use vstd::prelude::*;
use crate::grid::Direction;

verus! {

/// The escape byte that starts an arrow-key sequence and, alone, quits.
pub const ESC: u8 = 0x1B;

/// The bracket that follows the escape byte in an arrow-key sequence.
pub const BRACKET: u8 = 0x5B;

/// The letter `p`, which pauses.
pub const LETTER_P: u8 = 0x70;

/// The letter `r`, which repaints the board while paused.
pub const LETTER_R: u8 = 0x72;

/// The letter `A`, which ends the sequence of the up arrow.
pub const ARROW_UP: u8 = 0x41;

/// The letter `B`, which ends the sequence of the down arrow.
pub const ARROW_DOWN: u8 = 0x42;

/// The letter `C`, which ends the sequence of the right arrow.
pub const ARROW_RIGHT: u8 = 0x43;

/// The letter `D`, which ends the sequence of the left arrow.
pub const ARROW_LEFT: u8 = 0x44;

/// What a non-blocking poll of the input channel found.
#[derive(Clone, Copy, Debug, PartialEq, Eq)]
pub enum Poll {
    /// A keypress record was waiting.
    Record([u8; 3]),
    /// Nothing was waiting.
    Empty,
    /// The reader at the other end of the channel is gone.
    Disconnected,
}

/// The pause of the input reader between two reads, in milliseconds.
pub const READ_INTERVAL: u64 = 5;

/// The record for what one read of the keyboard gave: its first three bytes,
/// with zeros where fewer arrived.
pub open spec fn framed(bytes: Seq<u8>) -> Seq<u8> {
    Seq::new(
        3,
        |i: int|
            if i < bytes.len() {
                bytes[i]
            } else {
                0u8
            },
    )
}

/// Frames what one read of the keyboard gave as a keypress record.
pub fn record_from(bytes: &[u8]) -> (record: [u8; 3])
    ensures
        record@ == framed(bytes@),
{
    let n: usize = bytes.len();
    let record: [u8; 3] = [
        if 0 < n {
            bytes[0]
        } else {
            0
        },
        if 1 < n {
            bytes[1]
        } else {
            0
        },
        if 2 < n {
            bytes[2]
        } else {
            0
        },
    ];
    assert(record@ =~= framed(bytes@));
    record
}

/// The meaning of one keypress record.
#[derive(Clone, Copy, Debug, PartialEq, Eq, Structural)]
pub enum Key {
    /// Three zero bytes: nothing was pressed.
    Idle,
    /// Escape alone.
    Quit,
    /// The letter `p` alone.
    Pause,
    /// The letter `r` alone.
    Redraw,
    /// An arrow key.
    Arrow(Direction),
    /// Anything else.
    Other,
}

/// Reads a record given as its three bytes.
pub open spec fn key_of(b0: u8, b1: u8, b2: u8) -> Key {
    if b0 == ESC && b1 == 0 {
        Key::Quit
    } else if b0 == LETTER_P && b1 == 0 {
        Key::Pause
    } else if b0 == LETTER_R && b1 == 0 {
        Key::Redraw
    } else if b0 == ESC && b1 == BRACKET && b2 == ARROW_UP {
        Key::Arrow(Direction::Up)
    } else if b0 == ESC && b1 == BRACKET && b2 == ARROW_DOWN {
        Key::Arrow(Direction::Down)
    } else if b0 == ESC && b1 == BRACKET && b2 == ARROW_RIGHT {
        Key::Arrow(Direction::Right)
    } else if b0 == ESC && b1 == BRACKET && b2 == ARROW_LEFT {
        Key::Arrow(Direction::Left)
    } else if b0 == 0 && b1 == 0 && b2 == 0 {
        Key::Idle
    } else {
        Key::Other
    }
}

/// The direction of travel after `key` was pressed while heading `dir`: an
/// arrow is taken unless it points straight back.
pub open spec fn turned(dir: Direction, key: Key) -> Direction {
    match key {
        Key::Arrow(d) => if d == dir.reversed() {
            dir
        } else {
            d
        },
        _ => dir,
    }
}

impl Key {
    /// Reads a raw keypress record.
    pub fn decode(record: &[u8; 3]) -> (k: Key)
        ensures
            k == key_of(record@[0], record@[1], record@[2]),
    {
        let b0: u8 = record[0];
        let b1: u8 = record[1];
        let b2: u8 = record[2];
        if b0 == ESC && b1 == 0 {
            Key::Quit
        } else if b0 == LETTER_P && b1 == 0 {
            Key::Pause
        } else if b0 == LETTER_R && b1 == 0 {
            Key::Redraw
        } else if b0 == ESC && b1 == BRACKET {
            if b2 == ARROW_UP {
                Key::Arrow(Direction::Up)
            } else if b2 == ARROW_DOWN {
                Key::Arrow(Direction::Down)
            } else if b2 == ARROW_RIGHT {
                Key::Arrow(Direction::Right)
            } else if b2 == ARROW_LEFT {
                Key::Arrow(Direction::Left)
            } else {
                Key::Other
            }
        } else if b0 == 0 && b1 == 0 && b2 == 0 {
            Key::Idle
        } else {
            Key::Other
        }
    }
}

impl Direction {
    /// Applies a keypress to the direction of travel.
    pub fn turn(self, key: Key) -> (r: Direction)
        ensures
            r == turned(self, key),
    {
        match key {
            Key::Arrow(d) => if d == self.opposite() {
                self
            } else {
                d
            },
            _ => self,
        }
    }
}

/// Pressing the same key twice in a row leaves the snake heading where one
/// press did.
pub proof fn turning_is_idempotent(dir: Direction, key: Key)
    ensures
        turned(turned(dir, key), key) == turned(dir, key),
{
}

/// An arrow pointing straight back is ignored; any other arrow is obeyed; a
/// key that is no arrow never turns the snake.
pub proof fn reversal_is_rejected(dir: Direction, key: Key)
    ensures
        key == Key::Arrow(dir.reversed()) ==> turned(dir, key) == dir,
        forall|d: Direction| key == Key::Arrow(d) && d != dir.reversed() ==> turned(dir, key) == d,
        !(key is Arrow) ==> turned(dir, key) == dir,
        turned(dir, key) != dir.reversed(),
{
}

} // verus!
