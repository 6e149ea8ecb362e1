use crate::text::after_last;
use crate::text::decimal_or_zero;
use crate::text::tail_after;
use crate::text::value_or_zero;
use vstd::prelude::*;

verus! {

/// The least column at which the right half of the frame begins.
pub const MIN_MID_COLUMN: u16 = 55;

/// The row of the log panel's heading.
pub const LOG_TOP: u16 = 24;

/// The column at which the right half of the frame begins: the middle of
/// the terminal, and not left of the least column.
pub fn mid_column(cols: u16) -> (x: u16)
    ensures
        x == if cols / 2 >= MIN_MID_COLUMN {
            (cols / 2) as u16
        } else {
            MIN_MID_COLUMN
        },
{
    let half: u16 = cols / 2;
    if half >= MIN_MID_COLUMN {
        half
    } else {
        MIN_MID_COLUMN
    }
}

/// How many of `available` log lines a terminal of `rows` rows shows: the
/// lines go below the heading of the panel, one per row, and leave the last
/// row to the footer.
pub open spec fn log_lines_shown(available: int, rows: int) -> int {
    let room = rows - 1 - (LOG_TOP + 1);
    if room <= 0 {
        0
    } else if available <= room {
        available
    } else {
        room
    }
}

/// How many of `available` log lines a terminal of `rows` rows shows.
pub fn visible_log_lines(available: usize, rows: u16) -> (n: usize)
    ensures
        n == log_lines_shown(available as int, rows as int),
        n <= available,
{
    if rows <= LOG_TOP + 2 {
        0
    } else {
        let room: usize = (rows - (LOG_TOP + 2)) as usize;
        if available <= room {
            available
        } else {
            room
        }
    }
}

/// Where the shown part of a log line of `len` bytes begins on a terminal
/// `cols` columns wide: a line that is too long keeps its tail.
pub fn tail_start(len: usize, cols: u16) -> (start: usize)
    ensures
        start == if len > cols {
            len - cols
        } else {
            0
        },
        len - start <= cols,
{
    if len > cols as usize {
        len - cols as usize
    } else {
        0
    }
}

/// The clock frequency in megahertz that a vendor tool's answer gives: the
/// decimal number after its last equals sign, in hertz, divided by a
/// million; 0 where that is no number.
pub open spec fn clock_mhz_of(answer: Seq<u8>) -> u64 {
    value_or_zero(after_last(answer, 61), 10) / 1_000_000
}

/// Reads the clock frequency in megahertz from a vendor tool's answer.
pub fn clock_mhz(answer: &[u8]) -> (mhz: u64)
    ensures
        mhz == clock_mhz_of(answer@),
{
    let tail: Vec<u8> = tail_after(answer, 61);
    decimal_or_zero(tail.as_slice()) / 1_000_000
}

} // verus!
