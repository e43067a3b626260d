//! The numbers behind what is drawn of a track: the clock face of a span
//! and the heights of the bars that move with the playback position.

use vstd::prelude::*;
use crate::timespan::TimeSpan;

verus! {

/// By how much the height of a bar differs from that of the bar before it.
pub const BAR_STRIDE: u64 = 13;

/// The whole minutes of a span and the whole seconds beyond them, as a
/// clock shows them.
pub fn clock_parts(span: &TimeSpan) -> (parts: (u64, u64))
    ensures
        parts.0 as nat == span@ / 60_000_000_000,
        parts.1 as nat == (span@ / 1_000_000_000) % 60,
{
    let secs: u64 = span.as_secs();
    assert(span@ / 60_000_000_000 == (span@ / 1_000_000_000) / 60) by {
        let n = span@ as int;
        assert(n / 60_000_000_000 == (n / 1_000_000_000) / 60) by (nonlinear_arith)
            requires
                n >= 0,
        ;
    }
    (secs / 60, secs % 60)
}

/// The height of the bar in `column` when the track has played for
/// `elapsed_millis` milliseconds, in a field `max_height` rows high.
pub open spec fn bar_height_of(elapsed_millis: u64, column: u16, max_height: u16) -> int {
    ((elapsed_millis + column * 13) % 0x1_0000_0000_0000_0000) % (max_height + 1)
}

/// The height of the bar in `column`: it follows the elapsed time, each
/// column a stride further than the one before it, and never leaves the
/// field.
pub fn bar_height(elapsed_millis: u64, column: u16, max_height: u16) -> (height: u16)
    ensures
        height == bar_height_of(elapsed_millis, column, max_height),
        height <= max_height,
{
    let offset: u64 = (column as u64) * BAR_STRIDE;
    let moved: u64 = elapsed_millis.wrapping_add(offset);
    let rows: u64 = (max_height as u64) + 1;
    (moved % rows) as u16
}

} // verus!
