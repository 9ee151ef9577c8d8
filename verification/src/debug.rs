//! Debug-print helpers.

use crate::terminal::{queue_extended, Terminal};
use vstd::prelude::*;

verus! {

broadcast use
    crate::terminal::lemma_queue_pushed_extended,
    crate::terminal::lemma_queue_wrote_extended,
    crate::terminal::lemma_queue_extended_trans;

/// Prints a debugging message and moves the cursor to the next line's
/// start, so consecutive messages stack.
pub fn print(terminal: &mut Terminal, message: &str)
    ensures
        queue_extended(*old(terminal), *final(terminal)),
{
    terminal.write(message);
    terminal.move_cursor_down();
    terminal.set_cursor_x(0);
}

} // verus!
