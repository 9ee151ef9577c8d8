//! A model of the terminal.
//!
//! The `Terminal` owns a queue of pending commands. The verified code appends
//! commands (text, cursor movement, colors); an unverified backend later
//! interprets the queue, turning each command into the matching escape
//! sequence or system call and performing the actual output. The contracts
//! here pin down exactly what each method appends, so callers can reason
//! about everything but the final encoding.

pub mod event;
pub mod util;

use crate::terminal::util::{Color, Point, Size};
use vstd::prelude::*;

verus! {

/// One queued terminal operation, to be performed by the backend.
#[derive(PartialEq, Eq, Debug)]
pub enum TerminalCommand {
    /// Write text at the cursor.
    Write(String),
    /// Write raw bytes at the cursor.
    WriteBytes(Vec<u8>),
    /// Deliver everything queued so far to the screen.
    Flush,
    MoveTo(Point),
    MoveToColumn(u16),
    MoveToRow(u16),
    MoveUpBy(u16),
    MoveDownBy(u16),
    MoveLeftBy(u16),
    MoveRightBy(u16),
    SavePosition,
    RestorePosition,
    SetForegroundColor(Color),
    SetBackgroundColor(Color),
    ResetColor,
    Clear,
    ClearFromCursorToEnd,
    EnterAlternateScreen,
    LeaveAlternateScreen,
    SetTitle(String),
    EnableMouseCapture,
    DisableMouseCapture,
    ShowCursor,
    HideCursor,
    EnableRawMode,
    DisableRawMode,
}

/// Returned by a backend when the standard output is not a terminal.
#[derive(Clone, Copy, Debug)]
#[non_exhaustive]
pub struct NotTTY;

/// The terminal: its reported size and the queue of pending commands.
pub struct Terminal {
    pub size: Size,
    pub commands: Vec<TerminalCommand>,
    pub initialized: bool,
    pub with_mouse: bool,
}

/// `new` extends `old` only by appending commands: the size and the mode
/// flags are kept and the old queue is a prefix of the new one.
pub open spec fn queue_extended(old: Terminal, new: Terminal) -> bool {
    &&& new.size == old.size
    &&& new.initialized == old.initialized
    &&& new.with_mouse == old.with_mouse
    &&& old.commands@.len() <= new.commands@.len()
    &&& new.commands@.take(old.commands@.len() as int) == old.commands@
}

/// `new` is `old` with exactly the command `cmd` appended.
pub open spec fn queue_pushed(old: Terminal, new: Terminal, cmd: TerminalCommand) -> bool {
    &&& new.size == old.size
    &&& new.initialized == old.initialized
    &&& new.with_mouse == old.with_mouse
    &&& new.commands@ == old.commands@.push(cmd)
}

/// `new` is `old` with one text command appended whose content is `text`.
pub open spec fn queue_wrote(old: Terminal, new: Terminal, text: Seq<char>) -> bool {
    &&& new.size == old.size
    &&& new.initialized == old.initialized
    &&& new.with_mouse == old.with_mouse
    &&& new.commands@.len() == old.commands@.len() + 1
    &&& new.commands@.take(old.commands@.len() as int) == old.commands@
    &&& new.commands@.last() matches TerminalCommand::Write(s) && s@ == text
}

/// Extending by nothing is extending: the queue is a prefix of itself.
pub proof fn lemma_queue_extended_refl(t: Terminal)
    ensures
        queue_extended(t, t),
{
    assert(t.commands@.take(t.commands@.len() as int) =~= t.commands@);
}

/// Appending exactly one command is one way of extending the queue.
pub broadcast proof fn lemma_queue_pushed_extended(t1: Terminal, t2: Terminal, cmd: TerminalCommand)
    requires
        #[trigger] queue_pushed(t1, t2, cmd),
    ensures
        queue_extended(t1, t2),
{
    assert(t2.commands@.take(t1.commands@.len() as int) =~= t1.commands@);
}

/// Writing one text command is one way of extending the queue.
pub broadcast proof fn lemma_queue_wrote_extended(t1: Terminal, t2: Terminal, text: Seq<char>)
    requires
        #[trigger] queue_wrote(t1, t2, text),
    ensures
        queue_extended(t1, t2),
{
}

/// Extending the queue twice extends it.
pub broadcast proof fn lemma_queue_extended_trans(t1: Terminal, t2: Terminal, t3: Terminal)
    requires
        #[trigger] queue_extended(t1, t2),
        #[trigger] queue_extended(t2, t3),
    ensures
        queue_extended(t1, t3),
{
    let l1 = t1.commands@.len() as int;
    let l2 = t2.commands@.len() as int;
    assert forall|i: int| 0 <= i < l1 implies t3.commands@.take(l1)[i] == t1.commands@[i] by {
        assert(t2.commands@[i] == t2.commands@.take(l1)[i]);
        assert(t3.commands@.take(l2)[i] == t2.commands@[i]);
    }
    assert(t3.commands@.take(l1) =~= t1.commands@);
}

impl Terminal {
    /// A terminal of the given size with an empty command queue.
    pub fn new(size: Size) -> (r: Terminal)
        ensures
            r.size == size,
            r.commands@ =~= Seq::<TerminalCommand>::empty(),
            !r.initialized,
            !r.with_mouse,
    {
        Terminal { size, commands: Vec::new(), initialized: false, with_mouse: false }
    }

    /// Queues text to be written at the cursor.
    pub fn write(&mut self, string: &str)
        ensures
            queue_wrote(*old(self), *final(self), string@),
    {
        self.commands.push(TerminalCommand::Write(String::from_str(string)));
        proof {
            assert(final(self).commands@.take(old(self).commands@.len() as int)
                =~= old(self).commands@);
        }
    }

    /// Queues raw bytes to be written at the cursor.
    pub fn write_bytes(&mut self, bytes: &[u8])
        ensures
            queue_extended(*old(self), *final(self)),
            final(self).commands@.len() == old(self).commands@.len() + 1,
            final(self).commands@.last() matches TerminalCommand::WriteBytes(b) && b@ == bytes@,
    {
        self.commands.push(TerminalCommand::WriteBytes(vstd::slice::slice_to_vec(bytes)));
        proof {
            assert(final(self).commands@.take(old(self).commands@.len() as int)
                =~= old(self).commands@);
        }
    }

    /// Asks the backend to deliver everything queued so far.
    pub fn flush(&mut self)
        ensures
            queue_pushed(*old(self), *final(self), TerminalCommand::Flush),
    {
        self.commands.push(TerminalCommand::Flush);
    }

    /// Switches to the alternate screen the game is drawn on.
    pub fn enter_alternate_dimension(&mut self)
        ensures
            queue_pushed(*old(self), *final(self), TerminalCommand::EnterAlternateScreen),
    {
        self.commands.push(TerminalCommand::EnterAlternateScreen);
    }

    /// Switches back to the normal screen.
    pub fn exit_alternate_dimension(&mut self)
        ensures
            queue_pushed(*old(self), *final(self), TerminalCommand::LeaveAlternateScreen),
    {
        self.commands.push(TerminalCommand::LeaveAlternateScreen);
    }

    /// Asks the backend to deliver input byte by byte, unbuffered.
    pub fn enable_raw_mode(&mut self)
        ensures
            queue_pushed(*old(self), *final(self), TerminalCommand::EnableRawMode),
    {
        self.commands.push(TerminalCommand::EnableRawMode);
    }

    /// Restores buffered input.
    pub fn disable_raw_mode(&mut self)
        ensures
            queue_pushed(*old(self), *final(self), TerminalCommand::DisableRawMode),
    {
        self.commands.push(TerminalCommand::DisableRawMode);
    }

    /// Makes this terminal suitable for drawing and input: alternate screen,
    /// raw mode, hidden cursor, optionally a title and mouse capture.
    pub fn initialize(&mut self, title: Option<&str>, with_mouse: bool)
        ensures
            final(self).size == old(self).size,
            final(self).initialized,
            final(self).with_mouse == with_mouse,
            old(self).commands@.len() <= final(self).commands@.len(),
            final(self).commands@.take(old(self).commands@.len() as int) == old(self).commands@,
    {
        self.commands.push(TerminalCommand::EnterAlternateScreen);
        self.commands.push(TerminalCommand::EnableRawMode);
        self.commands.push(TerminalCommand::HideCursor);
        if let Some(title) = title {
            self.commands.push(TerminalCommand::SetTitle(String::from_str(title)));
        }
        if with_mouse {
            self.commands.push(TerminalCommand::EnableMouseCapture);
        }
        self.initialized = true;
        self.with_mouse = with_mouse;
        proof {
            assert(final(self).commands@.take(old(self).commands@.len() as int)
                =~= old(self).commands@);
        }
    }

    /// Restores the terminal to its normal state.
    pub fn deinitialize(&mut self)
        requires
            old(self).initialized,
        ensures
            final(self).size == old(self).size,
            !final(self).initialized,
            old(self).commands@.len() <= final(self).commands@.len(),
            final(self).commands@.take(old(self).commands@.len() as int) == old(self).commands@,
    {
        self.commands.push(TerminalCommand::LeaveAlternateScreen);
        self.commands.push(TerminalCommand::DisableRawMode);
        self.commands.push(TerminalCommand::ShowCursor);
        if self.with_mouse {
            self.commands.push(TerminalCommand::DisableMouseCapture);
        }
        self.initialized = false;
        proof {
            assert(final(self).commands@.take(old(self).commands@.len() as int)
                =~= old(self).commands@);
        }
    }

    /// Whether the point lies strictly inside the screen edges.
    pub fn contains(&self, point: Point) -> (r: bool)
        ensures
            r == (point.x > 0 && point.x < self.size.width && point.y > 0
                && point.y < self.size.height),
    {
        point.x > 0 && point.x < self.size.width && point.y < self.size.height && point.y > 0
    }

    /// Sets the cursor to the top left corner.
    pub fn reset_cursor(&mut self)
        ensures
            queue_wrote(*old(self), *final(self), "\u{1b}[;H"@),
    {
        self.write("\u{1b}[;H");
    }

    /// Sets the cursor to `point`.
    pub fn set_cursor(&mut self, point: Point)
        ensures
            queue_pushed(*old(self), *final(self), TerminalCommand::MoveTo(point)),
    {
        self.commands.push(TerminalCommand::MoveTo(point));
    }

    /// Sets the cursor column to `x`.
    pub fn set_cursor_x(&mut self, x: u16)
        ensures
            queue_pushed(*old(self), *final(self), TerminalCommand::MoveToColumn(x)),
    {
        self.commands.push(TerminalCommand::MoveToColumn(x));
    }

    /// Sets the cursor row to `y`.
    pub fn set_cursor_y(&mut self, y: u16)
        ensures
            queue_pushed(*old(self), *final(self), TerminalCommand::MoveToRow(y)),
    {
        self.commands.push(TerminalCommand::MoveToRow(y));
    }

    pub fn move_cursor_up_by(&mut self, cells: u16)
        ensures
            queue_pushed(*old(self), *final(self), TerminalCommand::MoveUpBy(cells)),
    {
        self.commands.push(TerminalCommand::MoveUpBy(cells));
    }

    pub fn move_cursor_down_by(&mut self, cells: u16)
        ensures
            queue_pushed(*old(self), *final(self), TerminalCommand::MoveDownBy(cells)),
    {
        self.commands.push(TerminalCommand::MoveDownBy(cells));
    }

    pub fn move_cursor_left_by(&mut self, cells: u16)
        ensures
            queue_pushed(*old(self), *final(self), TerminalCommand::MoveLeftBy(cells)),
    {
        self.commands.push(TerminalCommand::MoveLeftBy(cells));
    }

    pub fn move_cursor_right_by(&mut self, cells: u16)
        ensures
            queue_pushed(*old(self), *final(self), TerminalCommand::MoveRightBy(cells)),
    {
        self.commands.push(TerminalCommand::MoveRightBy(cells));
    }

    pub fn move_cursor_up(&mut self)
        ensures
            queue_wrote(*old(self), *final(self), "\u{1b}[A"@),
    {
        self.write("\u{1b}[A");
    }

    pub fn move_cursor_down(&mut self)
        ensures
            queue_wrote(*old(self), *final(self), "\u{1b}[B"@),
    {
        self.write("\u{1b}[B");
    }

    pub fn move_cursor_left(&mut self)
        ensures
            queue_wrote(*old(self), *final(self), "\u{1b}[D"@),
    {
        self.write("\u{1b}[D");
    }

    pub fn move_cursor_right(&mut self)
        ensures
            queue_wrote(*old(self), *final(self), "\u{1b}[C"@),
    {
        self.write("\u{1b}[C");
    }

    /// Moves the cursor to the start of the next line.
    pub fn next_line(&mut self)
        ensures
            queue_wrote(*old(self), *final(self), "\u{1b}[E"@),
    {
        self.write("\u{1b}[E");
    }

    /// Moves the cursor to the start of the previous line.
    pub fn previous_line(&mut self)
        ensures
            queue_wrote(*old(self), *final(self), "\u{1b}[F"@),
    {
        self.write("\u{1b}[F");
    }

    pub fn save_cursor_point(&mut self)
        ensures
            queue_pushed(*old(self), *final(self), TerminalCommand::SavePosition),
    {
        self.commands.push(TerminalCommand::SavePosition);
    }

    pub fn restore_cursor_point(&mut self)
        ensures
            queue_pushed(*old(self), *final(self), TerminalCommand::RestorePosition),
    {
        self.commands.push(TerminalCommand::RestorePosition);
    }

    pub fn set_foreground_color(&mut self, color: Color)
        ensures
            queue_pushed(*old(self), *final(self), TerminalCommand::SetForegroundColor(color)),
    {
        self.commands.push(TerminalCommand::SetForegroundColor(color));
    }

    pub fn set_background_color(&mut self, color: Color)
        ensures
            queue_pushed(*old(self), *final(self), TerminalCommand::SetBackgroundColor(color)),
    {
        self.commands.push(TerminalCommand::SetBackgroundColor(color));
    }

    /// Changes the terminal's foreground text color to the hexadecimal color
    /// `hex_color`, such as `"FF0000"`.
    pub fn change_foreground_color(&mut self, hex_color: &str)
        ensures
            queue_wrote(*old(self), *final(self), "\u{1b}]10;#"@ + hex_color@ + "\u{7}"@),
    {
        let mut s = String::from_str("\u{1b}]10;#");
        s.append(hex_color);
        s.append("\u{7}");
        self.write(s.as_str());
    }

    pub fn reset_foreground_color(&mut self)
        ensures
            queue_wrote(*old(self), *final(self), "\u{1b}]110\u{7}"@),
    {
        self.write("\u{1b}]110\u{7}");
    }

    /// Changes the terminal's background color to the hexadecimal color
    /// `hex_color`, such as `"FF0000"`.
    pub fn change_background_color(&mut self, hex_color: &str)
        ensures
            queue_wrote(*old(self), *final(self), "\u{1b}]11;#"@ + hex_color@ + "\u{7}"@),
    {
        let mut s = String::from_str("\u{1b}]11;#");
        s.append(hex_color);
        s.append("\u{7}");
        self.write(s.as_str());
    }

    pub fn reset_background_color(&mut self)
        ensures
            queue_wrote(*old(self), *final(self), "\u{1b}]111\u{7}"@),
    {
        self.write("\u{1b}]111\u{7}");
    }

    /// Changes the terminal's cursor color to the hexadecimal color
    /// `hex_color`, such as `"FF0000"`.
    pub fn change_cursor_color(&mut self, hex_color: &str)
        ensures
            queue_wrote(*old(self), *final(self), "\u{1b}]12;#"@ + hex_color@ + "\u{7}"@),
    {
        let mut s = String::from_str("\u{1b}]12;#");
        s.append(hex_color);
        s.append("\u{7}");
        self.write(s.as_str());
    }

    pub fn reset_cursor_color(&mut self)
        ensures
            queue_wrote(*old(self), *final(self), "\u{1b}]112\u{7}"@),
    {
        self.write("\u{1b}]112\u{7}");
    }

    pub fn reset_colors(&mut self)
        ensures
            queue_pushed(*old(self), *final(self), TerminalCommand::ResetColor),
    {
        self.commands.push(TerminalCommand::ResetColor);
    }

    /// Clears the whole screen.
    pub fn clear(&mut self)
        ensures
            queue_pushed(*old(self), *final(self), TerminalCommand::Clear),
    {
        self.commands.push(TerminalCommand::Clear);
    }

    pub fn clear_from_cursor_to_end(&mut self)
        ensures
            queue_pushed(*old(self), *final(self), TerminalCommand::ClearFromCursorToEnd),
    {
        self.commands.push(TerminalCommand::ClearFromCursorToEnd);
    }

    /// Sets the window title.
    pub fn set_title(&mut self, title: &str)
        ensures
            queue_extended(*old(self), *final(self)),
            final(self).commands@.len() == old(self).commands@.len() + 1,
            final(self).commands@.last() matches TerminalCommand::SetTitle(s) && s@ == title@,
    {
        self.commands.push(TerminalCommand::SetTitle(String::from_str(title)));
        proof {
            assert(final(self).commands@.take(old(self).commands@.len() as int)
                =~= old(self).commands@);
        }
    }

    pub fn enable_mouse_capture(&mut self)
        ensures
            final(self).size == old(self).size,
            final(self).initialized == old(self).initialized,
            final(self).with_mouse,
            final(self).commands@ == old(self).commands@.push(
                TerminalCommand::EnableMouseCapture,
            ),
    {
        self.commands.push(TerminalCommand::EnableMouseCapture);
        self.with_mouse = true;
    }

    pub fn disable_mouse_capture(&mut self)
        ensures
            final(self).size == old(self).size,
            final(self).initialized == old(self).initialized,
            !final(self).with_mouse,
            final(self).commands@ == old(self).commands@.push(
                TerminalCommand::DisableMouseCapture,
            ),
    {
        self.commands.push(TerminalCommand::DisableMouseCapture);
        self.with_mouse = false;
    }

    pub fn show_cursor(&mut self)
        ensures
            queue_pushed(*old(self), *final(self), TerminalCommand::ShowCursor),
    {
        self.commands.push(TerminalCommand::ShowCursor);
    }

    pub fn hide_cursor(&mut self)
        ensures
            queue_pushed(*old(self), *final(self), TerminalCommand::HideCursor),
    {
        self.commands.push(TerminalCommand::HideCursor);
    }
}

} // verus!
