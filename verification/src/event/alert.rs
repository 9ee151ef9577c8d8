//! Timed alert messages drawn above the grid.

use crate::grid::builder::Builder;
use crate::terminal::{queue_extended, Terminal};
use crate::top_text_fits;
use vstd::prelude::*;

verus! {

broadcast use
    crate::terminal::lemma_queue_pushed_extended,
    crate::terminal::lemma_queue_wrote_extended,
    crate::terminal::lemma_queue_extended_trans;

/// How many handled events an alert stays on screen for.
pub const CLEAR_DELAY: usize = 75;

/// An alert message shown above the grid, cleared after some time.
pub struct Alert {
    pub message: String,
    /// The number of handled events the alert still stays on screen for.
    pub clear_delay: usize,
}

impl Alert {
    /// A fresh alert with a full clear delay.
    pub fn new(message: String) -> (r: Alert)
        ensures
            r.message == message,
            r.clear_delay == CLEAR_DELAY,
    {
        Alert { message, clear_delay: CLEAR_DELAY }
    }

    /// Clears this alert from the screen, only graphically.
    pub fn clear(&mut self, terminal: &mut Terminal, builder: &Builder)
        requires
            top_text_fits(*builder, old(self).message@.len() as int, 0),
        ensures
            *final(self) == *old(self),
            queue_extended(*old(terminal), *final(terminal)),
    {
        proof {
            crate::terminal::lemma_queue_extended_refl(*terminal);
        }
        let len = self.message.as_str().unicode_len();
        crate::set_cursor_for_top_text(terminal, builder, len, 0, None);
        let mut i: usize = 0;
        while i < len
            invariant
                queue_extended(*old(terminal), *terminal),
            decreases len - i,
        {
            terminal.write(" ");
            i += 1;
        }
    }

    /// Draws this alert above the grid.
    pub fn draw(&self, terminal: &mut Terminal, builder: &Builder)
        requires
            top_text_fits(*builder, self.message@.len() as int, 0),
        ensures
            queue_extended(*old(terminal), *final(terminal)),
    {
        let len = self.message.as_str().unicode_len();
        crate::set_cursor_for_top_text(terminal, builder, len, 0, None);
        let message = self.message.clone();
        terminal.write(message.as_str());
    }

    /// Restarts the clear delay.
    pub fn reset_clear_delay(&mut self)
        ensures
            final(self).message == old(self).message,
            final(self).clear_delay == CLEAR_DELAY,
    {
        self.clear_delay = CLEAR_DELAY;
    }
}

/// Replaces the current alert, if any, with `message` and draws it; the
/// clear delay starts over.
pub fn draw(terminal: &mut Terminal, builder: &Builder, alert: &mut Option<Alert>, message: String)
    requires
        top_text_fits(*builder, message@.len() as int, 0),
        (*old(alert)) matches Some(a) ==> top_text_fits(*builder, a.message@.len() as int, 0),
    ensures
        queue_extended(*old(terminal), *final(terminal)),
        (*final(alert)) matches Some(a) && a.message == message && a.clear_delay == CLEAR_DELAY,
{
    proof {
        crate::terminal::lemma_queue_extended_refl(*terminal);
    }
    // In some cases we might have colors set, so always reset them first.
    terminal.reset_colors();

    let mut taken: Option<Alert> = None;
    core::mem::swap(alert, &mut taken);
    match taken {
        Some(mut current_alert) => {
            current_alert.clear(terminal, builder);
            current_alert.message = message;
            current_alert.reset_clear_delay();
            current_alert.draw(terminal, builder);
            *alert = Some(current_alert);
        },
        None => {
            let new_alert = Alert::new(message);
            new_alert.draw(terminal, builder);
            *alert = Some(new_alert);
        },
    }
}

/// Counts an alert's clear delay down and clears it once the delay is over.
pub fn handle_clear_delay(terminal: &mut Terminal, builder: &Builder, alert: &mut Option<Alert>)
    requires
        (*old(alert)) matches Some(a) ==> top_text_fits(*builder, a.message@.len() as int, 0),
    ensures
        queue_extended(*old(terminal), *final(terminal)),
        (*old(alert)) is None ==> (*final(alert)) is None && *final(terminal) == *old(terminal),
        (*old(alert)) matches Some(a) ==> (a.clear_delay == 0 ==> (*final(alert)) is None),
        (*old(alert)) matches Some(a) ==> (a.clear_delay > 0 ==> ((*final(alert)) matches Some(b)
            && b.message == a.message && b.clear_delay == a.clear_delay - 1)),
{
    proof {
        crate::terminal::lemma_queue_extended_refl(*terminal);
    }
    let mut taken: Option<Alert> = None;
    core::mem::swap(alert, &mut taken);
    match taken {
        Some(mut alert_to_clear) => {
            if alert_to_clear.clear_delay == 0 {
                alert_to_clear.clear(terminal, builder);
                *alert = None;
            } else {
                alert_to_clear.clear_delay = alert_to_clear.clear_delay - 1;
                *alert = Some(alert_to_clear);
            }
        },
        None => {},
    }
}

} // verus!
