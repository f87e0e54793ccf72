use vstd::prelude::*;

use crate::storage::{Entry, Priority, State};

verus! {

/// How a bullet is set out in a listing.
#[derive(PartialEq, Eq, Structural, Clone, Copy, Debug)]
pub struct BulletStyle {
    /// The state is shown muted: the bullet was discarded.
    pub state_muted: bool,
    /// The text is shown as an alarm: the bullet is keter.
    pub alarming: bool,
}

/// How `entry` is set out in a listing: a discarded bullet has its state
/// muted, a keter bullet has its text shown as an alarm.
pub fn bullet_style(entry: &Entry) -> (style: BulletStyle)
    ensures
        style.state_muted == (entry.state == State::Discarded),
        style.alarming == (entry.priority == Priority::Keter),
{
    BulletStyle {
        state_muted: entry.state == State::Discarded,
        alarming: entry.priority == Priority::Keter,
    }
}

} // verus!
