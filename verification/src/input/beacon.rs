//! The beacon: what the window at a pressed edge is told, and what it makes of it.

use vstd::prelude::*;

use crate::float::{Double, Single, SINGLE_ONE};

verus! {

/// The bits of 0.42: for how many seconds the window shows that the cursor came.
pub const CONFIRM_SECONDS: u32 = 0x3ed7_0a3d;

/// The bits of 0.28: for how many seconds the window shows that it did not.
pub const CANCEL_SECONDS: u32 = 0x3e8f_5c29;

/// What a window is told.
#[derive(Clone, Copy, Debug, PartialEq, Eq, Structural)]
pub struct Update {
    pub position: Double,
    pub progress: Single,
    pub confirmed: bool,
    pub cancel: bool,
}

/// The end that tells: where the edge was pressed last, and for how long.
#[derive(Clone, Copy, Debug, PartialEq, Eq, Structural)]
pub struct Beacon {
    pub position: Double,
    pub progress: Single,
}

impl Beacon {
    /// The edge begins to be pressed.
    pub open spec fn shown(position: Double) -> Beacon {
        Beacon { position, progress: Single { bits: 0 } }
    }

    /// The edge is pressed on: what the end that tells keeps, and what it tells.
    pub open spec fn pressed(
        self,
        position: Double,
        progress: Single,
        confirmed: bool,
    ) -> (Beacon, Update) {
        (Beacon { position, progress }, Update { position, progress, confirmed, cancel: false })
    }

    /// The cursor came: what the end that tells keeps, and what it tells.
    pub open spec fn confirmed(self) -> (Beacon, Update) {
        (
            Beacon { progress: Single { bits: SINGLE_ONE }, ..self },
            Update {
                position: self.position,
                progress: Single { bits: SINGLE_ONE },
                confirmed: true,
                cancel: false,
            },
        )
    }

    /// The edge is pressed no longer: what the end that tells tells.
    pub open spec fn cancelled(self) -> Update {
        Update {
            position: self.position,
            progress: self.progress,
            confirmed: false,
            cancel: true,
        }
    }

    /// The edge begins to be pressed.
    pub fn show(position: Double) -> (beacon: Self)
        ensures
            beacon == Beacon::shown(position),
    {
        Beacon { position, progress: Single { bits: 0 } }
    }

    /// The edge is pressed on.
    pub fn update(&mut self, position: Double, progress: Single, confirmed: bool) -> (update: Update)
        ensures
            (*final(self), update) == old(self).pressed(position, progress, confirmed),
    {
        self.position = position;
        self.progress = progress;
        Update { position, progress, confirmed, cancel: false }
    }

    /// The cursor came.
    pub fn confirm(&mut self) -> (update: Update)
        ensures
            (*final(self), update) == old(self).confirmed(),
    {
        let position = self.position;
        self.update(position, Single { bits: SINGLE_ONE }, true)
    }

    /// The edge is pressed no longer.
    pub fn cancel(&self) -> (update: Update)
        ensures
            update == self.cancelled(),
    {
        Update {
            position: self.position,
            progress: self.progress,
            confirmed: false,
            cancel: true,
        }
    }
}

/// The end that is told: where the window draws, how far it is to draw, and
/// whether it is about to close, after the cursor came or without it.
#[derive(Clone, Copy, Debug, PartialEq, Eq, Structural)]
pub struct Portal {
    pub position: Double,
    pub target: Single,
    pub closing: Option<bool>,
}

impl Portal {
    /// What an update makes of the window.
    pub open spec fn told(self, update: Update) -> Portal {
        Portal {
            position: update.position,
            target: if update.cancel && !update.confirmed {
                Single { bits: 0 }
            } else {
                update.progress
            },
            closing: if update.confirmed {
                Some(true)
            } else if update.cancel {
                Some(false)
            } else {
                self.closing
            },
        }
    }

    /// Whether the window closes, so many seconds after it was told to.
    pub open spec fn is_over(self, seconds: Single) -> bool {
        match self.closing {
            Some(true) => !seconds.is_nan() && seconds.rank() > CONFIRM_SECONDS,
            Some(false) => !seconds.is_nan() && seconds.rank() > CANCEL_SECONDS,
            None => false,
        }
    }

    /// A window that opens.
    pub open spec fn opened(position: Double) -> Portal {
        Portal { position, target: Single { bits: 0 }, closing: None }
    }

    /// Whether the time until the window closes begins anew with an update.
    pub open spec fn restarts(update: Update) -> bool {
        update.confirmed || update.cancel
    }

    /// A window that opens.
    pub fn new(position: Double) -> (portal: Self)
        ensures
            portal == Portal::opened(position),
    {
        Portal { position, target: Single { bits: 0 }, closing: None }
    }

    /// Takes an update in. Returns whether the time until the window closes begins
    /// anew.
    pub fn receive(&mut self, update: Update) -> (restarts: bool)
        ensures
            *final(self) == old(self).told(update),
            restarts == Portal::restarts(update),
    {
        self.position = update.position;
        self.target = update.progress;
        if update.confirmed {
            self.closing = Some(true);
        } else if update.cancel {
            self.closing = Some(false);
            self.target = Single { bits: 0 };
        }
        update.confirmed || update.cancel
    }

    /// Whether the window closes, so many seconds after it was told to.
    pub fn closes(&self, seconds: Single) -> (closes: bool)
        ensures
            closes == self.is_over(seconds),
    {
        match self.closing {
            Some(came) => if came {
                seconds.above(CONFIRM_SECONDS)
            } else {
                seconds.above(CANCEL_SECONDS)
            },
            None => false,
        }
    }
}

/// A window that was told to close closes in time, whatever it is told of the
/// pressed edge in between; one that was not stays open.
pub proof fn law_windows_close_when_told(portal: Portal, last: Update, next: Update, seconds: Single)
    requires
        !next.confirmed,
        !next.cancel,
    ensures
        portal.told(last).told(next).closing == portal.told(last).closing,
        (last.confirmed || last.cancel) && !seconds.is_nan() && seconds.rank() > CONFIRM_SECONDS
            ==> portal.told(last).told(next).is_over(seconds),
        portal.closing is None && !last.confirmed && !last.cancel ==> !portal.told(last).told(
            next,
        ).is_over(seconds),
{
}

/// A window draws where its edge is pressed, as far as it has been pressed, and stays open.
pub proof fn law_window_follows_the_pressing(
    beacon: Beacon,
    portal: Portal,
    position: Double,
    progress: Single,
)
    ensures
        ({
            let (kept, update) = beacon.pressed(position, progress, false);
            let after = portal.told(update);
            &&& after.position == position
            &&& after.target == progress
            &&& after.closing == portal.closing
            &&& !Portal::restarts(update)
            &&& kept.position == position
            &&& kept.progress == progress
        }),
        Portal::opened(position).position == position,
        Portal::opened(position).target.bits == 0,
        Portal::opened(position).closing is None,
        Beacon::shown(position).position == position,
        Beacon::shown(position).progress.bits == 0,
{
}

/// A window whose cursor came draws all the way, where it drew last, and closes after 0.42
/// seconds; one whose cursor did not come draws back to nothing and closes after 0.28
/// seconds.
pub proof fn law_window_ends_as_the_pressing_did(beacon: Beacon, portal: Portal, seconds: Single)
    requires
        !seconds.is_nan(),
    ensures
        ({
            let (kept, came) = beacon.confirmed();
            let closing = portal.told(came);
            &&& closing.position == beacon.position
            &&& closing.target.bits == 0x3f80_0000
            &&& Portal::restarts(came)
            &&& closing.is_over(seconds) <==> seconds.rank() > 0x3ed7_0a3d
            &&& kept.position == beacon.position
        }),
        ({
            let gone = beacon.cancelled();
            let closing = portal.told(gone);
            &&& closing.position == beacon.position
            &&& closing.target.bits == 0
            &&& Portal::restarts(gone)
            &&& closing.is_over(seconds) <==> seconds.rank() > 0x3e8f_5c29
        }),
{
}

} // verus!
