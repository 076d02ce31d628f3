//! Decisions of the packet worker's command loop.
use vstd::prelude::*;

use crate::events::WorkerCmd;
use crate::ids::Height;

verus! {

/// What the packet worker does with a command.
#[derive(Clone, Debug, PartialEq, Eq)]
pub enum PacketAction {
    /// Add the batch's events to the schedule.
    UpdateSchedule,
    /// Look for pending packets at the height (if any); `force` clears even
    /// if clearing already ran once.
    ScheduleClearing { height: Option<Height>, force: bool },
    /// Stop the worker.
    Stop,
}

/// Whether a new block at `height` triggers a forced clearing: on the first
/// block if `clear_on_start`, and on every `clear_interval`-th block when
/// the interval is not zero.
pub open spec fn clears_at(
    is_first_run: bool,
    clear_on_start: bool,
    clear_interval: u64,
    height: Height,
) -> bool {
    (is_first_run && clear_on_start) || (clear_interval != 0 && height.revision_height
        % clear_interval == 0)
}

/// State of the packet worker's command loop.
#[derive(Clone, Copy, Debug, PartialEq, Eq, Structural)]
pub struct PacketCmdState {
    pub is_first_run: bool,
    pub clear_on_start: bool,
    pub clear_interval: u64,
}

impl PacketCmdState {
    pub fn new(clear_on_start: bool, clear_interval: u64) -> (r: PacketCmdState)
        ensures
            r.is_first_run,
            r.clear_on_start == clear_on_start,
            r.clear_interval == clear_interval,
    {
        PacketCmdState { is_first_run: true, clear_on_start, clear_interval }
    }

    /// Whether a new block at `height` forces a clearing now.
    pub fn should_clear_packets(&self, height: Height) -> (r: bool)
        ensures
            r == clears_at(self.is_first_run, self.clear_on_start, self.clear_interval, height),
    {
        let should_first_clear = self.is_first_run && self.clear_on_start;
        let at_clear_interval = self.clear_interval != 0 && height.revision_height
            % self.clear_interval == 0;
        should_first_clear || at_clear_interval
    }

    /// Decides what to do with a command. Only a new block ends the first run.
    pub fn on_command(&mut self, cmd: &WorkerCmd) -> (r: PacketAction)
        ensures
            match *cmd {
                WorkerCmd::IbcEvents { .. } => r == PacketAction::UpdateSchedule && *final(self)
                    == *old(self),
                WorkerCmd::NewBlock { height } => r == (PacketAction::ScheduleClearing {
                    height: Some(height),
                    force: clears_at(
                        old(self).is_first_run,
                        old(self).clear_on_start,
                        old(self).clear_interval,
                        height,
                    ),
                }) && *final(self) == (PacketCmdState { is_first_run: false, ..*old(self) }),
                WorkerCmd::ClearPendingPackets => r == (PacketAction::ScheduleClearing {
                    height: None,
                    force: true,
                }) && *final(self) == *old(self),
                WorkerCmd::Shutdown => r == PacketAction::Stop && *final(self) == *old(self),
            },
    {
        match cmd {
            WorkerCmd::IbcEvents { .. } => PacketAction::UpdateSchedule,
            WorkerCmd::NewBlock { height } => {
                let force = self.should_clear_packets(*height);
                self.is_first_run = false;
                PacketAction::ScheduleClearing { height: Some(*height), force }
            },
            WorkerCmd::ClearPendingPackets => PacketAction::ScheduleClearing {
                height: None,
                force: true,
            },
            WorkerCmd::Shutdown => PacketAction::Stop,
        }
    }
}

/// With a zero interval only the first block may force a clearing, and it
/// does so exactly when `clear_on_start` is set.
pub proof fn lemma_zero_interval_clears_only_on_start(
    is_first_run: bool,
    clear_on_start: bool,
    height: Height,
)
    ensures
        clears_at(is_first_run, clear_on_start, 0, height) == (is_first_run && clear_on_start),
{
}

} // verus!
