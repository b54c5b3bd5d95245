use std::sync::atomic::{AtomicBool, AtomicU16, AtomicU8, Ordering};
use vstd::prelude::*;

use crate::render::StateSnapshot;
use crate::workspace::{WorkspaceAction, WorkspaceEvent, MAX_WORKSPACE};

verus! {

/// Battery state codes.
pub const BATTERY_UNKNOWN: u8 = 0;
pub const BATTERY_DISCHARGING: u8 = 1;
pub const BATTERY_CHARGING: u8 = 2;
pub const BATTERY_FULL: u8 = 3;
/// Battery state published when no battery should be reported.
pub const BATTERY_DISABLED: u8 = 255;

/// The values the producer threads publish and the renderer reads, one
/// atomic per field. Stores release and loads acquire, so a value stored
/// before a wake-up is seen after it; fields are independent, and a reader
/// may see a new value of one beside an old value of another.
pub struct StateBus {
    workspaces: [AtomicBool; 10],
    active_workspace: AtomicU8,
    hour: AtomicU8,
    minute: AtomicU8,
    day: AtomicU8,
    month: AtomicU8,
    year: AtomicU8,
    battery_percent: AtomicU8,
    battery_state: AtomicU8,
    battery_estimate: AtomicU16,
}

impl StateBus {
    /// Workspace 1 active, none occupied, the clock at zero, the battery
    /// full of charge in an unknown state.
    pub fn new() -> Self {
        StateBus {
            workspaces: [
                AtomicBool::new(false),
                AtomicBool::new(false),
                AtomicBool::new(false),
                AtomicBool::new(false),
                AtomicBool::new(false),
                AtomicBool::new(false),
                AtomicBool::new(false),
                AtomicBool::new(false),
                AtomicBool::new(false),
                AtomicBool::new(false),
            ],
            active_workspace: AtomicU8::new(1),
            hour: AtomicU8::new(0),
            minute: AtomicU8::new(0),
            day: AtomicU8::new(0),
            month: AtomicU8::new(0),
            year: AtomicU8::new(0),
            battery_percent: AtomicU8::new(100),
            battery_state: AtomicU8::new(0),
            battery_estimate: AtomicU16::new(0),
        }
    }

    /// Reads every field once.
    pub fn snapshot(&self) -> StateSnapshot {
        let mut occupied = [false; 10];
        let mut i: usize = 0;
        while i < 10
            invariant
                i <= 10,
                occupied@.len() == 10,
            decreases 10 - i,
        {
            occupied[i] = self.workspaces[i].load(Ordering::Acquire);
            i = i + 1;
        }
        StateSnapshot {
            active_workspace: self.active_workspace.load(Ordering::Acquire),
            occupied,
            hour: self.hour.load(Ordering::Acquire),
            minute: self.minute.load(Ordering::Acquire),
            day: self.day.load(Ordering::Acquire),
            month: self.month.load(Ordering::Acquire),
            year: self.year.load(Ordering::Acquire),
            battery_percent: self.battery_percent.load(Ordering::Acquire),
            battery_state: self.battery_state.load(Ordering::Acquire),
            battery_estimate: self.battery_estimate.load(Ordering::Acquire),
        }
    }

    pub fn set_active_workspace(&self, workspace: u8)
        requires
            1 <= workspace <= MAX_WORKSPACE,
    {
        self.active_workspace.store(workspace, Ordering::Release);
    }

    pub fn set_occupied(&self, workspace: u8, occupied: bool)
        requires
            1 <= workspace <= MAX_WORKSPACE,
    {
        self.workspaces[(workspace - 1) as usize].store(occupied, Ordering::Release);
    }

    /// Publishes what a workspace event says.
    pub fn apply_workspace_event(&self, event: WorkspaceEvent)
        requires
            1 <= event.workspace <= MAX_WORKSPACE,
    {
        match event.action {
            WorkspaceAction::Focus => {
                self.set_active_workspace(event.workspace);
                self.set_occupied(event.workspace, true);
            },
            WorkspaceAction::Create => self.set_occupied(event.workspace, true),
            WorkspaceAction::Destroy => self.set_occupied(event.workspace, false),
        }
    }

    pub fn minute(&self) -> u8 {
        self.minute.load(Ordering::Acquire)
    }

    pub fn day(&self) -> u8 {
        self.day.load(Ordering::Acquire)
    }

    pub fn battery_state(&self) -> u8 {
        self.battery_state.load(Ordering::Acquire)
    }

    pub fn set_clock(&self, hour: u8, minute: u8) {
        self.minute.store(minute, Ordering::Release);
        self.hour.store(hour, Ordering::Release);
    }

    pub fn set_date(&self, day: u8, month: u8, year: u8) {
        self.day.store(day, Ordering::Release);
        self.month.store(month, Ordering::Release);
        self.year.store(year, Ordering::Release);
    }

    /// Stores the battery fields that differ from what is published;
    /// returns whether any did.
    pub fn publish_battery(&self, percent: u8, state: u8, estimate: u16) -> bool {
        let mut changed = false;
        if self.battery_percent.load(Ordering::Acquire) != percent {
            self.battery_percent.store(percent, Ordering::Release);
            changed = true;
        }
        if self.battery_state.load(Ordering::Acquire) != state {
            self.battery_state.store(state, Ordering::Release);
            changed = true;
        }
        if self.battery_estimate.load(Ordering::Acquire) != estimate {
            self.battery_estimate.store(estimate, Ordering::Release);
            changed = true;
        }
        changed
    }
}

} // verus!
