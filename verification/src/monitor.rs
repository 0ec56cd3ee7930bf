use vstd::prelude::*;

use crate::tasks::AppEvent;

verus! {

#[verifier::external_type_specification]
#[verifier::external_body]
pub struct ExSystem(sysinfo::System);

/// Relies on `sysinfo::System::new`: an empty process table, filled by the
/// first refresh.
#[verifier::external_body]
pub fn new_system() -> sysinfo::System {
    sysinfo::System::new()
}

/// Relies on `sysinfo::System::refresh_specifics`: re-reads the operating
/// system's process table.  What it finds depends on the machine, so
/// nothing is promised.
#[verifier::external_body]
fn refresh_process_list(sys: &mut sysinfo::System) {
    sys.refresh_specifics(
        sysinfo::RefreshKind::new().with_processes(sysinfo::ProcessRefreshKind::new()),
    );
}

/// Relies on `sysinfo::System::processes_by_name`: whether some process of
/// that name stands in the last refreshed table.  The result depends on
/// the machine, so nothing is promised.
#[verifier::external_body]
fn process_in_table(sys: &sysinfo::System, name: &str) -> bool {
    sys.processes_by_name(name).next().is_some()
}

/// The external-activity monitor: polls for the monitored process and
/// reports the edges — appeared, disappeared — that drive the bulk
/// start/stop of the plugins.
pub struct VrchatMonitor {
    pub is_running: bool,
}

impl VrchatMonitor {
    /// A fresh monitor that has not seen the process yet.
    pub fn new() -> (r: Self)
        ensures
            !r.is_running,
    {
        VrchatMonitor { is_running: false }
    }

    /// The edge decision for one observation of the process table: the
    /// monitor adopts the observed presence, and reports an edge event
    /// exactly when the presence changed since the previous observation.
    pub fn observe(&mut self, present: bool) -> (r: Option<AppEvent>)
        ensures
            final(self).is_running == present,
            r == (if present != old(self).is_running {
                Some(
                    if present {
                        AppEvent::VrchatStarted
                    } else {
                        AppEvent::VrchatStopped
                    },
                )
            } else {
                Option::<AppEvent>::None
            }),
    {
        if present != self.is_running {
            self.is_running = present;
            if present {
                Some(AppEvent::VrchatStarted)
            } else {
                Some(AppEvent::VrchatStopped)
            }
        } else {
            None
        }
    }

    /// One poll: refreshes the process table, observes whether the process
    /// is present, and reports the edge exactly as [`Self::observe`]
    /// decides for the observed value — whatever the table says.
    pub fn poll(&mut self, sys: &mut sysinfo::System, process_name: &str) -> (r: Option<AppEvent>)
        ensures
            match r {
                Some(AppEvent::VrchatStarted) => final(self).is_running && !old(self).is_running,
                Some(AppEvent::VrchatStopped) => !final(self).is_running && old(self).is_running,
                None => final(self).is_running == old(self).is_running,
                _ => false,
            },
    {
        refresh_process_list(sys);
        let present = process_in_table(sys, process_name);
        self.observe(present)
    }
}

} // verus!
