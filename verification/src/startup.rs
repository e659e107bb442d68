//! What the exporter does to the system before it listens for events, and in
//! which order. Nothing is done for settings that are refused.

use crate::config::{ConfigError, ExportOptions, ExportSettings};
use crate::netlink::constants::buffer_size;
use crate::sysctl;
use crate::sysctl::{conntrack_sysctl_settings, Sysctl};
use vstd::prelude::*;

verus! {

/// What the operator asked for.
#[derive(Debug, Clone, Copy)]
pub struct StartupOptions {
    pub export: ExportOptions,
    /// Leave the kernel settings alone.
    pub no_sysctl: bool,
    /// Netlink receive buffer size in bytes.
    pub recv_buf: usize,
    /// UDP send buffer size in bytes.
    pub send_buf: usize,
}

/// One thing done to the system on the way to the event loop.
#[derive(Debug, Clone, Copy)]
pub enum StartupStep {
    /// Make a kernel setting.
    Sysctl(Sysctl),
    /// Take shutdown signals through a descriptor.
    Signals,
    /// Open the UDP socket to the collector, with a send buffer of this size.
    Collector(libc::c_int),
    /// Open the conntrack event socket, with a receive buffer of this size.
    Events(libc::c_int),
}

/// The way to the event loop.
#[derive(Debug)]
pub struct Startup {
    pub settings: ExportSettings,
    /// What is done to the system, in order.
    pub steps: Vec<StartupStep>,
}

impl StartupOptions {
    /// The step that opens the socket to the collector.
    pub open spec fn collector_step(self) -> StartupStep {
        StartupStep::Collector(
            (if self.send_buf <= i32::MAX {
                self.send_buf as int
            } else {
                i32::MAX as int
            }) as libc::c_int,
        )
    }

    /// The step that opens the event socket.
    pub open spec fn events_step(self) -> StartupStep {
        StartupStep::Events(
            (if self.recv_buf <= i32::MAX {
                self.recv_buf as int
            } else {
                i32::MAX as int
            }) as libc::c_int,
        )
    }

    /// `steps` is what these options ask to be done: the kernel settings first,
    /// then the signals, the collector and the events.
    pub open spec fn takes(self, steps: Seq<StartupStep>) -> bool {
        exists|settings: Seq<Sysctl>|
            {
                &&& #[trigger] sysctl::are_conntrack_settings(settings, self.no_sysctl)
                &&& steps == settings.map_values(|setting: Sysctl| StartupStep::Sysctl(setting))
                    + seq![StartupStep::Signals, self.collector_step(), self.events_step()]
            }
    }

    /// Check the options, and only then say what is to be done for them. Of
    /// options that are refused there is nothing to be done at all, so a bad flag
    /// is reported as a bad flag.
    pub fn plan(&self) -> (startup: Result<Startup, ConfigError>)
        ensures
            match startup {
                Ok(startup) => {
                    &&& self.export.refusal() is None
                    &&& self.export.stands_for(startup.settings)
                    &&& self.takes(startup.steps@)
                },
                Err(error) => self.export.refusal() == Some(error),
            },
    {
        let settings: ExportSettings = match self.export.validate() {
            Ok(settings) => settings,
            Err(error) => {
                return Err(error);
            },
        };
        let sysctls: Vec<Sysctl> = conntrack_sysctl_settings(self.no_sysctl);
        let mut steps: Vec<StartupStep> = Vec::new();
        let mut i: usize = 0;
        while i < sysctls.len()
            invariant
                i <= sysctls@.len(),
                steps@ == sysctls@.take(i as int).map_values(
                    |setting: Sysctl| StartupStep::Sysctl(setting),
                ),
            decreases sysctls@.len() - i,
        {
            let setting: Sysctl = sysctls[i];
            steps.push(StartupStep::Sysctl(setting));
            i = i + 1;
        }
        assert(sysctls@.take(i as int) == sysctls@);
        steps.push(StartupStep::Signals);
        steps.push(StartupStep::Collector(buffer_size(self.send_buf)));
        steps.push(StartupStep::Events(buffer_size(self.recv_buf)));
        assert(steps@ == sysctls@.map_values(|setting: Sysctl| StartupStep::Sysctl(setting))
            + seq![StartupStep::Signals, self.collector_step(), self.events_step()]);
        Ok(Startup { settings, steps })
    }
}

/// What a size given in bytes becomes where an `int` is asked for: itself, or the
/// largest there is.
pub open spec fn as_int(size: usize) -> int {
    if size > 0x7fff_ffff {
        0x7fff_ffff
    } else {
        size as int
    }
}

/// The steps to the event loop, in order: the two kernel settings unless they are to be
/// left alone, the one for counters first and not required, the one for events second
/// and required; then the signals, the collector, and the events. The sockets get the
/// buffers that were asked for, as far as an `int` can say it.
pub proof fn law_startup_steps(options: StartupOptions, steps: Seq<StartupStep>)
    requires
        options.takes(steps),
    ensures
        ({
            let n = steps.len() as int;
            &&& n == (if options.no_sysctl {
                3int
            } else {
                5
            })
            &&& steps[n - 3] is Signals
            &&& steps[n - 2] matches StartupStep::Collector(size) && size == as_int(
                options.send_buf,
            )
            &&& steps[n - 1] matches StartupStep::Events(size) && size == as_int(options.recv_buf)
            &&& n == 5 ==> {
                &&& steps[0] matches StartupStep::Sysctl(setting) && {
                    &&& setting.path@ == "/proc/sys/net/netfilter/nf_conntrack_acct"@
                    &&& setting.value@ == "1"@
                    &&& !setting.required
                    &&& setting.purpose@ == "conntrack accounting"@
                }
                &&& steps[1] matches StartupStep::Sysctl(setting) && {
                    &&& setting.path@ == "/proc/sys/net/netfilter/nf_conntrack_events"@
                    &&& setting.value@ == "1"@
                    &&& setting.required
                    &&& setting.purpose@ == "conntrack event delivery"@
                }
            }
        }),
{
}

} // verus!
