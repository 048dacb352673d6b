//! Counters of the device service.
use crate::text;
use vstd::prelude::*;

verus! {

/// The counters. They start at zero and wrap around.
#[derive(Clone, Copy, Debug)]
pub struct UblkMetrics {
    pub add_requests_total: u64,
    pub add_success_total: u64,
    pub add_failures_total: u64,
    pub remove_requests_total: u64,
    pub remove_success_total: u64,
    pub remove_failures_total: u64,
    pub active_devices: i64,
    pub drain_timeouts_total: u64,
    pub force_detach_total: u64,
}

impl Default for UblkMetrics {
    fn default() -> (r: Self)
        ensures
            r.balanced(),
            r == (UblkMetrics {
                add_requests_total: 0,
                add_success_total: 0,
                add_failures_total: 0,
                remove_requests_total: 0,
                remove_success_total: 0,
                remove_failures_total: 0,
                active_devices: 0,
                drain_timeouts_total: 0,
                force_detach_total: 0,
            }),
    {
        UblkMetrics {
            add_requests_total: 0,
            add_success_total: 0,
            add_failures_total: 0,
            remove_requests_total: 0,
            remove_success_total: 0,
            remove_failures_total: 0,
            active_devices: 0,
            drain_timeouts_total: 0,
            force_detach_total: 0,
        }
    }
}

/// One more, going round.
pub open spec fn one_more(n: u64) -> u64 {
    if n == u64::MAX {
        0
    } else {
        (n + 1) as u64
    }
}

/// One device more, going round.
pub open spec fn one_device_more(n: i64) -> i64 {
    if n == i64::MAX {
        i64::MIN
    } else {
        (n + 1) as i64
    }
}

/// One device fewer, going round.
pub open spec fn one_device_fewer(n: i64) -> i64 {
    if n == i64::MIN {
        i64::MAX
    } else {
        (n - 1) as i64
    }
}

impl UblkMetrics {
    /// Every request is counted as a success or as a failure, up to going round.
    pub open spec fn balanced(self) -> bool {
        &&& self.add_requests_total == (self.add_success_total + self.add_failures_total)
            % 0x1_0000_0000_0000_0000
        &&& self.remove_requests_total == (self.remove_success_total + self.remove_failures_total)
            % 0x1_0000_0000_0000_0000
    }
}

fn increment(n: u64) -> (r: u64)
    ensures
        r == one_more(n),
{
    if n == u64::MAX {
        0
    } else {
        n + 1
    }
}

/// One counter as it is rendered: its type, then its value.
pub open spec fn rendered(name: Seq<char>, kind: Seq<char>, value: nat) -> Seq<char> {
    "# TYPE "@ + name + " "@ + kind + "\n"@ + name + " "@ + text::decimal(value) + "\n"@
}

fn render(out: &mut String, name: &str, kind: &str, value: u64)
    ensures
        final(out)@ == old(out)@ + rendered(name@, kind@, value as nat),
{
    let ghost before = out@;
    out.append("# TYPE ");
    out.append(name);
    out.append(" ");
    out.append(kind);
    out.append("\n");
    out.append(name);
    out.append(" ");
    out.append(text::decimal_u64(value).as_str());
    out.append("\n");
    assert(out@ =~= before + rendered(name@, kind@, value as nat));
}

impl UblkMetrics {
    /// Counts a request to add a device.
    pub fn record_add_result(&mut self, ok: bool)
        ensures
            old(self).balanced() ==> final(self).balanced(),
            *final(self) == if ok {
                UblkMetrics {
                    add_requests_total: one_more(old(self).add_requests_total),
                    add_success_total: one_more(old(self).add_success_total),
                    active_devices: one_device_more(old(self).active_devices),
                    ..*old(self)
                }
            } else {
                UblkMetrics {
                    add_requests_total: one_more(old(self).add_requests_total),
                    add_failures_total: one_more(old(self).add_failures_total),
                    ..*old(self)
                }
            },
    {
        self.add_requests_total = increment(self.add_requests_total);
        if ok {
            self.add_success_total = increment(self.add_success_total);
            self.active_devices = if self.active_devices == i64::MAX {
                i64::MIN
            } else {
                self.active_devices + 1
            };
        } else {
            self.add_failures_total = increment(self.add_failures_total);
        }
    }

    /// Counts a request to remove a device; `detached` says whether it went away by it.
    pub fn record_remove_result(&mut self, ok: bool, detached: bool)
        ensures
            old(self).balanced() ==> final(self).balanced(),
            *final(self) == if ok {
                UblkMetrics {
                    remove_requests_total: one_more(old(self).remove_requests_total),
                    remove_success_total: one_more(old(self).remove_success_total),
                    active_devices: if detached {
                        one_device_fewer(old(self).active_devices)
                    } else {
                        old(self).active_devices
                    },
                    ..*old(self)
                }
            } else {
                UblkMetrics {
                    remove_requests_total: one_more(old(self).remove_requests_total),
                    remove_failures_total: one_more(old(self).remove_failures_total),
                    ..*old(self)
                }
            },
    {
        self.remove_requests_total = increment(self.remove_requests_total);
        if ok {
            self.remove_success_total = increment(self.remove_success_total);
            if detached {
                self.active_devices = if self.active_devices == i64::MIN {
                    i64::MAX
                } else {
                    self.active_devices - 1
                };
            }
        } else {
            self.remove_failures_total = increment(self.remove_failures_total);
        }
    }

    /// Counts a device that did not drain in time.
    pub fn record_drain_timeout(&mut self)
        ensures
            old(self).balanced() ==> final(self).balanced(),
            *final(self) == (UblkMetrics {
                drain_timeouts_total: one_more(old(self).drain_timeouts_total),
                ..*old(self)
            }),
    {
        self.drain_timeouts_total = increment(self.drain_timeouts_total);
    }

    /// Counts a device that was detached by force.
    pub fn record_force_detach(&mut self)
        ensures
            old(self).balanced() ==> final(self).balanced(),
            *final(self) == (UblkMetrics {
                force_detach_total: one_more(old(self).force_detach_total),
                ..*old(self)
            }),
    {
        self.force_detach_total = increment(self.force_detach_total);
    }

    /// How many devices are active, as far as is counted; never fewer than none.
    pub open spec fn shown_active(self) -> nat {
        if self.active_devices < 0 {
            0
        } else {
            self.active_devices as nat
        }
    }

    /// Renders all counters in the Prometheus text format.
    pub fn render_prometheus(&self) -> (r: String)
        ensures
            r@ == rendered(
                "temporal_ublk_add_requests_total"@,
                "counter"@,
                self.add_requests_total as nat,
            ) + rendered(
                "temporal_ublk_add_success_total"@,
                "counter"@,
                self.add_success_total as nat,
            ) + rendered(
                "temporal_ublk_add_failures_total"@,
                "counter"@,
                self.add_failures_total as nat,
            ) + rendered(
                "temporal_ublk_remove_requests_total"@,
                "counter"@,
                self.remove_requests_total as nat,
            ) + rendered(
                "temporal_ublk_remove_success_total"@,
                "counter"@,
                self.remove_success_total as nat,
            ) + rendered(
                "temporal_ublk_remove_failures_total"@,
                "counter"@,
                self.remove_failures_total as nat,
            ) + rendered("temporal_ublk_active_devices"@, "gauge"@, self.shown_active()) + rendered(
                "temporal_ublk_drain_timeouts_total"@,
                "counter"@,
                self.drain_timeouts_total as nat,
            ) + rendered(
                "temporal_ublk_force_detach_total"@,
                "counter"@,
                self.force_detach_total as nat,
            ),
    {
        let active: u64 = if self.active_devices < 0 {
            0
        } else {
            self.active_devices as u64
        };
        let mut out: String = String::new();
        render(&mut out, "temporal_ublk_add_requests_total", "counter", self.add_requests_total);
        assert(out@ =~= rendered(
            "temporal_ublk_add_requests_total"@,
            "counter"@,
            self.add_requests_total as nat,
        ));
        render(&mut out, "temporal_ublk_add_success_total", "counter", self.add_success_total);
        render(&mut out, "temporal_ublk_add_failures_total", "counter", self.add_failures_total);
        render(
            &mut out,
            "temporal_ublk_remove_requests_total",
            "counter",
            self.remove_requests_total,
        );
        render(
            &mut out,
            "temporal_ublk_remove_success_total",
            "counter",
            self.remove_success_total,
        );
        render(
            &mut out,
            "temporal_ublk_remove_failures_total",
            "counter",
            self.remove_failures_total,
        );
        render(&mut out, "temporal_ublk_active_devices", "gauge", active);
        render(
            &mut out,
            "temporal_ublk_drain_timeouts_total",
            "counter",
            self.drain_timeouts_total,
        );
        render(&mut out, "temporal_ublk_force_detach_total", "counter", self.force_detach_total);
        out
    }
}

} // verus!
