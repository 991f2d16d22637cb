//! The device-switch protocol: one linear BLE exchange that moves an
//! audio accessory from its currently connected devices to the desired
//! ones. List the paired devices, learn by one status round trip per
//! address which are currently connected, disconnect those, then connect
//! the targets; disconnects and connects are fire-and-forget, so a fixed
//! inter-command delay stands in for the acknowledgement the peripheral
//! never sends. Any failure aborts the whole operation; a retry re-runs
//! the sequence from scratch. The decisions live here; the caller
//! performs the writes, waits and delays.

use crate::ble::{
    disconnect_command, list_devices_command, parse_device_list, parse_status_response,
    spec_address_command, status_command, MacAddress, CMD_CONNECT_DEVICE, CMD_DEVICE_STATUS,
    CMD_DISCONNECT_DEVICE, CMD_LIST_DEVICES,
};
use vstd::prelude::*;

verus! {

/// Default wait after a fire-and-forget connect or disconnect, in
/// milliseconds. Empirical, not protocol-confirmed: the peripheral never
/// signals completion, so the delay is a configurable constant rather
/// than a protocol fact.
pub const DEFAULT_INTER_COMMAND_DELAY_MS: u64 = 1000;

/// Where the exchange stands: what was last written and what is awaited.
#[derive(Clone, Copy, PartialEq, Eq, Structural)]
pub enum SwitchPhase {
    /// The list command was written; its response is awaited.
    AwaitList,
    /// The status command for paired address `i` was written; its
    /// response is awaited.
    AwaitStatus(usize),
    /// The disconnect command for connected address `i` was written; the
    /// fixed delay is running.
    AwaitDisconnectDelay(usize),
    /// The connect command for target address `i` was written; the fixed
    /// delay is running.
    AwaitConnectDelay(usize),
    /// The whole exchange succeeded.
    Done,
    /// Some step failed; the whole operation is aborted.
    Failed,
}

/// What the caller reports back to the machine.
pub enum SwitchEvent {
    /// A notification arrived on the response characteristic.
    Response(Vec<u8>),
    /// The requested delay elapsed.
    Delayed,
    /// Scan timeout, write error or disconnect: the step failed.
    Failure,
}

/// What the caller must do next.
pub enum SwitchAction {
    /// Write this command (write-with-response) and await the correlated
    /// response notification.
    WriteAwaitResponse(Vec<u8>),
    /// Write this command (fire-and-forget) and wait the given number of
    /// milliseconds.
    WriteThenDelay(Vec<u8>, u64),
    /// The exchange is over; disconnect and report success.
    Succeed,
    /// The exchange is aborted; disconnect and report failure.
    Fail,
}

/// One run of the device-switch exchange.
pub struct SwitchSession {
    targets: Vec<MacAddress>,
    paired: Vec<MacAddress>,
    connected: Vec<MacAddress>,
    delay_ms: u64,
    phase: SwitchPhase,
}

impl SwitchSession {
    /// The addresses the caller wants connected when the exchange ends.
    pub closed spec fn spec_targets(self) -> Seq<MacAddress> {
        self.targets@
    }

    /// The addresses the peripheral reported as paired.
    pub closed spec fn spec_paired(self) -> Seq<MacAddress> {
        self.paired@
    }

    /// The paired addresses whose status round trip said "connected".
    pub closed spec fn spec_connected(self) -> Seq<MacAddress> {
        self.connected@
    }

    /// The configured inter-command delay.
    pub closed spec fn spec_delay_ms(self) -> u64 {
        self.delay_ms
    }

    /// The current phase.
    pub closed spec fn spec_phase(self) -> SwitchPhase {
        self.phase
    }

    /// The current phase, for the caller's control flow.
    pub fn phase(&self) -> (r: SwitchPhase)
        ensures
            r == self.spec_phase(),
    {
        self.phase
    }

    /// Starts the exchange: the first command to write is the
    /// list-paired-devices command, and its response is awaited.
    pub fn new(targets: Vec<MacAddress>, delay_ms: u64) -> (r: (SwitchSession, Vec<u8>))
        ensures
            r.0.spec_phase() == SwitchPhase::AwaitList,
            r.0.spec_targets() == targets@,
            r.0.spec_paired() == Seq::<MacAddress>::empty(),
            r.0.spec_connected() == Seq::<MacAddress>::empty(),
            r.0.spec_delay_ms() == delay_ms,
            r.1@ == seq![CMD_LIST_DEVICES],
    {
        let session = SwitchSession {
            targets,
            paired: Vec::new(),
            connected: Vec::new(),
            delay_ms,
            phase: SwitchPhase::AwaitList,
        };
        (session, list_devices_command())
    }

    /// After the status pass and the disconnect pass, what comes next:
    /// connect the first target, or succeed if there is none.
    fn begin_connecting(&mut self) -> (r: SwitchAction)
        ensures
            final (self).spec_targets() == old(self).spec_targets(),
            final (self).spec_paired() == old(self).spec_paired(),
            final (self).spec_connected() == old(self).spec_connected(),
            final (self).spec_delay_ms() == old(self).spec_delay_ms(),
            if old(self).spec_targets().len() > 0 {
                &&& final (self).spec_phase() == SwitchPhase::AwaitConnectDelay(0)
                &&& r matches SwitchAction::WriteThenDelay(cmd, d) && cmd@ == spec_address_command(
                    CMD_CONNECT_DEVICE,
                    old(self).spec_targets()[0],
                ) && d == old(self).spec_delay_ms()
            } else {
                &&& final (self).spec_phase() == SwitchPhase::Done
                &&& r matches SwitchAction::Succeed
            },
    {
        if self.targets.len() > 0 {
            self.phase = SwitchPhase::AwaitConnectDelay(0);
            let cmd = crate::ble::connect_command(&self.targets[0]);
            SwitchAction::WriteThenDelay(cmd, self.delay_ms)
        } else {
            self.phase = SwitchPhase::Done;
            SwitchAction::Succeed
        }
    }

    /// After the status pass, what comes next: disconnect the first
    /// currently connected address, or go straight to connecting.
    fn begin_disconnecting(&mut self) -> (r: SwitchAction)
        ensures
            final (self).spec_targets() == old(self).spec_targets(),
            final (self).spec_paired() == old(self).spec_paired(),
            final (self).spec_connected() == old(self).spec_connected(),
            final (self).spec_delay_ms() == old(self).spec_delay_ms(),
            if old(self).spec_connected().len() > 0 {
                &&& final (self).spec_phase() == SwitchPhase::AwaitDisconnectDelay(0)
                &&& r matches SwitchAction::WriteThenDelay(cmd, d) && cmd@ == spec_address_command(
                    CMD_DISCONNECT_DEVICE,
                    old(self).spec_connected()[0],
                ) && d == old(self).spec_delay_ms()
            } else if old(self).spec_targets().len() > 0 {
                &&& final (self).spec_phase() == SwitchPhase::AwaitConnectDelay(0)
                &&& r matches SwitchAction::WriteThenDelay(cmd, d) && cmd@ == spec_address_command(
                    CMD_CONNECT_DEVICE,
                    old(self).spec_targets()[0],
                ) && d == old(self).spec_delay_ms()
            } else {
                &&& final (self).spec_phase() == SwitchPhase::Done
                &&& r matches SwitchAction::Succeed
            },
    {
        if self.connected.len() > 0 {
            self.phase = SwitchPhase::AwaitDisconnectDelay(0);
            let cmd = disconnect_command(&self.connected[0]);
            SwitchAction::WriteThenDelay(cmd, self.delay_ms)
        } else {
            self.begin_connecting()
        }
    }

    /// Feeds one event into the exchange and yields the next action. A
    /// failure event, a malformed response, or an event the current phase
    /// does not expect each abort the whole operation.
    pub fn step(&mut self, event: SwitchEvent) -> (r: SwitchAction)
        requires
            !(old(self).spec_phase() == SwitchPhase::Done),
            !(old(self).spec_phase() == SwitchPhase::Failed),
            old(self).spec_phase() matches SwitchPhase::AwaitStatus(i) ==> i < old(
                self,
            ).spec_paired().len(),
            old(self).spec_phase() matches SwitchPhase::AwaitDisconnectDelay(i) ==> i < old(
                self,
            ).spec_connected().len(),
            old(self).spec_phase() matches SwitchPhase::AwaitConnectDelay(i) ==> i < old(
                self,
            ).spec_targets().len(),
        ensures
            final (self).spec_targets() == old(self).spec_targets(),
            final (self).spec_delay_ms() == old(self).spec_delay_ms(),
            final (self).spec_phase() == SwitchPhase::Failed ==> r matches SwitchAction::Fail,
            match event {
                SwitchEvent::Failure => final (self).spec_phase() == SwitchPhase::Failed,
                SwitchEvent::Response(resp) => match old(self).spec_phase() {
                    SwitchPhase::AwaitList => {
                        if crate::ble::device_list_response_valid(resp@) {
                            &&& final (self).spec_paired().len() == (resp@[2] - 1) / 6
                            &&& forall|k: int|
                                0 <= k < final (self).spec_paired().len()
                                    ==> (#[trigger] final (self).spec_paired()[k]).octets@
                                    == resp@.subrange(4 + 6 * k, 10 + 6 * k)
                            &&& final (self).spec_connected() == Seq::<MacAddress>::empty()
                            &&& if final (self).spec_paired().len() > 0 {
                                &&& final (self).spec_phase() == SwitchPhase::AwaitStatus(0)
                                &&& r matches SwitchAction::WriteAwaitResponse(cmd) && cmd@
                                    == spec_address_command(
                                    CMD_DEVICE_STATUS,
                                    final (self).spec_paired()[0],
                                )
                            } else if old(self).spec_targets().len() > 0 {
                                &&& final (self).spec_phase() == SwitchPhase::AwaitConnectDelay(0)
                                &&& r matches SwitchAction::WriteThenDelay(cmd, d) && cmd@
                                    == spec_address_command(
                                    CMD_CONNECT_DEVICE,
                                    old(self).spec_targets()[0],
                                ) && d == old(self).spec_delay_ms()
                            } else {
                                &&& final (self).spec_phase() == SwitchPhase::Done
                                &&& r matches SwitchAction::Succeed
                            }
                        } else {
                            final (self).spec_phase() == SwitchPhase::Failed
                        }
                    },
                    SwitchPhase::AwaitStatus(i) => {
                        if crate::ble::status_response_valid(resp@) {
                            &&& final (self).spec_paired() == old(self).spec_paired()
                            &&& final (self).spec_connected() == if resp@[3] != 0 {
                                old(self).spec_connected().push(old(self).spec_paired()[i as int])
                            } else {
                                old(self).spec_connected()
                            }
                            &&& if i + 1 < old(self).spec_paired().len() {
                                &&& final (self).spec_phase() == SwitchPhase::AwaitStatus(
                                    (i + 1) as usize,
                                )
                                &&& r matches SwitchAction::WriteAwaitResponse(cmd) && cmd@
                                    == spec_address_command(
                                    CMD_DEVICE_STATUS,
                                    old(self).spec_paired()[i + 1],
                                )
                            } else if final (self).spec_connected().len() > 0 {
                                &&& final (self).spec_phase() == SwitchPhase::AwaitDisconnectDelay(
                                    0,
                                )
                                &&& r matches SwitchAction::WriteThenDelay(cmd, d) && cmd@
                                    == spec_address_command(
                                    CMD_DISCONNECT_DEVICE,
                                    final (self).spec_connected()[0],
                                ) && d == old(self).spec_delay_ms()
                            } else if old(self).spec_targets().len() > 0 {
                                &&& final (self).spec_phase() == SwitchPhase::AwaitConnectDelay(0)
                                &&& r matches SwitchAction::WriteThenDelay(cmd, d) && cmd@
                                    == spec_address_command(
                                    CMD_CONNECT_DEVICE,
                                    old(self).spec_targets()[0],
                                ) && d == old(self).spec_delay_ms()
                            } else {
                                &&& final (self).spec_phase() == SwitchPhase::Done
                                &&& r matches SwitchAction::Succeed
                            }
                        } else {
                            final (self).spec_phase() == SwitchPhase::Failed
                        }
                    },
                    _ => final (self).spec_phase() == SwitchPhase::Failed,
                },
                SwitchEvent::Delayed => match old(self).spec_phase() {
                    SwitchPhase::AwaitDisconnectDelay(i) => {
                        &&& final (self).spec_paired() == old(self).spec_paired()
                        &&& final (self).spec_connected() == old(self).spec_connected()
                        &&& if i + 1 < old(self).spec_connected().len() {
                            &&& final (self).spec_phase() == SwitchPhase::AwaitDisconnectDelay(
                                (i + 1) as usize,
                            )
                            &&& r matches SwitchAction::WriteThenDelay(cmd, d) && cmd@
                                == spec_address_command(
                                CMD_DISCONNECT_DEVICE,
                                old(self).spec_connected()[i + 1],
                            ) && d == old(self).spec_delay_ms()
                        } else if old(self).spec_targets().len() > 0 {
                            &&& final (self).spec_phase() == SwitchPhase::AwaitConnectDelay(0)
                            &&& r matches SwitchAction::WriteThenDelay(cmd, d) && cmd@
                                == spec_address_command(
                                CMD_CONNECT_DEVICE,
                                old(self).spec_targets()[0],
                            ) && d == old(self).spec_delay_ms()
                        } else {
                            &&& final (self).spec_phase() == SwitchPhase::Done
                            &&& r matches SwitchAction::Succeed
                        }
                    },
                    SwitchPhase::AwaitConnectDelay(i) => {
                        &&& final (self).spec_paired() == old(self).spec_paired()
                        &&& final (self).spec_connected() == old(self).spec_connected()
                        &&& if i + 1 < old(self).spec_targets().len() {
                            &&& final (self).spec_phase() == SwitchPhase::AwaitConnectDelay(
                                (i + 1) as usize,
                            )
                            &&& r matches SwitchAction::WriteThenDelay(cmd, d) && cmd@
                                == spec_address_command(
                                CMD_CONNECT_DEVICE,
                                old(self).spec_targets()[i + 1],
                            ) && d == old(self).spec_delay_ms()
                        } else {
                            &&& final (self).spec_phase() == SwitchPhase::Done
                            &&& r matches SwitchAction::Succeed
                        }
                    },
                    _ => final (self).spec_phase() == SwitchPhase::Failed,
                },
            },
    {
        match event {
            SwitchEvent::Failure => {
                self.phase = SwitchPhase::Failed;
                SwitchAction::Fail
            },
            SwitchEvent::Response(resp) => {
                match self.phase {
                    SwitchPhase::AwaitList => {
                        match parse_device_list(&resp) {
                            Ok(addrs) => {
                                self.paired = addrs;
                                self.connected = Vec::new();
                                if self.paired.len() > 0 {
                                    self.phase = SwitchPhase::AwaitStatus(0);
                                    SwitchAction::WriteAwaitResponse(status_command(&self.paired[0]))
                                } else {
                                    self.begin_connecting()
                                }
                            },
                            Err(_) => {
                                self.phase = SwitchPhase::Failed;
                                SwitchAction::Fail
                            },
                        }
                    },
                    SwitchPhase::AwaitStatus(i) => {
                        let n: usize = self.paired.len();
                        proof {
                            assert(i < n);
                        }
                        match parse_status_response(&resp) {
                            Ok(connected) => {
                                if connected {
                                    let a = self.paired[i];
                                    self.connected.push(a);
                                }
                                if i + 1 < self.paired.len() {
                                    self.phase = SwitchPhase::AwaitStatus(i + 1);
                                    SwitchAction::WriteAwaitResponse(
                                        status_command(&self.paired[i + 1]),
                                    )
                                } else {
                                    self.begin_disconnecting()
                                }
                            },
                            Err(_) => {
                                self.phase = SwitchPhase::Failed;
                                SwitchAction::Fail
                            },
                        }
                    },
                    _ => {
                        self.phase = SwitchPhase::Failed;
                        SwitchAction::Fail
                    },
                }
            },
            SwitchEvent::Delayed => {
                match self.phase {
                    SwitchPhase::AwaitDisconnectDelay(i) => {
                        let n: usize = self.connected.len();
                        proof {
                            assert(i < n);
                        }
                        if i + 1 < self.connected.len() {
                            self.phase = SwitchPhase::AwaitDisconnectDelay(i + 1);
                            let cmd = disconnect_command(&self.connected[i + 1]);
                            SwitchAction::WriteThenDelay(cmd, self.delay_ms)
                        } else {
                            self.begin_connecting()
                        }
                    },
                    SwitchPhase::AwaitConnectDelay(i) => {
                        let n: usize = self.targets.len();
                        proof {
                            assert(i < n);
                        }
                        if i + 1 < self.targets.len() {
                            self.phase = SwitchPhase::AwaitConnectDelay(i + 1);
                            let cmd = crate::ble::connect_command(&self.targets[i + 1]);
                            SwitchAction::WriteThenDelay(cmd, self.delay_ms)
                        } else {
                            self.phase = SwitchPhase::Done;
                            SwitchAction::Succeed
                        }
                    },
                    _ => {
                        self.phase = SwitchPhase::Failed;
                        SwitchAction::Fail
                    },
                }
            },
        }
    }
}

} // verus!
