//! The local daemon: what it answers to the requests of a user interface.
//!
//! The daemon keeps the configuration of the node it manages and answers
//! requests over a local socket. Starting and stopping the node and reading
//! the trust store are the caller's work. A request that needs such work is
//! handled in two steps: `begin_request` says what work is needed,
//! `finish_request` makes the answer out of how the work went.

use crate::codes::{contains_text, insert_sorted, remove_sorted, strictly_sorted, texts};
use crate::text::{digits, push_digits, push_text, str_eq, str_is_blank};
use crate::trust::TrustedPeerRecord;
use vstd::prelude::*;
use vstd::string::StringExecFns;

verus! {

#[derive(Debug, Clone, PartialEq, Eq)]
pub enum DaemonRequest {
    StartDaemon {
        node_binary: String,
        listen_multiaddr: String,
        bootstrap_multiaddrs: Vec<String>,
        trust_on_first_use: bool,
    },
    StopDaemon,
    DiscoverDevices,
    PairDevice { device_code: String, approved: bool },
    ConnectSession { device_code: String },
    SendInput,
    StartFileTransfer { session_id: String, source_path: String },
    SetClipboardSync { session_id: String, enabled: bool },
    StartRecording { session_id: String, output_path: String },
    GetSessionStats { session_id: String },
}

#[derive(Debug, Clone, PartialEq, Eq)]
pub struct GenericAck {
    pub ok: bool,
    pub detail: String,
}

#[derive(Debug, Clone, PartialEq, Eq)]
pub struct DiscoveredDevice {
    pub device_code: String,
    pub peer_id: String,
    pub last_seen_unix_ms: u64,
    pub trusted: bool,
}

#[derive(Debug, Clone, PartialEq, Eq)]
pub struct SessionStats {
    pub session_id: String,
    pub rtt_ms: u32,
    pub tx_bitrate_kbps: u32,
    pub rx_bitrate_kbps: u32,
    pub packet_loss_x10000: u32,
    pub encode_latency_ms: u32,
    pub decode_latency_ms: u32,
    pub using_relay: bool,
}

#[derive(Debug, Clone, PartialEq, Eq)]
pub enum DaemonResponse {
    StartDaemon(GenericAck),
    StopDaemon(GenericAck),
    DiscoverDevices { devices: Vec<DiscoveredDevice> },
    PairDevice { paired: bool, detail: String },
    ConnectSession { session_id: String, accepted: bool, detail: String },
    SendInput(GenericAck),
    StartFileTransfer(GenericAck),
    SetClipboardSync(GenericAck),
    StartRecording(GenericAck),
    GetSessionStats { stats: SessionStats },
}

#[derive(Debug, Clone, PartialEq, Eq)]
pub enum DaemonEvent {
    SessionState { session_id: String, state: String, detail: String },
    DiscoveryUpdate { devices: Vec<DiscoveredDevice> },
    Error { code: String, detail: String },
}

/// The work that a request needs done before it can be answered.
#[derive(Debug, Clone, PartialEq, Eq)]
pub enum NodeWork {
    /// Stop the managed node if it runs, then start it with these
    /// arguments.
    Restart { program: String, arguments: Vec<String> },
    /// Stop the managed node if it runs.
    Stop,
    /// Read the records of the trust store at this path.
    ReadTrustStore { path: String },
}

/// What the daemon remembers of a request while its work is done.
#[derive(Debug, Clone, PartialEq, Eq)]
pub enum Ticket {
    StartDaemon,
    StopDaemon,
    DiscoverDevices,
    ConnectSession { device_code: String },
}

/// How the work for a request went.
#[derive(Debug, Clone, PartialEq, Eq)]
pub enum WorkOutcome {
    Succeeded,
    Failed { detail: String },
    /// The records read from the trust store; an empty list where the
    /// store could not be read.
    TrustStore { records: Vec<TrustedPeerRecord> },
}

/// Where a request stands after its first step.
#[derive(Debug, Clone, PartialEq, Eq)]
pub enum RequestStep {
    Done { response: DaemonResponse, events: Vec<DaemonEvent> },
    Work { work: NodeWork, ticket: Ticket },
}

/// An acknowledgement with these contents.
pub open spec fn is_ack(ack: GenericAck, ok: bool, detail: Seq<char>) -> bool {
    ack.ok == ok && ack.detail@ == detail
}

/// A session state event with these contents.
pub open spec fn is_session_state(
    event: DaemonEvent,
    session_id: Seq<char>,
    state: Seq<char>,
    detail: Seq<char>,
) -> bool {
    event matches DaemonEvent::SessionState { session_id: id, state: st, detail: de } && id@
        == session_id && st@ == state && de@ == detail
}

/// An error event with these contents.
pub open spec fn is_error(event: DaemonEvent, code: Seq<char>, detail: Seq<char>) -> bool {
    event matches DaemonEvent::Error { code: c, detail: d } && c@ == code && d@ == detail
}

/// The device that a trust record shows to a user interface: a time of
/// last sighting before the epoch counts as the epoch, and the device
/// counts as trusted where it is paired.
pub open spec fn shows(
    device: DiscoveredDevice,
    record: TrustedPeerRecord,
    paired: Seq<Seq<char>>,
) -> bool {
    &&& device.device_code@ == record.device_code@
    &&& device.peer_id@ == record.peer_id@
    &&& device.last_seen_unix_ms == if record.last_seen_unix_ms < 0 {
        0
    } else {
        record.last_seen_unix_ms as u64
    }
    &&& device.trusted == paired.contains(record.device_code@)
}

/// The devices of `devices` show the records of `records`, one for one.
pub open spec fn show_all(
    devices: Seq<DiscoveredDevice>,
    records: Seq<TrustedPeerRecord>,
    paired: Seq<Seq<char>>,
) -> bool {
    &&& devices.len() == records.len()
    &&& forall|i: int| 0 <= i < devices.len() ==> shows(#[trigger] devices[i], records[i], paired)
}

/// The devices that the trust records show, in the order of the records.
pub fn discovered_devices(records: &[TrustedPeerRecord], paired: &[String]) -> (devices: Vec<
    DiscoveredDevice,
>)
    ensures
        show_all(devices@, records@, texts(paired@)),
{
    let mut devices: Vec<DiscoveredDevice> = Vec::new();
    let mut i: usize = 0;
    while i < records.len()
        invariant
            i <= records@.len(),
            devices@.len() == i,
            forall|j: int|
                0 <= j < i ==> shows(#[trigger] devices@[j], records@[j], texts(paired@)),
        decreases records@.len() - i,
    {
        let record: &TrustedPeerRecord = &records[i];
        devices.push(
            DiscoveredDevice {
                device_code: record.device_code.clone(),
                peer_id: record.peer_id.clone(),
                last_seen_unix_ms: if record.last_seen_unix_ms < 0 {
                    0
                } else {
                    record.last_seen_unix_ms as u64
                },
                trusted: contains_text(paired, record.device_code.as_str()),
            },
        );
        i += 1;
    }
    devices
}

fn clone_devices(devices: &Vec<DiscoveredDevice>) -> (copy: Vec<DiscoveredDevice>)
    ensures
        copy@.len() == devices@.len(),
        forall|i: int|
            0 <= i < copy@.len() ==> {
                &&& (#[trigger] copy@[i]).device_code@ == devices@[i].device_code@
                &&& copy@[i].peer_id@ == devices@[i].peer_id@
                &&& copy@[i].last_seen_unix_ms == devices@[i].last_seen_unix_ms
                &&& copy@[i].trusted == devices@[i].trusted
            },
{
    let mut copy: Vec<DiscoveredDevice> = Vec::new();
    let mut i: usize = 0;
    while i < devices.len()
        invariant
            i <= devices@.len(),
            copy@.len() == i,
            forall|j: int|
                0 <= j < i ==> {
                    &&& (#[trigger] copy@[j]).device_code@ == devices@[j].device_code@
                    &&& copy@[j].peer_id@ == devices@[j].peer_id@
                    &&& copy@[j].last_seen_unix_ms == devices@[j].last_seen_unix_ms
                    &&& copy@[j].trusted == devices@[j].trusted
                },
        decreases devices@.len() - i,
    {
        copy.push(
            DiscoveredDevice {
                device_code: devices[i].device_code.clone(),
                peer_id: devices[i].peer_id.clone(),
                last_seen_unix_ms: devices[i].last_seen_unix_ms,
                trusted: devices[i].trusted,
            },
        );
        i += 1;
    }
    copy
}

/// What the daemon keeps: how the managed node is started, which devices
/// it is to connect to, and which devices are paired.
#[derive(Debug, Clone)]
pub struct DaemonState {
    pub node_binary: String,
    pub listen_multiaddr: String,
    pub bootstrap_multiaddrs: Vec<String>,
    pub trust_on_first_use: bool,
    pub identity_file: String,
    pub trust_store_file: String,
    pub connect_device_codes: Vec<String>,
    pub paired_devices: Vec<String>,
}

/// `list` followed by `flag` and `value`.
pub open spec fn with_option(list: Seq<Seq<char>>, flag: Seq<char>, value: Seq<char>) -> Seq<
    Seq<char>,
> {
    list.push(flag).push(value)
}

/// `list` followed by `flag` and a value, once for each of the first
/// `upto` of `values`.
pub open spec fn with_options(
    list: Seq<Seq<char>>,
    flag: Seq<char>,
    values: Seq<Seq<char>>,
    upto: int,
) -> Seq<Seq<char>>
    decreases upto,
{
    if upto <= 0 {
        list
    } else {
        with_option(with_options(list, flag, values, upto - 1), flag, values[upto - 1])
    }
}

fn push_option(list: &mut Vec<String>, flag: &str, value: &str)
    ensures
        texts(final(list)@) == with_option(texts(old(list)@), flag@, value@),
{
    list.push(String::from_str(flag));
    list.push(String::from_str(value));
    assert(texts(list@) =~= with_option(texts(old(list)@), flag@, value@));
}

fn push_options(list: &mut Vec<String>, flag: &str, values: &[String])
    ensures
        texts(final(list)@) == with_options(
            texts(old(list)@),
            flag@,
            texts(values@),
            values@.len() as int,
        ),
{
    let mut i: usize = 0;
    while i < values.len()
        invariant
            i <= values@.len(),
            texts(list@) == with_options(texts(old(list)@), flag@, texts(values@), i as int),
        decreases values@.len() - i,
    {
        assert(values@[i as int]@ == texts(values@)[i as int]);
        push_option(list, flag, values[i].as_str());
        i += 1;
    }
}

impl DaemonState {
    /// The device codes the managed node is to connect to, in order.
    pub open spec fn connect_codes(&self) -> Seq<Seq<char>> {
        texts(self.connect_device_codes@)
    }

    /// The device codes that are paired, in order.
    pub open spec fn paired(&self) -> Seq<Seq<char>> {
        texts(self.paired_devices@)
    }

    /// Both lists of device codes are in strict order, so that no code
    /// stands twice in either.
    pub open spec fn wf(&self) -> bool {
        strictly_sorted(texts(self.connect_device_codes@)) && strictly_sorted(
            texts(self.paired_devices@),
        )
    }

    /// A daemon that manages `node_binary`, connects to nothing and has
    /// paired nothing. Trust on first use is off until a start request
    /// turns it on.
    pub fn new(
        node_binary: String,
        listen_multiaddr: String,
        identity_file: String,
        trust_store_file: String,
    ) -> (state: Self)
        ensures
            state.wf(),
            state.node_binary == node_binary,
            state.listen_multiaddr == listen_multiaddr,
            state.identity_file == identity_file,
            state.trust_store_file == trust_store_file,
            state.bootstrap_multiaddrs@.len() == 0,
            !state.trust_on_first_use,
            state.connect_codes() == Seq::<Seq<char>>::empty(),
            state.paired() == Seq::<Seq<char>>::empty(),
    {
        let state = DaemonState {
            node_binary,
            listen_multiaddr,
            bootstrap_multiaddrs: Vec::new(),
            trust_on_first_use: false,
            identity_file,
            trust_store_file,
            connect_device_codes: Vec::new(),
            paired_devices: Vec::new(),
        };
        assert(state.connect_codes() =~= Seq::<Seq<char>>::empty());
        assert(state.paired() =~= Seq::<Seq<char>>::empty());
        state
    }

    /// The arguments the managed node is started with: where to listen,
    /// the two files, the trust policy, the bootstrap addresses, the device
    /// codes to connect to, and, where there are any of those, the order to
    /// ask for sessions on its own.
    pub open spec fn arguments(&self) -> Seq<Seq<char>> {
        let fixed = with_option(
            with_option(
                with_option(
                    with_option(Seq::<Seq<char>>::empty(), "--listen"@, self.listen_multiaddr@),
                    "--identity-file"@,
                    self.identity_file@,
                ),
                "--trust-store-file"@,
                self.trust_store_file@,
            ),
            "--trust-on-first-use"@,
            if self.trust_on_first_use {
                "true"@
            } else {
                "false"@
            },
        );
        let listed = with_options(
            with_options(
                fixed,
                "--bootstrap"@,
                texts(self.bootstrap_multiaddrs@),
                self.bootstrap_multiaddrs@.len() as int,
            ),
            "--connect-device-code"@,
            self.connect_codes(),
            self.connect_codes().len() as int,
        );
        if self.connect_codes().len() > 0 {
            listed.push("--auto-request"@)
        } else {
            listed
        }
    }

    /// The arguments the managed node is started with.
    pub fn node_arguments(&self) -> (arguments: Vec<String>)
        ensures
            texts(arguments@) == self.arguments(),
    {
        let mut arguments: Vec<String> = Vec::new();
        assert(texts(arguments@) =~= Seq::<Seq<char>>::empty());
        push_option(&mut arguments, "--listen", self.listen_multiaddr.as_str());
        push_option(&mut arguments, "--identity-file", self.identity_file.as_str());
        push_option(&mut arguments, "--trust-store-file", self.trust_store_file.as_str());
        push_option(
            &mut arguments,
            "--trust-on-first-use",
            if self.trust_on_first_use {
                "true"
            } else {
                "false"
            },
        );
        push_options(&mut arguments, "--bootstrap", self.bootstrap_multiaddrs.as_slice());
        push_options(
            &mut arguments,
            "--connect-device-code",
            self.connect_device_codes.as_slice(),
        );
        if self.connect_device_codes.len() > 0 {
            let ghost before = texts(arguments@);
            arguments.push(String::from_str("--auto-request"));
            assert(texts(arguments@) =~= before.push("--auto-request"@));
        }
        arguments
    }

    fn restart(&self) -> (work: NodeWork)
        ensures
            work matches NodeWork::Restart { program, arguments } && program@
                == self.node_binary@ && texts(arguments@) == self.arguments(),
    {
        NodeWork::Restart { program: self.node_binary.clone(), arguments: self.node_arguments() }
    }

    /// Takes up a request, or the lack of one.
    ///
    /// A request to start the daemon takes over the listen address and the
    /// node binary where they are not blank, and the bootstrap addresses
    /// and the trust policy in any case, and asks for the node to be
    /// restarted. A request to connect adds the device code to those to
    /// connect to and asks for a restart as well. Stopping asks for the
    /// node to be stopped, and discovery for the trust store to be read.
    /// Pairing sets or clears the mark of a device code. Every other
    /// request is answered at once and changes nothing.
    pub fn begin_request(&mut self, request: Option<DaemonRequest>) -> (step: RequestStep)
        requires
            old(self).wf(),
        ensures
            final(self).wf(),
            final(self).identity_file == old(self).identity_file,
            final(self).trust_store_file == old(self).trust_store_file,
            match request {
                None => {
                    &&& *final(self) == *old(self)
                    &&& step matches RequestStep::Done {
                        response: DaemonResponse::StartDaemon(ack),
                        events,
                    }
                    &&& is_ack(ack, false, "missing daemon request payload"@)
                    &&& events@.len() == 0
                },
                Some(
                    DaemonRequest::StartDaemon {
                        node_binary,
                        listen_multiaddr,
                        bootstrap_multiaddrs,
                        trust_on_first_use,
                    },
                ) => {
                    &&& final(self).listen_multiaddr@ == if crate::text::is_blank(
                        listen_multiaddr@,
                    ) {
                        old(self).listen_multiaddr@
                    } else {
                        listen_multiaddr@
                    }
                    &&& final(self).node_binary@ == if crate::text::is_blank(node_binary@) {
                        old(self).node_binary@
                    } else {
                        node_binary@
                    }
                    &&& final(self).bootstrap_multiaddrs == bootstrap_multiaddrs
                    &&& final(self).trust_on_first_use == trust_on_first_use
                    &&& final(self).connect_codes() == old(self).connect_codes()
                    &&& final(self).paired() == old(self).paired()
                    &&& step matches RequestStep::Work {
                        work: NodeWork::Restart { program, arguments },
                        ticket: Ticket::StartDaemon,
                    }
                    &&& program@ == final(self).node_binary@
                    &&& texts(arguments@) == final(self).arguments()
                },
                Some(DaemonRequest::StopDaemon) => {
                    &&& *final(self) == *old(self)
                    &&& step == (RequestStep::Work {
                        work: NodeWork::Stop,
                        ticket: Ticket::StopDaemon,
                    })
                },
                Some(DaemonRequest::DiscoverDevices) => {
                    &&& *final(self) == *old(self)
                    &&& step matches RequestStep::Work {
                        work: NodeWork::ReadTrustStore { path },
                        ticket: Ticket::DiscoverDevices,
                    }
                    &&& path@ == old(self).trust_store_file@
                },
                Some(DaemonRequest::PairDevice { device_code, approved }) => {
                    &&& final(self).node_binary == old(self).node_binary
                    &&& final(self).listen_multiaddr == old(self).listen_multiaddr
                    &&& final(self).bootstrap_multiaddrs == old(self).bootstrap_multiaddrs
                    &&& final(self).trust_on_first_use == old(self).trust_on_first_use
                    &&& final(self).connect_codes() == old(self).connect_codes()
                    &&& forall|code: Seq<char>|
                        final(self).paired().contains(code) <==> if code == device_code@ {
                            approved
                        } else {
                            old(self).paired().contains(code)
                        }
                    &&& step matches RequestStep::Done {
                        response: DaemonResponse::PairDevice { paired, detail },
                        events,
                    }
                    &&& paired == approved
                    &&& detail@ == if approved {
                        "device "@ + device_code@ + " marked as paired"@
                    } else {
                        "device "@ + device_code@ + " removed from paired set"@
                    }
                    &&& events@.len() == 0
                },
                Some(DaemonRequest::ConnectSession { device_code }) => {
                    &&& final(self).node_binary == old(self).node_binary
                    &&& final(self).listen_multiaddr == old(self).listen_multiaddr
                    &&& final(self).bootstrap_multiaddrs == old(self).bootstrap_multiaddrs
                    &&& final(self).trust_on_first_use == old(self).trust_on_first_use
                    &&& final(self).paired() == old(self).paired()
                    &&& forall|code: Seq<char>|
                        final(self).connect_codes().contains(code) <==> (code == device_code@
                            || old(self).connect_codes().contains(code))
                    &&& step matches RequestStep::Work {
                        work: NodeWork::Restart { program, arguments },
                        ticket: Ticket::ConnectSession { device_code: noted },
                    }
                    &&& noted@ == device_code@
                    &&& program@ == final(self).node_binary@
                    &&& texts(arguments@) == final(self).arguments()
                },
                Some(DaemonRequest::SendInput) => {
                    &&& *final(self) == *old(self)
                    &&& step matches RequestStep::Done {
                        response: DaemonResponse::SendInput(ack),
                        events,
                    }
                    &&& is_ack(
                        ack,
                        true,
                        "input command accepted and forwarded to data plane queue"@,
                    )
                    &&& events@.len() == 0
                },
                Some(DaemonRequest::StartFileTransfer { session_id, source_path }) => {
                    &&& *final(self) == *old(self)
                    &&& step matches RequestStep::Done {
                        response: DaemonResponse::StartFileTransfer(ack),
                        events,
                    }
                    &&& is_ack(
                        ack,
                        true,
                        "queued file transfer from "@ + source_path@ + " for session "@
                            + session_id@,
                    )
                    &&& events@.len() == 0
                },
                Some(DaemonRequest::SetClipboardSync { session_id, enabled }) => {
                    &&& *final(self) == *old(self)
                    &&& step matches RequestStep::Done {
                        response: DaemonResponse::SetClipboardSync(ack),
                        events,
                    }
                    &&& is_ack(
                        ack,
                        true,
                        "clipboard sync "@ + (if enabled {
                            "enabled"@
                        } else {
                            "disabled"@
                        }) + " for session "@ + session_id@,
                    )
                    &&& events@.len() == 0
                },
                Some(DaemonRequest::StartRecording { session_id, output_path }) => {
                    &&& *final(self) == *old(self)
                    &&& step matches RequestStep::Done {
                        response: DaemonResponse::StartRecording(ack),
                        events,
                    }
                    &&& is_ack(
                        ack,
                        true,
                        "recording started for session "@ + session_id@ + " output="@
                            + output_path@,
                    )
                    &&& events@.len() == 0
                },
                Some(DaemonRequest::GetSessionStats { session_id }) => {
                    &&& *final(self) == *old(self)
                    &&& step matches RequestStep::Done {
                        response: DaemonResponse::GetSessionStats { stats },
                        events,
                    }
                    &&& stats.session_id@ == session_id@
                    &&& stats.rtt_ms == 0
                    &&& stats.tx_bitrate_kbps == 0
                    &&& stats.rx_bitrate_kbps == 0
                    &&& stats.packet_loss_x10000 == 0
                    &&& stats.encode_latency_ms == 0
                    &&& stats.decode_latency_ms == 0
                    &&& !stats.using_relay
                    &&& events@.len() == 0
                },
            },
    {
        let request: DaemonRequest = match request {
            Some(request) => request,
            None => {
                return RequestStep::Done {
                    response: DaemonResponse::StartDaemon(
                        GenericAck {
                            ok: false,
                            detail: String::from_str("missing daemon request payload"),
                        },
                    ),
                    events: Vec::new(),
                };
            },
        };
        match request {
            DaemonRequest::StartDaemon {
                node_binary,
                listen_multiaddr,
                bootstrap_multiaddrs,
                trust_on_first_use,
            } => {
                if !str_is_blank(listen_multiaddr.as_str()) {
                    self.listen_multiaddr = listen_multiaddr;
                }
                if !str_is_blank(node_binary.as_str()) {
                    self.node_binary = node_binary;
                }
                self.bootstrap_multiaddrs = bootstrap_multiaddrs;
                self.trust_on_first_use = trust_on_first_use;
                RequestStep::Work { work: self.restart(), ticket: Ticket::StartDaemon }
            },
            DaemonRequest::StopDaemon => RequestStep::Work {
                work: NodeWork::Stop,
                ticket: Ticket::StopDaemon,
            },
            DaemonRequest::DiscoverDevices => RequestStep::Work {
                work: NodeWork::ReadTrustStore { path: self.trust_store_file.clone() },
                ticket: Ticket::DiscoverDevices,
            },
            DaemonRequest::PairDevice { device_code, approved } => {
                let mut detail: String = String::from_str("device ");
                push_text(&mut detail, device_code.as_str());
                if approved {
                    insert_sorted(&mut self.paired_devices, device_code.as_str());
                    push_text(&mut detail, " marked as paired");
                } else {
                    remove_sorted(&mut self.paired_devices, device_code.as_str());
                    push_text(&mut detail, " removed from paired set");
                }
                RequestStep::Done {
                    response: DaemonResponse::PairDevice { paired: approved, detail },
                    events: Vec::new(),
                }
            },
            DaemonRequest::ConnectSession { device_code } => {
                insert_sorted(&mut self.connect_device_codes, device_code.as_str());
                RequestStep::Work {
                    work: self.restart(),
                    ticket: Ticket::ConnectSession { device_code },
                }
            },
            DaemonRequest::SendInput => RequestStep::Done {
                response: DaemonResponse::SendInput(
                    GenericAck {
                        ok: true,
                        detail: String::from_str(
                            "input command accepted and forwarded to data plane queue",
                        ),
                    },
                ),
                events: Vec::new(),
            },
            DaemonRequest::StartFileTransfer { session_id, source_path } => {
                let mut detail: String = String::from_str("queued file transfer from ");
                push_text(&mut detail, source_path.as_str());
                push_text(&mut detail, " for session ");
                push_text(&mut detail, session_id.as_str());
                RequestStep::Done {
                    response: DaemonResponse::StartFileTransfer(GenericAck { ok: true, detail }),
                    events: Vec::new(),
                }
            },
            DaemonRequest::SetClipboardSync { session_id, enabled } => {
                let mut detail: String = String::from_str("clipboard sync ");
                push_text(
                    &mut detail,
                    if enabled {
                        "enabled"
                    } else {
                        "disabled"
                    },
                );
                push_text(&mut detail, " for session ");
                push_text(&mut detail, session_id.as_str());
                RequestStep::Done {
                    response: DaemonResponse::SetClipboardSync(GenericAck { ok: true, detail }),
                    events: Vec::new(),
                }
            },
            DaemonRequest::StartRecording { session_id, output_path } => {
                let mut detail: String = String::from_str("recording started for session ");
                push_text(&mut detail, session_id.as_str());
                push_text(&mut detail, " output=");
                push_text(&mut detail, output_path.as_str());
                RequestStep::Done {
                    response: DaemonResponse::StartRecording(GenericAck { ok: true, detail }),
                    events: Vec::new(),
                }
            },
            DaemonRequest::GetSessionStats { session_id } => RequestStep::Done {
                response: DaemonResponse::GetSessionStats {
                    stats: SessionStats {
                        session_id,
                        rtt_ms: 0,
                        tx_bitrate_kbps: 0,
                        rx_bitrate_kbps: 0,
                        packet_loss_x10000: 0,
                        encode_latency_ms: 0,
                        decode_latency_ms: 0,
                        using_relay: false,
                    },
                },
                events: Vec::new(),
            },
        }
    }

    /// Answers a request whose work is done.
    ///
    /// Work that went well is acknowledged, with an event that tells of the
    /// new state; work that failed is reported in the answer and in an
    /// error event, both with the words of the failure. The devices found
    /// in the trust store are listed in the answer and in an event, each
    /// marked as trusted where it is paired. An outcome that does not fit
    /// the request counts as a failure of its work.
    pub fn finish_request(&self, ticket: Ticket, outcome: WorkOutcome, now_unix_ms: u64) -> (answer:
        (DaemonResponse, Vec<DaemonEvent>))
        ensures
            answer.1@.len() <= 1,
            match ticket {
                Ticket::StartDaemon => match outcome {
                    WorkOutcome::Succeeded => {
                        &&& answer.0 matches DaemonResponse::StartDaemon(ack)
                        &&& is_ack(ack, true, "managed node started"@)
                        &&& answer.1@.len() == 1
                        &&& is_session_state(
                            answer.1@[0],
                            Seq::<char>::empty(),
                            "daemon_running"@,
                            "managed node process is running"@,
                        )
                    },
                    _ => {
                        &&& answer.0 matches DaemonResponse::StartDaemon(ack)
                        &&& is_ack(ack, false, failure_detail(outcome))
                        &&& answer.1@.len() == 1
                        &&& is_error(answer.1@[0], "start_daemon_failed"@, failure_detail(outcome))
                    },
                },
                Ticket::StopDaemon => match outcome {
                    WorkOutcome::Succeeded => {
                        &&& answer.0 matches DaemonResponse::StopDaemon(ack)
                        &&& is_ack(ack, true, "managed node stopped"@)
                        &&& answer.1@.len() == 0
                    },
                    _ => {
                        &&& answer.0 matches DaemonResponse::StopDaemon(ack)
                        &&& is_ack(ack, false, failure_detail(outcome))
                        &&& answer.1@.len() == 1
                        &&& is_error(answer.1@[0], "stop_daemon_failed"@, failure_detail(outcome))
                    },
                },
                Ticket::DiscoverDevices => {
                    &&& answer.0 matches DaemonResponse::DiscoverDevices { devices }
                    &&& answer.1@.len() == 1
                    &&& answer.1@[0] matches DaemonEvent::DiscoveryUpdate { devices: told }
                    &&& match outcome {
                        WorkOutcome::TrustStore { records } => {
                            &&& show_all(devices@, records@, self.paired())
                            &&& show_all(told@, records@, self.paired())
                        },
                        _ => devices@.len() == 0 && told@.len() == 0,
                    }
                },
                Ticket::ConnectSession { device_code } => match outcome {
                    WorkOutcome::Succeeded => {
                        &&& answer.0 matches DaemonResponse::ConnectSession {
                            session_id,
                            accepted,
                            detail,
                        }
                        &&& session_id@ == connect_session_id(device_code@, now_unix_ms)
                        &&& accepted
                        &&& detail@ == "managed node restarted with connect target"@
                        &&& answer.1@.len() == 1
                        &&& is_session_state(
                            answer.1@[0],
                            connect_session_id(device_code@, now_unix_ms),
                            "connecting"@,
                            "target="@ + device_code@,
                        )
                    },
                    _ => {
                        &&& answer.0 matches DaemonResponse::ConnectSession {
                            session_id,
                            accepted,
                            detail,
                        }
                        &&& session_id@.len() == 0
                        &&& !accepted
                        &&& detail@ == failure_detail(outcome)
                        &&& answer.1@.len() == 1
                        &&& is_error(
                            answer.1@[0],
                            "connect_session_failed"@,
                            failure_detail(outcome),
                        )
                    },
                },
            },
    {
        match ticket {
            Ticket::StartDaemon => match outcome {
                WorkOutcome::Succeeded => {
                    let mut events: Vec<DaemonEvent> = Vec::new();
                    events.push(
                        DaemonEvent::SessionState {
                            session_id: String::new(),
                            state: String::from_str("daemon_running"),
                            detail: String::from_str("managed node process is running"),
                        },
                    );
                    (
                        DaemonResponse::StartDaemon(
                            GenericAck { ok: true, detail: String::from_str("managed node started") },
                        ),
                        events,
                    )
                },
                other => {
                    let detail: String = failure_words(&other);
                    let mut events: Vec<DaemonEvent> = Vec::new();
                    events.push(
                        DaemonEvent::Error {
                            code: String::from_str("start_daemon_failed"),
                            detail: detail.clone(),
                        },
                    );
                    (DaemonResponse::StartDaemon(GenericAck { ok: false, detail }), events)
                },
            },
            Ticket::StopDaemon => match outcome {
                WorkOutcome::Succeeded => (
                    DaemonResponse::StopDaemon(
                        GenericAck { ok: true, detail: String::from_str("managed node stopped") },
                    ),
                    Vec::new(),
                ),
                other => {
                    let detail: String = failure_words(&other);
                    let mut events: Vec<DaemonEvent> = Vec::new();
                    events.push(
                        DaemonEvent::Error {
                            code: String::from_str("stop_daemon_failed"),
                            detail: detail.clone(),
                        },
                    );
                    (DaemonResponse::StopDaemon(GenericAck { ok: false, detail }), events)
                },
            },
            Ticket::DiscoverDevices => {
                let devices: Vec<DiscoveredDevice> = match &outcome {
                    WorkOutcome::TrustStore { records } => discovered_devices(
                        records.as_slice(),
                        self.paired_devices.as_slice(),
                    ),
                    _ => Vec::new(),
                };
                let told: Vec<DiscoveredDevice> = clone_devices(&devices);
                let mut events: Vec<DaemonEvent> = Vec::new();
                events.push(DaemonEvent::DiscoveryUpdate { devices: told });
                (DaemonResponse::DiscoverDevices { devices }, events)
            },
            Ticket::ConnectSession { device_code } => match outcome {
                WorkOutcome::Succeeded => {
                    let mut session_id: String = String::from_str("session-");
                    push_text(&mut session_id, device_code.as_str());
                    push_text(&mut session_id, "-");
                    push_digits(&mut session_id, now_unix_ms);
                    let mut detail: String = String::from_str("target=");
                    push_text(&mut detail, device_code.as_str());
                    let mut events: Vec<DaemonEvent> = Vec::new();
                    events.push(
                        DaemonEvent::SessionState {
                            session_id: session_id.clone(),
                            state: String::from_str("connecting"),
                            detail,
                        },
                    );
                    (
                        DaemonResponse::ConnectSession {
                            session_id,
                            accepted: true,
                            detail: String::from_str("managed node restarted with connect target"),
                        },
                        events,
                    )
                },
                other => {
                    let detail: String = failure_words(&other);
                    let mut events: Vec<DaemonEvent> = Vec::new();
                    events.push(
                        DaemonEvent::Error {
                            code: String::from_str("connect_session_failed"),
                            detail: detail.clone(),
                        },
                    );
                    (
                        DaemonResponse::ConnectSession {
                            session_id: String::new(),
                            accepted: false,
                            detail,
                        },
                        events,
                    )
                },
            },
        }
    }
}

/// The session that a request to connect to `device_code` opens at
/// `now_unix_ms`.
pub open spec fn connect_session_id(device_code: Seq<char>, now_unix_ms: u64) -> Seq<char> {
    "session-"@ + device_code + "-"@ + digits(now_unix_ms as nat)
}

/// The words of a failure: those that came with it, or a note that the
/// outcome does not fit the request.
pub open spec fn failure_detail(outcome: WorkOutcome) -> Seq<char> {
    match outcome {
        WorkOutcome::Failed { detail } => detail@,
        _ => "unexpected outcome of the work for the request"@,
    }
}

fn failure_words(outcome: &WorkOutcome) -> (detail: String)
    ensures
        detail@ == failure_detail(*outcome),
{
    match outcome {
        WorkOutcome::Failed { detail } => detail.clone(),
        _ => String::from_str("unexpected outcome of the work for the request"),
    }
}

/// The payload of an envelope on the local socket.
#[derive(Debug, Clone, PartialEq, Eq)]
pub enum IpcPayload {
    Request(DaemonRequest),
    Response(DaemonResponse),
    Event(DaemonEvent),
}

/// A message on the local socket: its number on the connection, the
/// request it belongs to, and what it carries.
#[derive(Debug, Clone, PartialEq, Eq)]
pub struct IpcEnvelope {
    pub seq: u64,
    pub request_id: String,
    pub payload: Option<IpcPayload>,
}

/// `a + 1`, held at `u64::MAX`.
pub open spec fn next_seq(a: u64) -> u64 {
    if a == u64::MAX {
        a
    } else {
        (a + 1) as u64
    }
}

/// The number of the `index`th envelope sent from `seq` on.
pub open spec fn seq_at(seq: u64, index: nat) -> u64
    decreases index,
{
    if index == 0 {
        seq
    } else {
        next_seq(seq_at(seq, (index - 1) as nat))
    }
}

/// The request identifier that answers carry: that of the request, or one
/// made of the time where the request has none.
pub open spec fn answer_id(request_id: Seq<char>, now_unix_ms: u64) -> Seq<char> {
    if request_id.len() == 0 {
        "ipc-"@ + digits(now_unix_ms as nat)
    } else {
        request_id
    }
}

/// Puts the answer to a request into envelopes: the response first, then
/// the events in their order, numbered from `seq` on. The second result is
/// the number for the next envelope on the connection.
pub fn answer_envelopes(
    seq: u64,
    request_id: &str,
    now_unix_ms: u64,
    response: DaemonResponse,
    events: Vec<DaemonEvent>,
) -> (answer: (Vec<IpcEnvelope>, u64))
    ensures
        answer.0@.len() == events@.len() + 1,
        answer.1 == seq_at(seq, (events@.len() + 1) as nat),
        forall|i: int|
            0 <= i < answer.0@.len() ==> {
                &&& (#[trigger] answer.0@[i]).seq == seq_at(seq, i as nat)
                &&& answer.0@[i].request_id@ == answer_id(request_id@, now_unix_ms)
            },
        answer.0@[0].payload == Some(IpcPayload::Response(response)),
        forall|i: int|
            0 <= i < events@.len() ==> (#[trigger] answer.0@[i + 1]).payload == Some(
                IpcPayload::Event(events@[i]),
            ),
{
    let mut id: String = String::from_str(request_id);
    if request_id.unicode_len() == 0 {
        id = String::from_str("ipc-");
        push_digits(&mut id, now_unix_ms);
    }
    let mut out: Vec<IpcEnvelope> = Vec::new();
    out.push(
        IpcEnvelope {
            seq,
            request_id: id.clone(),
            payload: Some(IpcPayload::Response(response)),
        },
    );
    let mut next: u64 = if seq == u64::MAX {
        seq
    } else {
        seq + 1
    };
    assert(next == seq_at(seq, 1)) by {
        assert(seq_at(seq, 0) == seq);
    }
    let mut events = events;
    let ghost given = events@;
    let count: usize = events.len();
    let mut i: usize = 0;
    while i < count
        invariant
            count == given.len(),
            i <= count,
            events@ == given.skip(i as int),
            out@.len() == i + 1,
            next == seq_at(seq, (i + 1) as nat),
            id@ == answer_id(request_id@, now_unix_ms),
            forall|j: int|
                0 <= j < out@.len() ==> {
                    &&& (#[trigger] out@[j]).seq == seq_at(seq, j as nat)
                    &&& out@[j].request_id@ == answer_id(request_id@, now_unix_ms)
                },
            out@[0].payload == Some(IpcPayload::Response(response)),
            forall|j: int|
                0 <= j < i ==> (#[trigger] out@[j + 1]).payload == Some(
                    IpcPayload::Event(given[j]),
                ),
        decreases count - i,
    {
        let event: DaemonEvent = events.remove(0);
        assert(event == given[i as int]);
        assert(events@ =~= given.skip(i + 1));
        out.push(
            IpcEnvelope { seq: next, request_id: id.clone(), payload: Some(IpcPayload::Event(event)) },
        );
        assert(seq_at(seq, (i + 2) as nat) == next_seq(seq_at(seq, (i + 1) as nat)));
        next = if next == u64::MAX {
            next
        } else {
            next + 1
        };
        i += 1;
    }
    (out, next)
}

/// The envelope in which the control tool sends `request`.
pub fn control_envelope(request: DaemonRequest, now_unix_ms: u64) -> (envelope: IpcEnvelope)
    ensures
        envelope.seq == 1,
        envelope.request_id@ == "ctl-"@ + digits(now_unix_ms as nat),
        envelope.payload == Some(IpcPayload::Request(request)),
{
    let mut request_id: String = String::from_str("ctl-");
    push_digits(&mut request_id, now_unix_ms);
    IpcEnvelope { seq: 1, request_id, payload: Some(IpcPayload::Request(request)) }
}

/// The length that the four bytes before a frame stand for: a big-endian
/// number.
pub open spec fn frame_length(header: Seq<u8>) -> nat {
    (header[0] as nat) * 0x100_0000 + (header[1] as nat) * 0x1_0000 + (header[2] as nat) * 0x100
        + (header[3] as nat)
}

/// The length of the frame that follows `header`. A length of zero ends the
/// conversation, as the end of the stream does.
pub fn read_frame_length(header: &[u8; 4]) -> (length: Option<u32>)
    ensures
        match length {
            Some(n) => n > 0 && n == frame_length(header@),
            None => frame_length(header@) == 0,
        },
{
    let length: u32 = header[0] as u32 * 0x100_0000 + header[1] as u32 * 0x1_0000 + header[2] as u32
        * 0x100 + header[3] as u32;
    if length == 0 {
        None
    } else {
        Some(length)
    }
}

/// The four bytes that go before a frame of `length` bytes, or nothing
/// where the length does not fit into them.
pub fn frame_header(length: usize) -> (header: Option<[u8; 4]>)
    ensures
        match header {
            Some(bytes) => length <= u32::MAX && frame_length(bytes@) == length,
            None => length > u32::MAX,
        },
{
    if length > u32::MAX as usize {
        return None;
    }
    let n: u32 = length as u32;
    let header: [u8; 4] = [
        (n / 0x100_0000) as u8,
        (n / 0x1_0000 % 0x100) as u8,
        (n / 0x100 % 0x100) as u8,
        (n % 0x100) as u8,
    ];
    Some(header)
}

/// Reading undoes writing: the length read from the header of a frame is
/// the length the header was written for.
pub proof fn lemma_frame_header_round_trip(header: Seq<u8>, length: nat)
    requires
        header.len() == 4,
        length <= u32::MAX,
        header[0] == (length / 0x100_0000) as u8,
        header[1] == (length / 0x1_0000 % 0x100) as u8,
        header[2] == (length / 0x100 % 0x100) as u8,
        header[3] == (length % 0x100) as u8,
    ensures
        frame_length(header) == length,
{
}

} // verus!
