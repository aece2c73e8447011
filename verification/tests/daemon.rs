use aetherlink::daemon::{
    answer_envelopes, control_envelope, discovered_devices, frame_header, read_frame_length,
    DaemonEvent, DaemonRequest, DaemonResponse, DaemonState, DiscoveredDevice, GenericAck,
    IpcEnvelope, IpcPayload, NodeWork, RequestStep, SessionStats, Ticket, WorkOutcome,
};
use aetherlink::input::{
    normalize_input_event, InputCommand, InputError, InputEvent, InputPayload, KeyEvent,
    MouseEvent, TouchEvent, WheelEvent,
};
use aetherlink::trust::TrustedPeerRecord;

fn state() -> DaemonState {
    DaemonState::new(
        "aetherlink-node".to_string(),
        "/ip4/0.0.0.0/udp/9000/quic-v1".to_string(),
        "/data/device.key".to_string(),
        "/data/trusted_peers.json".to_string(),
    )
}

fn strings(items: &[&str]) -> Vec<String> {
    items.iter().map(|s| s.to_string()).collect()
}

fn done(step: RequestStep) -> (DaemonResponse, Vec<DaemonEvent>) {
    match step {
        RequestStep::Done { response, events } => (response, events),
        other => panic!("work asked for: {:?}", other),
    }
}

#[test]
fn rejects_invalid_key_transitions() {
    let event = InputEvent {
        session_id: "s".to_string(),
        source: 2,
        event_unix_ms: 0,
        payload: Some(InputPayload::Key(KeyEvent {
            key_code: 30,
            down: true,
            up: true,
            repeat: false,
            modifiers_mask: 0,
        })),
    };
    let err = normalize_input_event(&event).unwrap_err();
    assert_eq!(err, InputError::InvalidKeyTransition);
}

#[test]
fn input_events_become_commands() {
    let with = |payload| InputEvent {
        session_id: "s".to_string(),
        source: 1,
        event_unix_ms: 9,
        payload,
    };
    assert_eq!(normalize_input_event(&with(None)), Err(InputError::MissingPayload));
    assert_eq!(
        normalize_input_event(&with(Some(InputPayload::Mouse(MouseEvent {
            x: -3,
            y: 4,
            buttons_mask: 5
        })))),
        Ok(InputCommand::Mouse { x: -3, y: 4, buttons_mask: 5 })
    );
    assert_eq!(
        normalize_input_event(&with(Some(InputPayload::Wheel(WheelEvent {
            delta_x: 1,
            delta_y: -1
        })))),
        Ok(InputCommand::Wheel { delta_x: 1, delta_y: -1 })
    );
    assert_eq!(
        normalize_input_event(&with(Some(InputPayload::Key(KeyEvent {
            key_code: 30,
            down: true,
            up: false,
            repeat: true,
            modifiers_mask: 2
        })))),
        Ok(InputCommand::Key { key_code: 30, down: true, up: false, repeat: true, modifiers_mask: 2 })
    );
    let x = 0.25f32.to_bits();
    let y = 0.75f32.to_bits();
    assert_eq!(
        normalize_input_event(&with(Some(InputPayload::Touch(TouchEvent {
            pointer_id: 7,
            x_bits: x,
            y_bits: y,
            down: true,
            moving: false,
            up: true
        })))),
        Ok(InputCommand::Touch {
            pointer_id: 7,
            x_bits: x,
            y_bits: y,
            down: true,
            move_: false,
            up: true
        })
    );
}

#[test]
fn missing_request_is_not_ok() {
    let mut daemon = state();
    assert_eq!(
        done(daemon.begin_request(None)),
        (
            DaemonResponse::StartDaemon(GenericAck {
                ok: false,
                detail: "missing daemon request payload".to_string()
            }),
            vec![]
        )
    );
}

#[test]
fn start_takes_over_the_configuration_and_restarts_the_node() {
    let mut daemon = state();
    let step = daemon.begin_request(Some(DaemonRequest::StartDaemon {
        node_binary: "  ".to_string(),
        listen_multiaddr: "/ip4/0.0.0.0/udp/1/quic-v1".to_string(),
        bootstrap_multiaddrs: strings(&["/ip4/9.9.9.9/tcp/1", "/ip4/8.8.8.8/tcp/2"]),
        trust_on_first_use: true,
    }));
    assert_eq!(
        step,
        RequestStep::Work {
            work: NodeWork::Restart {
                program: "aetherlink-node".to_string(),
                arguments: strings(&[
                    "--listen",
                    "/ip4/0.0.0.0/udp/1/quic-v1",
                    "--identity-file",
                    "/data/device.key",
                    "--trust-store-file",
                    "/data/trusted_peers.json",
                    "--trust-on-first-use",
                    "true",
                    "--bootstrap",
                    "/ip4/9.9.9.9/tcp/1",
                    "--bootstrap",
                    "/ip4/8.8.8.8/tcp/2",
                ]),
            },
            ticket: Ticket::StartDaemon,
        }
    );
    assert_eq!(
        daemon.finish_request(Ticket::StartDaemon, WorkOutcome::Succeeded, 5),
        (
            DaemonResponse::StartDaemon(GenericAck {
                ok: true,
                detail: "managed node started".to_string()
            }),
            vec![DaemonEvent::SessionState {
                session_id: String::new(),
                state: "daemon_running".to_string(),
                detail: "managed node process is running".to_string(),
            }]
        )
    );
    assert_eq!(
        daemon.finish_request(
            Ticket::StartDaemon,
            WorkOutcome::Failed { detail: "no such file".to_string() },
            5
        ),
        (
            DaemonResponse::StartDaemon(GenericAck {
                ok: false,
                detail: "no such file".to_string()
            }),
            vec![DaemonEvent::Error {
                code: "start_daemon_failed".to_string(),
                detail: "no such file".to_string(),
            }]
        )
    );
    // a blank listen address keeps the old one, a binary that is named is taken
    let step = daemon.begin_request(Some(DaemonRequest::StartDaemon {
        node_binary: "/opt/node".to_string(),
        listen_multiaddr: "".to_string(),
        bootstrap_multiaddrs: vec![],
        trust_on_first_use: false,
    }));
    match step {
        RequestStep::Work { work: NodeWork::Restart { program, arguments }, .. } => {
            assert_eq!(program, "/opt/node");
            assert_eq!(arguments[1], "/ip4/0.0.0.0/udp/1/quic-v1");
            assert_eq!(arguments[7], "false");
            assert_eq!(arguments.len(), 8);
        }
        other => panic!("{:?}", other),
    }
}

#[test]
fn stop_and_its_outcomes() {
    let mut daemon = state();
    assert_eq!(
        daemon.begin_request(Some(DaemonRequest::StopDaemon)),
        RequestStep::Work { work: NodeWork::Stop, ticket: Ticket::StopDaemon }
    );
    assert_eq!(
        daemon.finish_request(Ticket::StopDaemon, WorkOutcome::Succeeded, 5),
        (
            DaemonResponse::StopDaemon(GenericAck {
                ok: true,
                detail: "managed node stopped".to_string()
            }),
            vec![]
        )
    );
    assert_eq!(
        daemon.finish_request(
            Ticket::StopDaemon,
            WorkOutcome::Failed { detail: "kill failed".to_string() },
            5
        ),
        (
            DaemonResponse::StopDaemon(GenericAck { ok: false, detail: "kill failed".to_string() }),
            vec![DaemonEvent::Error {
                code: "stop_daemon_failed".to_string(),
                detail: "kill failed".to_string(),
            }]
        )
    );
}

#[test]
fn connect_adds_the_target_and_asks_for_sessions() {
    let mut daemon = state();
    daemon.begin_request(Some(DaemonRequest::ConnectSession { device_code: "zeta".to_string() }));
    let step = daemon
        .begin_request(Some(DaemonRequest::ConnectSession { device_code: "alpha".to_string() }));
    match step {
        RequestStep::Work { work: NodeWork::Restart { arguments, .. }, ticket } => {
            assert_eq!(ticket, Ticket::ConnectSession { device_code: "alpha".to_string() });
            assert_eq!(
                arguments[8..],
                strings(&[
                    "--connect-device-code",
                    "alpha",
                    "--connect-device-code",
                    "zeta",
                    "--auto-request"
                ])[..]
            );
        }
        other => panic!("{:?}", other),
    }
    let ticket = Ticket::ConnectSession { device_code: "alpha".to_string() };
    assert_eq!(
        daemon.finish_request(ticket.clone(), WorkOutcome::Succeeded, 1234),
        (
            DaemonResponse::ConnectSession {
                session_id: "session-alpha-1234".to_string(),
                accepted: true,
                detail: "managed node restarted with connect target".to_string(),
            },
            vec![DaemonEvent::SessionState {
                session_id: "session-alpha-1234".to_string(),
                state: "connecting".to_string(),
                detail: "target=alpha".to_string(),
            }]
        )
    );
    assert_eq!(
        daemon.finish_request(ticket, WorkOutcome::Failed { detail: "boom".to_string() }, 1234),
        (
            DaemonResponse::ConnectSession {
                session_id: String::new(),
                accepted: false,
                detail: "boom".to_string(),
            },
            vec![DaemonEvent::Error {
                code: "connect_session_failed".to_string(),
                detail: "boom".to_string(),
            }]
        )
    );
}

#[test]
fn pairing_marks_devices_as_trusted() {
    let mut daemon = state();
    assert_eq!(
        done(daemon.begin_request(Some(DaemonRequest::PairDevice {
            device_code: "device-a".to_string(),
            approved: true
        }))),
        (
            DaemonResponse::PairDevice {
                paired: true,
                detail: "device device-a marked as paired".to_string()
            },
            vec![]
        )
    );
    let records = vec![
        TrustedPeerRecord {
            device_code: "device-a".to_string(),
            peer_id: "peer-a".to_string(),
            identity_pubkey_hex: "ab".to_string(),
            first_seen_unix_ms: 1,
            last_seen_unix_ms: 2,
        },
        TrustedPeerRecord {
            device_code: "device-b".to_string(),
            peer_id: "peer-b".to_string(),
            identity_pubkey_hex: "cd".to_string(),
            first_seen_unix_ms: 1,
            last_seen_unix_ms: -2,
        },
    ];
    let devices = vec![
        DiscoveredDevice {
            device_code: "device-a".to_string(),
            peer_id: "peer-a".to_string(),
            last_seen_unix_ms: 2,
            trusted: true,
        },
        DiscoveredDevice {
            device_code: "device-b".to_string(),
            peer_id: "peer-b".to_string(),
            last_seen_unix_ms: 0,
            trusted: false,
        },
    ];
    assert_eq!(discovered_devices(&records, &daemon.paired_devices), devices);
    assert_eq!(
        daemon.begin_request(Some(DaemonRequest::DiscoverDevices)),
        RequestStep::Work {
            work: NodeWork::ReadTrustStore { path: "/data/trusted_peers.json".to_string() },
            ticket: Ticket::DiscoverDevices,
        }
    );
    assert_eq!(
        daemon.finish_request(Ticket::DiscoverDevices, WorkOutcome::TrustStore { records }, 5),
        (
            DaemonResponse::DiscoverDevices { devices: devices.clone() },
            vec![DaemonEvent::DiscoveryUpdate { devices }]
        )
    );
    assert_eq!(
        daemon.finish_request(
            Ticket::DiscoverDevices,
            WorkOutcome::Failed { detail: "unreadable".to_string() },
            5
        ),
        (
            DaemonResponse::DiscoverDevices { devices: vec![] },
            vec![DaemonEvent::DiscoveryUpdate { devices: vec![] }]
        )
    );
    assert_eq!(
        done(daemon.begin_request(Some(DaemonRequest::PairDevice {
            device_code: "device-a".to_string(),
            approved: false
        }))),
        (
            DaemonResponse::PairDevice {
                paired: false,
                detail: "device device-a removed from paired set".to_string()
            },
            vec![]
        )
    );
    assert!(daemon.paired_devices.is_empty());
}

#[test]
fn canned_answers() {
    let mut daemon = state();
    let ack = |detail: &str| GenericAck { ok: true, detail: detail.to_string() };
    assert_eq!(
        done(daemon.begin_request(Some(DaemonRequest::SendInput))).0,
        DaemonResponse::SendInput(ack("input command accepted and forwarded to data plane queue"))
    );
    assert_eq!(
        done(daemon.begin_request(Some(DaemonRequest::StartFileTransfer {
            session_id: "s1".to_string(),
            source_path: "/tmp/f".to_string()
        })))
        .0,
        DaemonResponse::StartFileTransfer(ack("queued file transfer from /tmp/f for session s1"))
    );
    assert_eq!(
        done(daemon.begin_request(Some(DaemonRequest::SetClipboardSync {
            session_id: "s1".to_string(),
            enabled: true
        })))
        .0,
        DaemonResponse::SetClipboardSync(ack("clipboard sync enabled for session s1"))
    );
    assert_eq!(
        done(daemon.begin_request(Some(DaemonRequest::SetClipboardSync {
            session_id: "s1".to_string(),
            enabled: false
        })))
        .0,
        DaemonResponse::SetClipboardSync(ack("clipboard sync disabled for session s1"))
    );
    assert_eq!(
        done(daemon.begin_request(Some(DaemonRequest::StartRecording {
            session_id: "s1".to_string(),
            output_path: "/tmp/o".to_string()
        })))
        .0,
        DaemonResponse::StartRecording(ack("recording started for session s1 output=/tmp/o"))
    );
    assert_eq!(
        done(daemon.begin_request(Some(DaemonRequest::GetSessionStats {
            session_id: "s1".to_string()
        })))
        .0,
        DaemonResponse::GetSessionStats {
            stats: SessionStats {
                session_id: "s1".to_string(),
                rtt_ms: 0,
                tx_bitrate_kbps: 0,
                rx_bitrate_kbps: 0,
                packet_loss_x10000: 0,
                encode_latency_ms: 0,
                decode_latency_ms: 0,
                using_relay: false,
            }
        }
    );
}

#[test]
fn answers_are_numbered_in_order() {
    let response = DaemonResponse::StopDaemon(GenericAck { ok: true, detail: "x".to_string() });
    let events = vec![
        DaemonEvent::Error { code: "a".to_string(), detail: "1".to_string() },
        DaemonEvent::Error { code: "b".to_string(), detail: "2".to_string() },
    ];
    let (envelopes, next) = answer_envelopes(7, "", 99, response.clone(), events.clone());
    assert_eq!(next, 10);
    assert_eq!(
        envelopes,
        vec![
            IpcEnvelope {
                seq: 7,
                request_id: "ipc-99".to_string(),
                payload: Some(IpcPayload::Response(response.clone())),
            },
            IpcEnvelope {
                seq: 8,
                request_id: "ipc-99".to_string(),
                payload: Some(IpcPayload::Event(events[0].clone())),
            },
            IpcEnvelope {
                seq: 9,
                request_id: "ipc-99".to_string(),
                payload: Some(IpcPayload::Event(events[1].clone())),
            },
        ]
    );
    let (envelopes, next) = answer_envelopes(u64::MAX, "req-1", 99, response, events);
    assert_eq!(next, u64::MAX);
    assert_eq!(envelopes[2].seq, u64::MAX);
    assert_eq!(envelopes[2].request_id, "req-1");
    assert_eq!(
        control_envelope(DaemonRequest::StopDaemon, 42),
        IpcEnvelope {
            seq: 1,
            request_id: "ctl-42".to_string(),
            payload: Some(IpcPayload::Request(DaemonRequest::StopDaemon)),
        }
    );
}

#[test]
fn frames_are_prefixed_with_their_length() {
    assert_eq!(frame_header(0), Some([0, 0, 0, 0]));
    assert_eq!(frame_header(1), Some([0, 0, 0, 1]));
    assert_eq!(frame_header(0x0102_0304), Some([1, 2, 3, 4]));
    assert_eq!(frame_header(u32::MAX as usize), Some([255, 255, 255, 255]));
    assert_eq!(frame_header(u32::MAX as usize + 1), None);
    assert_eq!(read_frame_length(&[0, 0, 0, 0]), None);
    assert_eq!(read_frame_length(&[1, 2, 3, 4]), Some(0x0102_0304));
    assert_eq!(read_frame_length(&[255, 255, 255, 255]), Some(u32::MAX));
    for length in [1usize, 255, 256, 65_535, 65_536, 1 << 24] {
        assert_eq!(
            read_frame_length(&frame_header(length).unwrap()),
            Some(u32::from_be_bytes((length as u32).to_be_bytes()))
        );
        assert_eq!(frame_header(length).unwrap(), (length as u32).to_be_bytes());
    }
}
