use core::time::Duration;

use gcups::command::{plan_shutdown, CommandWire};
use gcups::shutdown::{DescriptorShutdownDelay, MegatecShutdownDelay, ProlificShutdownDelay};
use gcups::wire::MEGATEC_MAX_COMMAND_LEN;
use gcups::{ShutdownDelay, UpsTransport};

#[test]
fn megatec_shutdown_delay_lookup_and_encoding() {
    let sd = MegatecShutdownDelay::from_duration(Duration::from_secs(45));
    assert_eq!(sd.delay.actual_delay(), Duration::from_secs(42));

    let mut command = [0; MEGATEC_MAX_COMMAND_LEN];
    // Return-on-mains: bare `S<n>` (reconnects ~10 s after mains returns).
    let len = sd.write_shutdown_command(&mut command, false);
    assert_eq!(&command[..len], b"S.7\r");
    // Stay-off: `S<n>R0000` (R0000 = never restore).
    let len = sd.write_shutdown_command(&mut command, true);
    assert_eq!(&command[..len], b"S.7R0000\r");

    let sd = MegatecShutdownDelay::from_duration(Duration::from_secs(5));
    assert_eq!(sd.delay.actual_delay(), Duration::from_secs(12));

    let sd = MegatecShutdownDelay::from_duration(Duration::from_secs(60));
    let len = sd.write_shutdown_command(&mut command, false);
    assert_eq!(&command[..len], b"S01\r");
    let len = sd.write_shutdown_command(&mut command, true);
    assert_eq!(&command[..len], b"S01R0000\r");
}

#[test]
fn megatec_ten_minutes_uses_two_digits() {
    let sd = MegatecShutdownDelay::from_secs(100_000);
    assert_eq!(sd.delay.secs(), 600);
    let mut command = [0xaa; MEGATEC_MAX_COMMAND_LEN];
    let len = sd.write_shutdown_command(&mut command, false);
    assert_eq!(&command[..len], b"S10\r");
    assert_eq!(&command[len..], &[0xaa; 6]);
}

#[test]
fn descriptor_delay_reports() {
    let sd = DescriptorShutdownDelay::from_secs(45);
    assert_eq!(sd.delay.secs(), 40);
    assert_eq!(sd.shutdown_report, 0x38);
    assert_eq!(sd.restore_report, 0x30);
    let sd = DescriptorShutdownDelay::from_duration(Duration::from_millis(540_999));
    assert_eq!(sd.delay.secs(), 540);
    assert_eq!(sd.shutdown_report, 0xe8);
    assert_eq!(sd.restore_report, 0xe0);
}

#[test]
fn prolific_uses_whole_minutes() {
    let sd = ProlificShutdownDelay::from_secs(150);
    assert_eq!(sd.minutes, 2);
    assert_eq!(sd.delay.secs(), 120);
    assert_eq!(sd.shutdown_command(), "S2\r");
    assert_eq!(sd.shutdown_restore_command(), "S2R2\r");
    let sd = ShutdownDelay::from_duration(Duration::from_secs(59), UpsTransport::ProlificSerial);
    assert_eq!(sd.actual_delay(), Duration::from_secs(0));
}

#[test]
fn shutdown_delay_display() {
    assert_eq!(ShutdownDelay::from_secs(45, UpsTransport::Descriptor).display(), "40s");
    assert_eq!(ShutdownDelay::from_secs(700, UpsTransport::CypressHid).display(), "600s");
}

#[test]
fn shutdown_delay_never_exceeds_request_above_smallest_step() {
    for secs in 0..700u64 {
        for transport in [
            UpsTransport::Descriptor,
            UpsTransport::CypressHid,
            UpsTransport::ProlificSerial,
        ] {
            let d = ShutdownDelay::from_secs(secs, transport).secs();
            let smallest = match transport {
                UpsTransport::Descriptor => 30,
                UpsTransport::CypressHid => 12,
                UpsTransport::ProlificSerial => 0,
            };
            assert!(d <= secs || (secs < smallest && d == smallest));
            let longer = ShutdownDelay::from_secs(secs + 1, transport).secs();
            assert!(longer >= d);
        }
    }
}

#[test]
fn plan_shutdown_per_transport() {
    let p = plan_shutdown(UpsTransport::Descriptor, 60, true);
    assert_eq!(p.delay.secs(), 60);
    assert_eq!(p.report_id, 0x68);
    assert!(matches!(p.wire, CommandWire::DescriptorRead(0x68)));
    let p = plan_shutdown(UpsTransport::Descriptor, 60, false);
    assert_eq!(p.report_id, 0x60);

    let p = plan_shutdown(UpsTransport::CypressHid, 30, true);
    assert_eq!(p.report_id, 0x08);
    match p.wire {
        CommandWire::CypressWrite(c) => assert_eq!(c, b"S.5R0000\r"),
        other => panic!("unexpected {other:?}"),
    }
    let p = plan_shutdown(UpsTransport::CypressHid, 30, false);
    assert_eq!(p.report_id, 0x10);
    match p.wire {
        CommandWire::CypressWrite(c) => assert_eq!(c, b"S.5\r"),
        other => panic!("unexpected {other:?}"),
    }

    let p = plan_shutdown(UpsTransport::ProlificSerial, 600, false);
    assert_eq!(p.delay.secs(), 600);
    match p.wire {
        CommandWire::SerialWrite(c) => assert_eq!(c, b"S10R10\r"),
        other => panic!("unexpected {other:?}"),
    }
}

#[test]
fn supported_steps_are_kept() {
    for s in [30, 35, 40, 47, 53, 60, 120, 540] {
        assert_eq!(ShutdownDelay::from_secs(s, UpsTransport::Descriptor).secs(), s);
    }
    for s in [12, 18, 24, 30, 36, 42, 48, 54, 60, 600] {
        assert_eq!(ShutdownDelay::from_secs(s, UpsTransport::CypressHid).secs(), s);
    }
    for s in [0, 60, 3600] {
        assert_eq!(ShutdownDelay::from_secs(s, UpsTransport::ProlificSerial).secs(), s);
    }
}
