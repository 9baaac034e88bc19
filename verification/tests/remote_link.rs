use pulse::remote::{host_label, ConnectionStatus, LinkEvent, RemoteDisk, RemoteMem};
use pulse::server::{DiskData, MemData};
use pulse::system::disk::DiskInfo;
use pulse::system::memory::MemorySnapshot;

fn is_error(s: &ConnectionStatus, text: &str) -> bool {
    matches!(s, ConnectionStatus::Error(e) if e == text)
}

#[test]
fn connection_goes_through_its_states() {
    let s = ConnectionStatus::Disconnected.after(LinkEvent::Started);
    assert!(matches!(s, ConnectionStatus::Connecting));
    let s = s.after(LinkEvent::Packet);
    assert!(s.is_connected());
    let s = s.after(LinkEvent::StreamEnded);
    assert!(matches!(s, ConnectionStatus::Disconnected));
}

#[test]
fn spawn_failure_is_reported() {
    let s = ConnectionStatus::Connecting.after(LinkEvent::SpawnFailed("No such file".to_string()));
    assert!(is_error(&s, "spawn failed: No such file"));
    assert!(!s.is_connected());
}

#[test]
fn stream_end_after_a_read_error_disconnects_unless_the_error_is_empty() {
    let s = ConnectionStatus::Connected.after(LinkEvent::ReadFailed("broken pipe".to_string()));
    assert!(is_error(&s, "broken pipe"));
    let s = s.after(LinkEvent::StreamEnded);
    assert!(matches!(s, ConnectionStatus::Disconnected));
    let s = ConnectionStatus::Connected.after(LinkEvent::ReadFailed(String::new()));
    let s = s.after(LinkEvent::StreamEnded);
    assert!(is_error(&s, ""));
}

#[test]
fn stop_disconnects_everything() {
    for s in [
        ConnectionStatus::Connecting,
        ConnectionStatus::Connected,
        ConnectionStatus::Error("x".into()),
        ConnectionStatus::Disconnected,
    ] {
        assert!(matches!(s.after(LinkEvent::Stopped), ConnectionStatus::Disconnected));
    }
}

#[test]
fn host_labels() {
    assert_eq!(host_label("user@192.168.1.10"), "192.168.1.10");
    assert_eq!(host_label("myhost"), "myhost");
    assert_eq!(host_label("a@b@c"), "c");
    assert_eq!(host_label("user@"), "");
}

#[test]
fn server_records_carry_every_field() {
    let m = MemorySnapshot { used: 1, free: 2, total: 3, cached: 4, buffers: 5, swap_used: 6, swap_total: 7 };
    let d = MemData::of(&m);
    assert_eq!((d.used, d.free, d.total, d.cached, d.buffers, d.swap_used, d.swap_total), (1, 2, 3, 4, 5, 6, 7));
    let disk = DiskInfo { name: "sda1".into(), mount: "/".into(), used: 10, total: 20, fs: "ext4".into() };
    let dd = DiskData::of(&disk);
    assert_eq!((dd.name.as_str(), dd.mount.as_str(), dd.used, dd.total, dd.fs.as_str()), ("sda1", "/", 10, 20, "ext4"));
    let rm = RemoteMem { used: d.used, free: d.free, total: d.total, cached: d.cached, buffers: d.buffers, swap_used: d.swap_used, swap_total: d.swap_total };
    assert_eq!(rm.total, 3);
    let rd = RemoteDisk { name: dd.name.clone(), mount: dd.mount.clone(), used: dd.used, total: dd.total, fs: dd.fs.clone() };
    assert_eq!(rd.used, 10);
}
