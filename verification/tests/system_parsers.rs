use pulse::system::container::{
    match_stats, parse_state, percentage_text, short_id, split_mem_usage, state_from_lowercase,
    ContainerAction, ContainerRuntime, ContainerState, MemUnit,
};
use pulse::system::disk::{checked_diskstats, parse_diskstats, DiskInfo};
use pulse::system::gpu::{amd_gpu_name, drm_card, parse_nvidia_row, vram_mib, GpuVendor};
use pulse::system::memory::{meminfo_fits, parse_cache_buffers, parse_meminfo_kb, MemorySnapshot};
use pulse::system::network::{
    aggregate_traffic, parse_addr6_port, parse_addr_port, parse_tcp6_line, parse_tcp_line,
    parse_tcp_table, tcp_state_name, InterfaceCounters,
};
use pulse::system::process::{
    name_order, nice_value, pid_order, process_uid, process_user, stat_cuttable, thread_count, uid_to_name,
};

// ── network ─────────────────────────────────────────────────────────────

#[test]
fn ipv4_address_and_port_from_hex() {
    assert_eq!(parse_addr_port("0100007F:1F90"), Some(("127.0.0.1".to_string(), 8080)));
    assert_eq!(parse_addr_port("00000000:0050"), Some(("0.0.0.0".to_string(), 80)));
    assert_eq!(parse_addr_port("zz:zz"), Some(("0.0.0.0".to_string(), 0)));
    assert_eq!(parse_addr_port("0100007F"), None);
    assert_eq!(parse_addr_port("1:2:3"), None);
}

#[test]
fn ipv6_address_and_port() {
    assert_eq!(
        parse_addr6_port("0000000000000000FFFF00000100007F:0016"),
        Some(("127.0.0.1".to_string(), 22))
    );
    assert_eq!(
        parse_addr6_port("00000000000000000000000001000000:0035"),
        Some(("[::]".to_string(), 53))
    );
    assert_eq!(parse_addr6_port("abc"), None);
}

#[test]
fn tcp_state_names() {
    assert_eq!(tcp_state_name(0x01), "ESTABLISHED");
    assert_eq!(tcp_state_name(0x06), "TIME_WAIT");
    assert_eq!(tcp_state_name(0x0A), "LISTEN");
    assert_eq!(tcp_state_name(0x0B), "CLOSING");
    assert_eq!(tcp_state_name(0x00), "0x00");
    assert_eq!(tcp_state_name(0xFF), "0xFF");
    assert_eq!(tcp_state_name(0x1c), "0x1C");
}

const TCP_LINE: &str = "   0: 0100007F:0CEA 00000000:0000 0A 00000000:00000000 00:00000000 00000000  1000        0 12345 1 0000000000000000 100 0 0 10 0";

#[test]
fn tcp_line_fields() {
    let c = parse_tcp_line(TCP_LINE).unwrap();
    assert_eq!(c.local_addr, "127.0.0.1");
    assert_eq!(c.local_port, 3306);
    assert_eq!(c.remote_addr, "0.0.0.0");
    assert_eq!(c.remote_port, 0);
    assert_eq!(c.state, "LISTEN");
    assert_eq!(c.uid, 1000);
    assert!(parse_tcp_line("0: 0100007F:0CEA").is_none());
}

#[test]
fn tcp6_line_fields() {
    let line = "  1: 0000000000000000FFFF00000100007F:01BB 0000000000000000FFFF00000200000A:C350 01 00000000:00000000 00:00000000 00000000     0        0 999 1";
    let c = parse_tcp6_line(line).unwrap();
    assert_eq!(c.local_addr, "127.0.0.1");
    assert_eq!(c.local_port, 443);
    assert_eq!(c.remote_addr, "10.0.0.2");
    assert_eq!(c.remote_port, 50000);
    assert_eq!(c.state, "ESTABLISHED");
    assert_eq!(c.uid, 0);
}

#[test]
fn tcp_table_skips_the_header() {
    let table = format!("  sl  local_address rem_address   st tx_queue rx_queue tr tm->when retrnsmt   uid  timeout inode\n{}\n", TCP_LINE);
    let conns = parse_tcp_table(&table, false);
    assert_eq!(conns.len(), 1);
    assert_eq!(conns[0].local_port, 3306);
    assert!(parse_tcp_table(TCP_LINE, false).is_empty());
    assert!(parse_tcp_table("", true).is_empty());
}

#[test]
fn aggregate_traffic_sums_and_advances() {
    let mut prev_rx = 0u64;
    let mut prev_tx = 0u64;
    let r = aggregate_traffic(&[(100, 10), (50, 5)], &mut prev_rx, &mut prev_tx);
    assert_eq!(r, (150, 15, 150, 15));
    assert_eq!((prev_rx, prev_tx), (150, 15));
    let r = aggregate_traffic(&[(120, 30)], &mut prev_rx, &mut prev_tx);
    assert_eq!(r, (120, 30, 0, 15));
    let r = aggregate_traffic(&[], &mut prev_rx, &mut prev_tx);
    assert_eq!(r, (0, 0, 0, 0));
}

#[test]
fn interface_counters_read_back_and_grow() {
    let mut c = InterfaceCounters::new();
    assert_eq!(c.get("eth0"), None);
    assert_eq!(c.record("eth0", 1000, 200), (1000, 200));
    assert_eq!(c.get("eth0"), Some((1000, 200)));
    assert_eq!(c.record("wlan0", 5, 5), (5, 5));
    assert_eq!(c.record("eth0", 1500, 100), (500, 0));
    assert_eq!(c.get("eth0"), Some((1500, 100)));
    assert_eq!(c.get("wlan0"), Some((5, 5)));
}

// ── memory ──────────────────────────────────────────────────────────────

#[test]
fn meminfo_values_in_bytes() {
    assert_eq!(parse_meminfo_kb("   12345 kB"), 12345 * 1024);
    assert_eq!(parse_meminfo_kb(""), 0);
    assert_eq!(parse_meminfo_kb("  abc kB"), 0);
    assert_eq!(parse_meminfo_kb(" +7 kB"), 7 * 1024);
}

#[test]
fn meminfo_cached_and_buffers() {
    let contents = "MemTotal:       16000000 kB\nMemFree:         1000 kB\nBuffers:          2048 kB\nCached:          4096 kB\nSwapCached:        1 kB\n";
    assert!(meminfo_fits(contents));
    assert_eq!(parse_cache_buffers(contents), (4096 * 1024, 2048 * 1024));
    assert_eq!(parse_cache_buffers(""), (0, 0));
    let later = "Cached: 1 kB\nCached: 2 kB\n";
    assert_eq!(parse_cache_buffers(later), (2048, 0));
}

#[test]
fn meminfo_too_large_is_detected() {
    assert!(!meminfo_fits("Cached: 18446744073709551615 kB\n"));
    assert!(meminfo_fits("SwapCached: 18446744073709551615 kB\n"));
}

#[test]
fn memory_snapshot_from_totals_and_meminfo() {
    let m = MemorySnapshot::new(100, 60, 40, 10, 1, &Some("Cached: 2 kB\nBuffers: 1 kB\n".to_string()));
    assert_eq!((m.total, m.used, m.free, m.swap_total, m.swap_used), (100, 60, 40, 10, 1));
    assert_eq!((m.cached, m.buffers), (2048, 1024));
    let m = MemorySnapshot::new(1, 1, 0, 0, 0, &None);
    assert_eq!((m.cached, m.buffers), (0, 0));
}

// ── disk ────────────────────────────────────────────────────────────────

const DISKSTATS: &str = "   8       0 sda 100 0 2048 10 50 0 1024 5 0 0 0\n   8       1 sda1 90 0 1000 10 40 0 900 5 0 0 0\n 259       0 nvme0n1 1 0 8 0 1 0 16 0 0 0 0\n 259       1 nvme0n1p1 1 0 8 0 1 0 16 0 0 0 0\n 252       0 vda 0 0 4 0 0 0 2 0 0 0 0\n   7       0 loop0 5 0 100 0 0 0 0 0 0 0 0\n";

#[test]
fn diskstats_count_whole_disks_only() {
    let read = (2048 + 8 + 4) * 512;
    let written = (1024 + 16 + 2) * 512;
    assert_eq!(parse_diskstats(DISKSTATS), (read, written));
    assert_eq!(checked_diskstats(DISKSTATS), Some((read, written)));
    assert_eq!(parse_diskstats(""), (0, 0));
    assert_eq!(parse_diskstats(" 8 0 sdb 1 2 3\n"), (0, 0));
}

#[test]
fn diskstats_overflow_is_detected() {
    let huge = " 8 0 sda 0 0 36028797018963968 0 0 0 0 0 0\n";
    assert_eq!(checked_diskstats(huge), None);
}

#[test]
fn disk_usage_from_space() {
    let d = DiskInfo::from_space("sda1".into(), "/".into(), 100, 30, "ext4".into());
    assert_eq!((d.used, d.total), (70, 100));
    let d = DiskInfo::from_space("x".into(), "/x".into(), 10, 30, "tmpfs".into());
    assert_eq!(d.used, 0);
    assert_eq!(d.fs, "tmpfs");
}

// ── process ─────────────────────────────────────────────────────────────

const STATUS: &str = "Name:\tbash\nUmask:\t0022\nState:\tS (sleeping)\nUid:\t1000\t1000\t1000\t1000\nGid:\t1000\t1000\t1000\t1000\nThreads:\t4\n";

#[test]
fn status_threads_and_uid() {
    assert_eq!(thread_count(STATUS), Some(4));
    assert_eq!(process_uid(STATUS), Some(1000));
    assert_eq!(thread_count("Name: x\n"), None);
    assert_eq!(thread_count("Threads: many\nThreads: 2\n"), Some(2));
    assert_eq!(process_uid("Uid:\n"), Some(0));
}

#[test]
fn passwd_lookup() {
    let passwd = "root:x:0:0:root:/root:/bin/bash\nalice:x:1000:1000::/home/alice:/bin/sh\nbad line\n";
    assert_eq!(uid_to_name(1000, passwd), "alice");
    assert_eq!(uid_to_name(0, passwd), "root");
    assert_eq!(uid_to_name(42, passwd), "42");
    assert_eq!(process_user(STATUS, &Some(passwd.to_string())), "alice");
    assert_eq!(process_user(STATUS, &None), "1000");
    assert_eq!(process_user("Name: x\n", &Some(passwd.to_string())), "?");
}

#[test]
fn nice_from_stat() {
    let stat = "1234 (my (weird) proc) S 1 1234 1234 0 -1 4194560 100 0 0 0 5 3 0 0 20 -5 1 0 100 1000 50";
    assert!(stat_cuttable(stat));
    assert_eq!(nice_value(stat), -5);
    assert_eq!(nice_value("no paren here"), 0);
    assert_eq!(nice_value("1 (x) S 1 2"), 0);
    assert!(!stat_cuttable("1 (x)"));
    assert!(!stat_cuttable("1 (x)é 1 2"));
}

// ── containers ──────────────────────────────────────────────────────────

#[test]
fn container_states_ignore_case() {
    assert_eq!(parse_state("running"), ContainerState::Running);
    assert_eq!(parse_state("Paused"), ContainerState::Paused);
    assert_eq!(parse_state("EXITED"), ContainerState::Exited);
    assert_eq!(parse_state("created"), ContainerState::Created);
    assert_eq!(parse_state("restarting"), ContainerState::Restarting);
    assert_eq!(parse_state("dead"), ContainerState::Unknown);
    assert_eq!(state_from_lowercase("Running"), ContainerState::Unknown);
}

#[test]
fn container_commands() {
    assert_eq!(ContainerRuntime::Docker.command(), "docker");
    assert_eq!(ContainerRuntime::Podman.command(), "podman");
    assert_eq!(ContainerAction::Stop.verb(), "stop");
    assert_eq!(ContainerAction::Restart.verb(), "restart");
    assert_eq!(ContainerAction::Pause.verb(), "pause");
    assert_eq!(ContainerAction::Unpause.verb(), "unpause");
}

#[test]
fn container_short_ids() {
    assert_eq!(short_id("0123456789abcdef0123"), "0123456789ab");
    assert_eq!(short_id("abc"), "abc");
    assert_eq!(short_id("0123456789ab"), "0123456789ab");
}

#[test]
fn stats_are_matched_by_id_prefix() {
    let ids = vec!["0123456789ab".to_string(), "ffffffffffff".to_string()];
    let stats = vec![
        "ffffffffffff0000".to_string(),
        "deadbeef".to_string(),
        "0123456789ab".to_string(),
    ];
    assert_eq!(match_stats(&ids, &stats), vec![Some(1), None, Some(0)]);
    let dup = vec!["ab".to_string(), "a".to_string()];
    assert_eq!(match_stats(&dup, &["abc".to_string()]), vec![Some(0)]);
}

#[test]
fn memory_usage_units() {
    assert_eq!(split_mem_usage("1.5GiB / 7.6GiB"), Some(("1.5".to_string(), MemUnit::Gib)));
    assert_eq!(split_mem_usage(" 300 MiB / 1GiB"), Some(("300".to_string(), MemUnit::Mib)));
    assert_eq!(split_mem_usage("512KiB"), Some(("512".to_string(), MemUnit::Kib)));
    assert_eq!(split_mem_usage("12B / 1GiB"), None);
    assert_eq!(split_mem_usage(""), None);
}

#[test]
fn percentage_texts() {
    assert_eq!(percentage_text("12.5%"), "12.5");
    assert_eq!(percentage_text(" 3 %%"), "3");
    assert_eq!(percentage_text("%"), "");
}

// ── GPUs ────────────────────────────────────────────────────────────────

#[test]
fn nvidia_rows() {
    let row = parse_nvidia_row("NVIDIA GeForce RTX 3080, 35, 1024, 10240, 54, 30, 120.50").unwrap();
    assert_eq!(row.name, "NVIDIA GeForce RTX 3080");
    assert_eq!(row.usage, "35");
    assert_eq!(row.mem_used_mib, 1024);
    assert_eq!(row.mem_total_mib, 10240);
    assert_eq!(row.temperature.as_deref(), Some("54"));
    assert_eq!(row.fan.as_deref(), Some("30"));
    assert_eq!(row.power.as_deref(), Some("120.50"));
    let short = parse_nvidia_row("GPU, 1, [N/A], 8").unwrap();
    assert_eq!(short.mem_used_mib, 0);
    assert_eq!(short.mem_total_mib, 8);
    assert_eq!(short.temperature, None);
    assert!(parse_nvidia_row("a, b, c").is_none());
}

#[test]
fn drm_cards_and_vram() {
    assert!(drm_card("card0"));
    assert!(!drm_card("card0-DP-1"));
    assert!(!drm_card("renderD128"));
    assert_eq!(vram_mib(&Some("4294967296\n".to_string())), 4096);
    assert_eq!(vram_mib(&Some("junk".to_string())), 0);
    assert_eq!(vram_mib(&None), 0);
    assert_eq!(amd_gpu_name("card1"), "AMD GPU (card1)");
    assert_ne!(GpuVendor::Amd, GpuVendor::Nvidia);
}

// ── process table order ─────────────────────────────────────────────────

#[test]
fn processes_ordered_by_pid_stably() {
    assert_eq!(pid_order(&[30, 10, 20, 10]), vec![1, 3, 2, 0]);
    assert_eq!(pid_order(&[]), Vec::<usize>::new());
    assert_eq!(pid_order(&[5]), vec![0]);
}

#[test]
fn processes_ordered_by_name_like_strings() {
    let names: Vec<String> = vec!["zsh", "Xorg", "bash", "ßtool", "bash", "élan"]
        .into_iter()
        .map(String::from)
        .collect();
    let order = name_order(&names);
    let mut expected: Vec<usize> = (0..names.len()).collect();
    expected.sort_by(|&a, &b| names[a].cmp(&names[b]));
    assert_eq!(order, expected);
    assert_eq!(order, vec![1, 2, 4, 0, 3, 5]);
}
