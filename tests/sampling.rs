use sysstats::cpu::{cpu_rate, cpu_usage_text, parse_cpu_counters, CpuCounters};
use sysstats::disk::{get_physical_disk_io_stats, is_physical_disk};
use sysstats::error::SampleError;
use sysstats::memory::read_memory_info;
use sysstats::network::get_network_io_stats;
use sysstats::sampler::{assemble_sample, Sources};

const STAT: &str = "cpu  100 20 30 850 40 0 0 0 0 0\ncpu0 50 10 15 425 20 0 0 0 0 0\n";
const STAT_LATER: &str = "cpu  160 20 50 890 45 0 0 0 0 0\n";
const MEMINFO: &str = "MemTotal: 1000 kB\nMemFree: 200 kB\nMemAvailable: 600 kB\nBuffers: 10 kB\nSwapTotal: 500 kB\nSwapFree: 500 kB\n";
const NETDEV: &str = "Inter-|   Receive                                                |  Transmit\n face |bytes    packets errs drop fifo frame compressed multicast|bytes    packets errs drop fifo colls carrier compressed\n    lo: 1000 10 0 0 0 0 0 0 1000 10 0 0 0 0 0 0\n  eth0: 5000 50 0 0 0 0 0 0 7000 70 0 0 0 0 0 0\n";

fn counters(total: u64, idle: u64, iowait: u64) -> CpuCounters {
    CpuCounters { total, idle, iowait }
}

#[test]
fn cpu_counters_parse_first_line() {
    let c = parse_cpu_counters(STAT).unwrap();
    assert_eq!(c, counters(1000, 850, 40));
}

#[test]
fn cpu_counters_short_line_is_parse_error() {
    assert_eq!(parse_cpu_counters("cpu 1 2 3\n"), Err(SampleError::Parse));
    assert_eq!(parse_cpu_counters(""), Err(SampleError::Parse));
    assert_eq!(parse_cpu_counters("cpu 1 2 x 4 5\n"), Err(SampleError::Parse));
}

#[test]
fn busy_share_exact_and_bounded() {
    let a = parse_cpu_counters(STAT).unwrap();
    let b = parse_cpu_counters(STAT_LATER).unwrap();
    let r = cpu_rate(&a, &b).unwrap();
    assert_eq!(r.total_ticks, 120);
    assert_eq!(r.busy_ticks, 80);
    assert_eq!(r.iowait_ticks, 5);
    assert_eq!(r.busy_hundredths(), 6667);
    assert_eq!(r.iowait_hundredths(), 400);
    assert!(r.busy_hundredths() <= 10000);
}

#[test]
fn busy_share_stays_in_range_over_many_intervals() {
    for dt in 1u64..40 {
        for di in 0..=dt {
            let r = cpu_rate(&counters(100, 50, 7), &counters(100 + dt, 50 + di, 9)).unwrap();
            let busy = 100.0 * (r.busy_ticks as f64) / (r.total_ticks as f64);
            assert!((0.0..=100.0).contains(&busy));
            assert!(r.busy_hundredths() <= 10000);
        }
    }
}

#[test]
fn equal_totals_are_delta_error() {
    assert_eq!(cpu_rate(&counters(500, 100, 5), &counters(500, 100, 5)), Err(SampleError::Delta));
}

#[test]
fn counter_reset_is_delta_error() {
    assert_eq!(cpu_rate(&counters(500, 100, 5), &counters(400, 90, 5)), Err(SampleError::Delta));
    assert_eq!(cpu_rate(&counters(500, 100, 5), &counters(600, 90, 5)), Err(SampleError::Delta));
    assert_eq!(cpu_rate(&counters(500, 100, 5), &counters(600, 150, 4)), Err(SampleError::Delta));
    assert_eq!(cpu_rate(&counters(500, 100, 5), &counters(510, 150, 5)), Err(SampleError::Delta));
}

#[test]
fn usage_report_text() {
    let r = cpu_rate(&counters(0, 0, 0), &counters(4, 3, 0)).unwrap();
    assert_eq!(cpu_usage_text(&r), "My CPU Usage: 25.00%\n");
    let r = cpu_rate(&counters(0, 0, 0), &counters(3, 1, 0)).unwrap();
    assert_eq!(cpu_usage_text(&r), "My CPU Usage: 66.67%\n");
    let r = cpu_rate(&counters(0, 0, 0), &counters(7, 0, 0)).unwrap();
    assert_eq!(cpu_usage_text(&r), "My CPU Usage: 100.00%\n");
}

#[test]
fn memory_info_from_synthetic_table() {
    let m = read_memory_info(MEMINFO).unwrap();
    assert_eq!(
        (m.total_kb, m.free_kb, m.available_kb, m.swap_total_kb, m.swap_free_kb),
        (1000, 200, 600, 500, 500)
    );
    assert_eq!(m.used_kb(), 800);
}

#[test]
fn memory_info_missing_or_bad_value_is_parse_error() {
    assert_eq!(read_memory_info("MemTotal: 1000 kB\nMemFree: 200 kB\n"), Err(SampleError::Parse));
    let bad = MEMINFO.replace("MemFree: 200", "MemFree: lots");
    assert_eq!(read_memory_info(&bad), Err(SampleError::Parse));
}

#[test]
fn memory_info_later_line_wins() {
    let text = format!("{}MemTotal: 2000 kB\n", MEMINFO);
    assert_eq!(read_memory_info(&text).unwrap().total_kb, 2000);
}

#[test]
fn disk_device_classification() {
    for name in ["sda", "nvme0n1", "hda", "sdz", "nvme9n0"] {
        assert!(is_physical_disk(name), "{}", name);
    }
    for name in ["sda1", "loop0", "md0", "sd", "nvme0n1p1", "nvme0n2", "xsda", "SDA", ""] {
        assert!(!is_physical_disk(name), "{}", name);
    }
}

#[test]
fn disk_table_keeps_whole_disks_in_order() {
    let table = "   8       0 sda 11 0 0 0 21 0 0 0 31 0 41 0 0 0\n\
                 \x20  8       1 sda1 12 0 0 0 22 0 0 0 32 0 42 0 0 0\n\
                 \x20  7       0 loop0 13 0 0 0 23 0 0 0 33 0 43 0 0 0\n\
                 \x20259       0 nvme0n1 14 1 2 3 24 5 6 7 34 8 44 0 0 0\n\
                 \x20  3       0 hda 1 2 3\n";
    let disks = get_physical_disk_io_stats(table);
    assert_eq!(disks.len(), 2);
    assert_eq!(disks[0].devices, "sda");
    assert_eq!(disks[0].read_ops, 0);
    assert_eq!(disks[0].write_ops, 0);
    assert_eq!(disks[1].devices, "nvme0n1");
    assert_eq!(
        (disks[1].read_ops, disks[1].write_ops, disks[1].read_time_ms, disks[1].write_time_ms),
        (2, 6, 8, 0)
    );
}

#[test]
fn network_exclusion_keeps_source_order() {
    let exclude = vec!["lo".to_string()];
    let nets = get_network_io_stats(NETDEV, &exclude);
    assert_eq!(nets.len(), 1);
    assert_eq!(nets[0].interface_name, "eth0");
    assert_eq!(nets[0].bytes_received, 5000);
    assert_eq!(nets[0].bytes_transmitted, 7000);
    let all = get_network_io_stats(NETDEV, &Vec::new());
    let names: Vec<&str> = all.iter().map(|n| n.interface_name.as_str()).collect();
    assert_eq!(names, vec!["lo", "eth0"]);
}

#[test]
fn network_table_without_rows_is_empty() {
    assert!(get_network_io_stats("header\nheader\n", &Vec::new()).is_empty());
    assert!(get_network_io_stats("", &Vec::new()).is_empty());
}

#[test]
fn assembled_sample_fails_fast() {
    let exclude = vec!["lo".to_string()];
    let ok = Sources {
        cpu_first: STAT,
        cpu_second: STAT_LATER,
        meminfo: MEMINFO,
        diskstats: "",
        netdev: NETDEV,
    };
    let s = assemble_sample(&ok, &exclude).unwrap();
    assert_eq!(s.cpu.busy_ticks, 80);
    assert_eq!(s.memory.total_kb, 1000);
    assert_eq!(s.networks.len(), 1);
    let stalled = Sources { cpu_second: STAT, ..ok };
    assert_eq!(assemble_sample(&stalled, &exclude).err(), Some(SampleError::Delta));
    let no_memory = Sources { meminfo: "", ..ok };
    assert_eq!(assemble_sample(&no_memory, &exclude).err(), Some(SampleError::Parse));
    let no_cpu = Sources { cpu_first: "", ..ok };
    assert_eq!(assemble_sample(&no_cpu, &exclude).err(), Some(SampleError::Parse));
}
