use rusqlite::types::Value;
use sysstats::cpu::{cpu_rate, CpuCounters};
use sysstats::disk::DiskInfo;
use sysstats::memory::MemoryInfo;
use sysstats::network::NetworkInterface;
use sysstats::osinfo::{boot_time, build_os_info, get_os_info, parse_uptime_secs, show_and_save_os_info_to_db};
use sysstats::error::SampleError;
use sysstats::scheduler::{parse_exclude_list, plan_startup, PeriodicTask, Settings, TaskAction, TaskEvent};
use sysstats::storage::{
    init_db, insert_sql, retention_modifier, sample_inserts, Sample, SqlValue, Table, CREATE_STATS,
    INSERT_STATS, PRUNE_STATS,
};

const OS_RELEASE: &str = "NAME=\"Debian GNU/Linux\"\nPRETTY_NAME=\"Debian GNU/Linux 12 (bookworm)\"\nID=debian\n";
const VERSION: &str = "Linux version 6.1.0-18-amd64 (debian-kernel@lists.debian.org) #1 SMP\n";
const CPUINFO: &str = "processor\t: 0\nmodel name\t: Example CPU @ 2.00GHz\n\nprocessor\t: 1\nmodel name\t: Example CPU @ 2.00GHz\n";

fn settings(db_save: bool) -> Settings {
    Settings {
        interval_secs: 60,
        listen_addr: "127.0.0.1:8080".to_string(),
        db_file_name: "stats.db".to_string(),
        db_save,
        db_history_days: 30,
        exclude_interfaces: "lo".to_string(),
    }
}

fn text(v: &SqlValue) -> &str {
    match v {
        SqlValue::Text(s) => s.as_str(),
        _ => panic!("not text"),
    }
}

#[test]
fn retention_prunes_rows_older_than_window() {
    let conn = rusqlite::Connection::open_in_memory().unwrap();
    conn.execute(CREATE_STATS, []).unwrap();
    for offset in ["-0 days", "-5 days", "-31 days"] {
        conn.execute(
            "INSERT INTO stats (timestamp, cpu_usage) VALUES (datetime('now', ?1), 1.0)",
            [offset],
        )
        .unwrap();
    }
    let modifier = retention_modifier(30);
    assert_eq!(modifier, "-30 days");
    conn.execute(PRUNE_STATS, [modifier.as_str()]).unwrap();
    let left: i64 = conn.query_row("SELECT COUNT(*) FROM stats", [], |r| r.get(0)).unwrap();
    assert_eq!(left, 2);
    let old: i64 = conn
        .query_row("SELECT COUNT(*) FROM stats WHERE timestamp < datetime('now', '-30 days')", [], |r| r.get(0))
        .unwrap();
    assert_eq!(old, 0);
}

#[test]
fn schema_statements_create_four_tables() {
    let conn = rusqlite::Connection::open_in_memory().unwrap();
    let stmts = init_db();
    assert_eq!(stmts.len(), 4);
    for s in &stmts {
        conn.execute(s, []).unwrap();
    }
    for t in [Table::Stats, Table::System, Table::Disks, Table::Network] {
        assert!(insert_sql(t).starts_with("INSERT INTO"));
    }
    let n: i64 = conn
        .query_row("SELECT COUNT(*) FROM sqlite_master WHERE type = 'table'", [], |r| r.get(0))
        .unwrap();
    assert_eq!(n, 4);
}

#[test]
fn sample_rows_in_write_order() {
    let cpu = cpu_rate(&CpuCounters { total: 0, idle: 0, iowait: 0 }, &CpuCounters { total: 4, idle: 1, iowait: 2 }).unwrap();
    let sample = Sample {
        cpu,
        memory: MemoryInfo { total_kb: 1000, free_kb: 200, available_kb: 600, swap_total_kb: 500, swap_free_kb: 500 },
        disks: vec![
            DiskInfo { devices: "sda".to_string(), read_ops: 1, write_ops: 2, read_time_ms: 3, write_time_ms: 4 },
            DiskInfo { devices: "sdb".to_string(), read_ops: 5, write_ops: 6, read_time_ms: 7, write_time_ms: 8 },
        ],
        networks: vec![NetworkInterface { interface_name: "eth0".to_string(), bytes_received: 9, bytes_transmitted: 10 }],
    };
    let rows = sample_inserts(&sample);
    let tables: Vec<Table> = rows.iter().map(|r| r.table).collect();
    assert_eq!(tables, vec![Table::Stats, Table::Disks, Table::Disks, Table::Network]);
    assert_eq!(rows[0].values.len(), 7);
    assert!(matches!(rows[0].values[0], SqlValue::Percent { part: 3, rest: 1 }));
    assert!(matches!(rows[0].values[1], SqlValue::Percent { part: 2, rest: 4 }));
    assert!(matches!(rows[0].values[2], SqlValue::Integer(800)));
    assert_eq!(text(&rows[1].values[0]), "sda");
    assert_eq!(text(&rows[2].values[0]), "sdb");
    assert!(matches!(rows[2].values[4], SqlValue::Integer(8)));
    assert_eq!(text(&rows[3].values[0]), "eth0");
    assert!(matches!(rows[3].values[2], SqlValue::Integer(10)));

    let conn = rusqlite::Connection::open_in_memory().unwrap();
    conn.execute(CREATE_STATS, []).unwrap();
    let values = vec![
        Value::Real(75.0),
        Value::Real(50.0),
        Value::Integer(800),
        Value::Integer(600),
        Value::Integer(1000),
        Value::Integer(500),
        Value::Integer(500),
    ];
    conn.execute(INSERT_STATS, rusqlite::params_from_iter(values)).unwrap();
    let n: i64 = conn.query_row("SELECT COUNT(*) FROM stats", [], |r| r.get(0)).unwrap();
    assert_eq!(n, 1);
}

#[test]
fn identity_fields_from_sources() {
    let info = build_os_info(OS_RELEASE, VERSION, CPUINFO, "  host-1\n", "boot".to_string());
    assert_eq!(info.os_name, "Debian GNU/Linux 12 (bookworm)");
    assert_eq!(info.kernel_version, "6.1.0-18-amd64");
    assert_eq!(info.cpu_name, "Example CPU @ 2.00GHz");
    assert_eq!(info.cpu_cores, 2);
    assert_eq!(info.hostname, "host-1");
    assert_eq!(info.start_time, "boot");
}

#[test]
fn identity_falls_back_to_unknown() {
    let info = build_os_info("ID=x\n", "Linux\n", "", "", String::new());
    assert_eq!(info.os_name, "Unknown system");
    assert_eq!(info.kernel_version, "Unknown kernel version");
    assert_eq!(info.cpu_name, "Unknown processor");
    assert_eq!(info.cpu_cores, 0);
    assert_eq!(info.hostname, "Unknown host");
    let blank = build_os_info("ID=x\n", "Linux\n", "", " \n\t", String::new());
    assert_eq!(blank.hostname, "Unknown host");
}

#[test]
fn identity_keeps_non_ascii_names() {
    let info = build_os_info("PRETTY_NAME=\"Débian ĞNU\"\n", VERSION, "model name : Prozessor™ X\n", "hôte\n", String::new());
    assert_eq!(info.os_name, "Débian ĞNU");
    assert_eq!(info.cpu_name, "Prozessor™ X");
    assert_eq!(info.hostname, "hôte");
}

#[test]
fn identity_read_twice_is_stable() {
    let a = get_os_info(OS_RELEASE, VERSION, "400.25 7000.50\n", CPUINFO, "host\n", 4000).unwrap();
    let b = get_os_info(OS_RELEASE, VERSION, "500.75 7100.50\n", CPUINFO, "host\n", 4100).unwrap();
    assert_eq!(
        (&a.hostname, &a.os_name, &a.kernel_version, &a.cpu_name, a.cpu_cores, &a.start_time),
        (&b.hostname, &b.os_name, &b.kernel_version, &b.cpu_name, b.cpu_cores, &b.start_time)
    );
    assert_eq!(a.start_time, "1970-01-01T01:00:00+00:00");
}

#[test]
fn boot_time_is_now_less_uptime() {
    let info = get_os_info(OS_RELEASE, VERSION, "3600.99 1.0\n", CPUINFO, "host", 1_431_651_600).unwrap();
    assert_eq!(info.start_time, "2015-05-15T00:00:00+00:00");
    assert_eq!(boot_time(0, 86_400), "1969-12-31T00:00:00+00:00");
}

#[test]
fn uptime_parsing() {
    assert_eq!(parse_uptime_secs("3600.25 7000.50\n"), Ok(3600));
    assert_eq!(parse_uptime_secs("42\n"), Ok(42));
    assert_eq!(parse_uptime_secs("abc 1\n"), Err(SampleError::Parse));
    assert_eq!(parse_uptime_secs(""), Err(SampleError::Parse));
    assert_eq!(get_os_info(OS_RELEASE, VERSION, "", CPUINFO, "h", 0).err(), Some(SampleError::Parse));
}

#[test]
fn identity_record_and_report() {
    let info = build_os_info(OS_RELEASE, VERSION, CPUINFO, "host", "2024-01-01T00:00:00+00:00".to_string());
    let rec = show_and_save_os_info_to_db(&info);
    assert_eq!(rec.row.table, Table::System);
    assert_eq!(text(&rec.row.values[0]), "Debian GNU/Linux 12 (bookworm)");
    assert!(matches!(rec.row.values[4], SqlValue::Integer(2)));
    assert_eq!(text(&rec.row.values[5]), "host");
    assert_eq!(rec.report[0], "Hostname: host");
    assert_eq!(rec.report[4], "Number of CPU cores: 2");
    assert_eq!(rec.report.len(), 6);
}

#[test]
fn exclude_list_is_split_and_trimmed() {
    assert_eq!(parse_exclude_list("lo, docker0 ,eth1"), vec!["lo", "docker0", "eth1"]);
    assert_eq!(parse_exclude_list(""), vec![""]);
}

#[test]
fn disabled_persistence_never_samples() {
    let plan = plan_startup(&settings(false));
    assert!(plan.write_identity);
    let mut collector = plan.collector;
    for e in [TaskEvent::Tick, TaskEvent::Succeeded, TaskEvent::Tick, TaskEvent::Failed] {
        assert_eq!(collector.step(e), TaskAction::Halt);
    }
    let mut pruner = plan.pruner;
    assert_eq!(pruner.step(TaskEvent::Tick), TaskAction::Run);
}

#[test]
fn enabled_loop_runs_and_stops_on_failure() {
    let plan = plan_startup(&settings(true));
    let mut c = plan.collector;
    assert_eq!(c.step(TaskEvent::Tick), TaskAction::Run);
    assert_eq!(c.step(TaskEvent::Succeeded), TaskAction::Wait);
    assert_eq!(c.step(TaskEvent::Tick), TaskAction::Run);
    assert_eq!(c.step(TaskEvent::Failed), TaskAction::Halt);
    assert_eq!(c.step(TaskEvent::Tick), TaskAction::Halt);
}

#[test]
fn tolerant_loop_stops_after_consecutive_failures() {
    let mut t = PeriodicTask::new(true, 2);
    assert_eq!(t.step(TaskEvent::Tick), TaskAction::Run);
    assert_eq!(t.step(TaskEvent::Failed), TaskAction::Wait);
    assert_eq!(t.step(TaskEvent::Tick), TaskAction::Run);
    assert_eq!(t.step(TaskEvent::Succeeded), TaskAction::Wait);
    assert_eq!(t.step(TaskEvent::Tick), TaskAction::Run);
    assert_eq!(t.step(TaskEvent::Failed), TaskAction::Wait);
    assert_eq!(t.step(TaskEvent::Tick), TaskAction::Run);
    assert_eq!(t.step(TaskEvent::Failed), TaskAction::Halt);
}
