use vstd::prelude::*;
use vstd::string::StringSliceAdditionalSpecFns;

use crate::cpu::CpuRate;
use crate::disk::DiskInfo;
use crate::memory::MemoryInfo;
use crate::network::NetworkInterface;
use crate::osinfo::OsInfo;
use crate::text::{decimal_text, push_all, push_decimal, string_from_bytes, text_of_bytes};

verus! {

/// A value bound to one placeholder of an insert.
#[derive(Debug, Clone)]
pub enum SqlValue {
    Integer(u64),
    Text(String),
    /// A percentage stored as a real number: `100 * part / (part + rest)`.
    Percent { part: u64, rest: u64 },
}

/// The tables that samples are written to.
#[derive(Debug, Clone, Copy, PartialEq, Eq, Structural)]
pub enum Table {
    Stats,
    System,
    Disks,
    Network,
}

/// One row to insert.
#[derive(Debug, Clone)]
pub struct Insert {
    pub table: Table,
    pub values: Vec<SqlValue>,
}

pub const CREATE_STATS: &'static str = "CREATE TABLE IF NOT EXISTS stats (id INTEGER PRIMARY KEY, timestamp DATETIME DEFAULT CURRENT_TIMESTAMP, cpu_usage REAL, cpu_io_wait REAL, used_memory INTEGER, avail_memory INTEGER, total_memory INTEGER, swap_free_memory INTEGER, swap_total_memory INTEGER)";

pub const CREATE_SYSTEM: &'static str = "CREATE TABLE IF NOT EXISTS system (id INTEGER PRIMARY KEY, timestamp DATETIME DEFAULT CURRENT_TIMESTAMP, hostname TEXT, os_name TEXT, kernel_version TEXT, boot_time TEXT, cpu_name TEXT, cpu_cores NUMERIC)";

pub const CREATE_DISKS: &'static str = "CREATE TABLE IF NOT EXISTS disks (id INTEGER PRIMARY KEY, timestamp DATETIME DEFAULT CURRENT_TIMESTAMP, disk_name TEXT, read_count NUMERIC, write_count NUMERIC, read_io_time NUMERIC, write_io_time NUMERIC)";

pub const CREATE_NETWORK: &'static str = "CREATE TABLE IF NOT EXISTS network (id INTEGER PRIMARY KEY, timestamp DATETIME DEFAULT CURRENT_TIMESTAMP, interface_name TEXT, bytes_received NUMERIC, bytes_transmitted NUMERIC)";

pub const INSERT_STATS: &'static str = "INSERT INTO stats (cpu_usage, cpu_io_wait, used_memory, avail_memory, total_memory, swap_free_memory, swap_total_memory) VALUES (?1, ?2, ?3, ?4, ?5, ?6, ?7)";

pub const INSERT_SYSTEM: &'static str = "INSERT INTO system (os_name, kernel_version, boot_time, cpu_name, cpu_cores, hostname) VALUES (?1, ?2, ?3, ?4, ?5, ?6)";

pub const INSERT_DISK: &'static str = "INSERT INTO disks (disk_name, read_count, write_count, read_io_time, write_io_time) VALUES (?1, ?2, ?3, ?4, ?5)";

pub const INSERT_NETWORK: &'static str = "INSERT INTO network (interface_name, bytes_received, bytes_transmitted) VALUES (?1, ?2, ?3)";

/// Deletes the stats rows older than the modifier `?1` (`-<days> days`) from now.
pub const PRUNE_STATS: &'static str = "DELETE FROM stats WHERE timestamp < datetime('now', ?1)";

/// The statements that create the four tables, stats first.
pub fn init_db() -> (r: Vec<&'static str>)
    ensures
        r@ == seq![CREATE_STATS, CREATE_SYSTEM, CREATE_DISKS, CREATE_NETWORK],
{
    let mut r: Vec<&'static str> = Vec::new();
    r.push(CREATE_STATS);
    r.push(CREATE_SYSTEM);
    r.push(CREATE_DISKS);
    r.push(CREATE_NETWORK);
    assert(r@ =~= seq![CREATE_STATS, CREATE_SYSTEM, CREATE_DISKS, CREATE_NETWORK]);
    r
}

/// The statement that inserts a row of `table`.
pub fn insert_sql(table: Table) -> (r: &'static str)
    ensures
        r == (match table {
            Table::Stats => INSERT_STATS,
            Table::System => INSERT_SYSTEM,
            Table::Disks => INSERT_DISK,
            Table::Network => INSERT_NETWORK,
        }),
{
    match table {
        Table::Stats => INSERT_STATS,
        Table::System => INSERT_SYSTEM,
        Table::Disks => INSERT_DISK,
        Table::Network => INSERT_NETWORK,
    }
}

/// One full point-in-time record.
#[derive(Debug, Clone)]
pub struct Sample {
    pub cpu: CpuRate,
    pub memory: MemoryInfo,
    pub disks: Vec<DiskInfo>,
    pub networks: Vec<NetworkInterface>,
}

impl Sample {
    pub open spec fn wf(&self) -> bool {
        self.cpu.wf() && self.memory.free_kb <= self.memory.total_kb
    }
}

/// The values of the stats row: busy and I/O-wait percentages, then used, available and
/// total memory, free and total swap.
pub open spec fn stats_values(cpu: CpuRate, m: MemoryInfo) -> Seq<SqlValue> {
    seq![
        SqlValue::Percent { part: cpu.busy_ticks, rest: (cpu.total_ticks - cpu.busy_ticks) as u64 },
        SqlValue::Percent { part: cpu.iowait_ticks, rest: cpu.total_ticks },
        SqlValue::Integer((m.total_kb - m.free_kb) as u64),
        SqlValue::Integer(m.available_kb),
        SqlValue::Integer(m.total_kb),
        SqlValue::Integer(m.swap_free_kb),
        SqlValue::Integer(m.swap_total_kb),
    ]
}

pub open spec fn disk_values(d: DiskInfo) -> Seq<SqlValue> {
    seq![
        SqlValue::Text(d.devices),
        SqlValue::Integer(d.read_ops),
        SqlValue::Integer(d.write_ops),
        SqlValue::Integer(d.read_time_ms),
        SqlValue::Integer(d.write_time_ms),
    ]
}

pub open spec fn network_values(n: NetworkInterface) -> Seq<SqlValue> {
    seq![
        SqlValue::Text(n.interface_name),
        SqlValue::Integer(n.bytes_received),
        SqlValue::Integer(n.bytes_transmitted),
    ]
}

pub open spec fn system_values(info: OsInfo) -> Seq<SqlValue> {
    seq![
        SqlValue::Text(info.os_name),
        SqlValue::Text(info.kernel_version),
        SqlValue::Text(info.start_time),
        SqlValue::Text(info.cpu_name),
        SqlValue::Integer(info.cpu_cores as u64),
        SqlValue::Text(info.hostname),
    ]
}

/// Whether `row` inserts `values` into `table`.
pub open spec fn is_row(row: Insert, table: Table, values: Seq<SqlValue>) -> bool {
    row.table == table && row.values@ == values
}

fn disk_insert(d: &DiskInfo) -> (r: Insert)
    ensures
        is_row(r, Table::Disks, disk_values(*d)),
{
    let mut values: Vec<SqlValue> = Vec::new();
    values.push(SqlValue::Text(d.devices.clone()));
    values.push(SqlValue::Integer(d.read_ops));
    values.push(SqlValue::Integer(d.write_ops));
    values.push(SqlValue::Integer(d.read_time_ms));
    values.push(SqlValue::Integer(d.write_time_ms));
    assert(values@ =~= disk_values(*d));
    Insert { table: Table::Disks, values }
}

fn network_insert(n: &NetworkInterface) -> (r: Insert)
    ensures
        is_row(r, Table::Network, network_values(*n)),
{
    let mut values: Vec<SqlValue> = Vec::new();
    values.push(SqlValue::Text(n.interface_name.clone()));
    values.push(SqlValue::Integer(n.bytes_received));
    values.push(SqlValue::Integer(n.bytes_transmitted));
    assert(values@ =~= network_values(*n));
    Insert { table: Table::Network, values }
}

/// The rows that one sample is written as, in order: one stats row, then one row per
/// disk, then one row per interface, each list in its own order.
pub fn sample_inserts(sample: &Sample) -> (r: Vec<Insert>)
    requires
        sample.wf(),
    ensures
        r@.len() == 1 + sample.disks@.len() + sample.networks@.len(),
        is_row(r@[0], Table::Stats, stats_values(sample.cpu, sample.memory)),
        forall|i: int|
            0 <= i < sample.disks@.len() ==> is_row(
                #[trigger] r@[1 + i],
                Table::Disks,
                disk_values(sample.disks@[i]),
            ),
        forall|j: int|
            0 <= j < sample.networks@.len() ==> is_row(
                #[trigger] r@[1 + sample.disks@.len() + j],
                Table::Network,
                network_values(sample.networks@[j]),
            ),
{
    let cpu = sample.cpu;
    let m = sample.memory;
    let mut values: Vec<SqlValue> = Vec::new();
    values.push(SqlValue::Percent { part: cpu.busy_ticks, rest: cpu.total_ticks - cpu.busy_ticks });
    values.push(SqlValue::Percent { part: cpu.iowait_ticks, rest: cpu.total_ticks });
    values.push(SqlValue::Integer(m.used_kb()));
    values.push(SqlValue::Integer(m.available_kb));
    values.push(SqlValue::Integer(m.total_kb));
    values.push(SqlValue::Integer(m.swap_free_kb));
    values.push(SqlValue::Integer(m.swap_total_kb));
    assert(values@ =~= stats_values(cpu, m));
    let mut r: Vec<Insert> = Vec::new();
    r.push(Insert { table: Table::Stats, values });
    let mut i: usize = 0;
    while i < sample.disks.len()
        invariant
            i <= sample.disks@.len(),
            r@.len() == 1 + i,
            is_row(r@[0], Table::Stats, stats_values(sample.cpu, sample.memory)),
            forall|k: int|
                0 <= k < i ==> is_row(#[trigger] r@[1 + k], Table::Disks, disk_values(sample.disks@[k])),
        decreases sample.disks@.len() - i,
    {
        let row = disk_insert(&sample.disks[i]);
        r.push(row);
        i = i + 1;
    }
    let d = sample.disks.len();
    let mut j: usize = 0;
    while j < sample.networks.len()
        invariant
            d == sample.disks@.len(),
            j <= sample.networks@.len(),
            r@.len() == 1 + d + j,
            is_row(r@[0], Table::Stats, stats_values(sample.cpu, sample.memory)),
            forall|k: int|
                0 <= k < d ==> is_row(#[trigger] r@[1 + k], Table::Disks, disk_values(sample.disks@[k])),
            forall|k: int|
                0 <= k < j ==> is_row(
                    #[trigger] r@[1 + d + k],
                    Table::Network,
                    network_values(sample.networks@[k]),
                ),
        decreases sample.networks@.len() - j,
    {
        let row = network_insert(&sample.networks[j]);
        r.push(row);
        j = j + 1;
    }
    r
}

/// The row that records the host's identity.
pub fn os_info_insert(info: &OsInfo) -> (r: Insert)
    ensures
        is_row(r, Table::System, system_values(*info)),
{
    let mut values: Vec<SqlValue> = Vec::new();
    values.push(SqlValue::Text(info.os_name.clone()));
    values.push(SqlValue::Text(info.kernel_version.clone()));
    values.push(SqlValue::Text(info.start_time.clone()));
    values.push(SqlValue::Text(info.cpu_name.clone()));
    values.push(SqlValue::Integer(info.cpu_cores as u64));
    values.push(SqlValue::Text(info.hostname.clone()));
    assert(values@ =~= system_values(*info));
    Insert { table: Table::System, values }
}

/// The date modifier that selects rows older than `days` days: `-<days> days`.
pub open spec fn retention_modifier_text(days: u64) -> Seq<u8> {
    seq![45u8] + decimal_text(days as nat) + " days".spec_bytes()
}

/// The parameter of `PRUNE_STATS` for a retention of `days` days.
pub fn retention_modifier(days: u64) -> (r: String)
    ensures
        r@ == text_of_bytes(retention_modifier_text(days)),
{
    let mut out: Vec<u8> = Vec::new();
    out.push(45u8);
    push_decimal(&mut out, days);
    push_all(&mut out, " days".as_bytes());
    assert(out@ =~= retention_modifier_text(days));
    string_from_bytes(out.as_slice())
}

} // verus!
