use vstd::prelude::*;
use vstd::string::StringSliceAdditionalSpecFns;

use crate::cpu::{cpu_counters_of, cpu_rate, is_valid_interval, parse_cpu_counters, rate_of};
use crate::disk::{disk_rows, disk_views, get_physical_disk_io_stats};
use crate::error::SampleError;
use crate::memory::{memory_info_of, read_memory_info};
use crate::network::{get_network_io_stats, net_table, net_views};
use crate::storage::Sample;
use crate::text::lines;

verus! {

/// The sources of one sample: the CPU counter table read twice, a wait apart, then the
/// memory, device I/O and interface tables.
pub struct Sources<'a> {
    pub cpu_first: &'a str,
    pub cpu_second: &'a str,
    pub meminfo: &'a str,
    pub diskstats: &'a str,
    pub netdev: &'a str,
}

/// The failure that assembling a sample from these sources meets first, if any.
pub open spec fn sample_failure(src: Sources) -> Option<SampleError> {
    let a = cpu_counters_of(src.cpu_first.spec_bytes());
    let b = cpu_counters_of(src.cpu_second.spec_bytes());
    let m = memory_info_of(src.meminfo.spec_bytes());
    if a is None || b is None {
        Some(SampleError::Parse)
    } else if !is_valid_interval(a->0, b->0) {
        Some(SampleError::Delta)
    } else if m is None || m->0.free_kb > m->0.total_kb {
        Some(SampleError::Parse)
    } else {
        None
    }
}

/// Composes one full record from its sources; the first failure is returned as it is
/// and no partial record is made.
pub fn assemble_sample(src: &Sources, exclude_interfaces: &Vec<String>) -> (r: Result<
    Sample,
    SampleError,
>)
    ensures
        match sample_failure(*src) {
            Some(e) => r == Err::<Sample, SampleError>(e),
            None => r is Ok && {
                let s = r->Ok_0;
                &&& s.wf()
                &&& s.cpu == rate_of(
                    cpu_counters_of(src.cpu_first.spec_bytes())->0,
                    cpu_counters_of(src.cpu_second.spec_bytes())->0,
                )
                &&& Some(s.memory) == memory_info_of(src.meminfo.spec_bytes())
                &&& disk_views(s.disks@) == disk_rows(lines(src.diskstats.spec_bytes()))
                &&& net_views(s.networks@) == net_table(
                    exclude_interfaces@,
                    src.netdev.spec_bytes(),
                )
            },
        },
{
    let first = match parse_cpu_counters(src.cpu_first) {
        Ok(c) => c,
        Err(e) => return Err(e),
    };
    let second = match parse_cpu_counters(src.cpu_second) {
        Ok(c) => c,
        Err(e) => return Err(e),
    };
    let cpu = match cpu_rate(&first, &second) {
        Ok(c) => c,
        Err(e) => return Err(e),
    };
    let memory = match read_memory_info(src.meminfo) {
        Ok(m) => m,
        Err(e) => return Err(e),
    };
    if memory.free_kb > memory.total_kb {
        return Err(SampleError::Parse);
    }
    let disks = get_physical_disk_io_stats(src.diskstats);
    let networks = get_network_io_stats(src.netdev, exclude_interfaces);
    Ok(Sample { cpu, memory, disks, networks })
}

} // verus!
