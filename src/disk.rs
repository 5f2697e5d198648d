use vstd::prelude::*;
use vstd::string::StringSliceAdditionalSpecFns;

use crate::text::{
    decimal_value, is_u64_text, lines, parse_u64, split_lines, split_words, string_from_bytes,
    text_of_bytes, views, words,
};

verus! {

/// Whole SCSI/SATA disks: `sd` and one lowercase letter.
pub const SD_PATTERN: &'static str = "^sd[a-z]$";

/// Whole IDE disks: `hd` and one lowercase letter.
pub const HD_PATTERN: &'static str = "^hd[a-z]$";

/// Whole NVMe namespaces: `nvme`, a controller digit, `n`, and namespace 0 or 1.
pub const NVME_PATTERN: &'static str = "^nvme[0-9]n[0-1]$";

pub open spec fn is_lower(c: char) -> bool {
    'a' <= c <= 'z'
}

pub open spec fn is_sd_name(n: Seq<char>) -> bool {
    n.len() == 3 && n[0] == 's' && n[1] == 'd' && is_lower(n[2])
}

pub open spec fn is_hd_name(n: Seq<char>) -> bool {
    n.len() == 3 && n[0] == 'h' && n[1] == 'd' && is_lower(n[2])
}

pub open spec fn is_nvme_name(n: Seq<char>) -> bool {
    n.len() == 7 && n[0] == 'n' && n[1] == 'v' && n[2] == 'm' && n[3] == 'e' && '0' <= n[4]
        <= '9' && n[5] == 'n' && '0' <= n[6] <= '1'
}

/// A physical block device: a whole disk, not a partition or a virtual device.
pub open spec fn is_physical_disk_name(n: Seq<char>) -> bool {
    is_sd_name(n) || is_hd_name(n) || is_nvme_name(n)
}

/// Relies on `regex::Regex::new` and `Regex::is_match`: each of the three patterns
/// compiles, and, anchored by `^` and `$` at both ends of the text, matches exactly the
/// names that its classes describe.
#[verifier::external_body]
fn regex_is_match(pattern: &str, text: &str) -> (r: bool)
    requires
        pattern@ == SD_PATTERN@ || pattern@ == HD_PATTERN@ || pattern@ == NVME_PATTERN@,
    ensures
        pattern@ == SD_PATTERN@ ==> r == is_sd_name(text@),
        pattern@ == HD_PATTERN@ ==> r == is_hd_name(text@),
        pattern@ == NVME_PATTERN@ ==> r == is_nvme_name(text@),
{
    regex::Regex::new(pattern).unwrap().is_match(text)
}

/// Whether a device name denotes a physical disk.
pub fn is_physical_disk(name: &str) -> (r: bool)
    ensures
        r == is_physical_disk_name(name@),
{
    regex_is_match(SD_PATTERN, name) || regex_is_match(HD_PATTERN, name) || regex_is_match(
        NVME_PATTERN,
        name,
    )
}

/// The I/O counters of one physical disk.
#[derive(Debug, Clone, PartialEq, Eq)]
pub struct DiskInfo {
    pub devices: String,
    pub read_ops: u64,
    pub write_ops: u64,
    pub read_time_ms: u64,
    pub write_time_ms: u64,
}

impl View for DiskInfo {
    type V = (Seq<char>, u64, u64, u64, u64);

    open spec fn view(&self) -> Self::V {
        (self.devices@, self.read_ops, self.write_ops, self.read_time_ms, self.write_time_ms)
    }
}

/// One row of the device I/O table: the name in the third column; reads, writes, read
/// time and write time in the sixth, tenth, thirteenth and fifteenth. Rows of other
/// devices, short rows and rows with a non-numeric counter give nothing.
pub open spec fn disk_row(line: Seq<u8>) -> Option<(Seq<char>, u64, u64, u64, u64)> {
    let w = words(line);
    if w.len() < 15 || !is_physical_disk_name(text_of_bytes(w[2])) || !is_u64_text(w[5])
        || !is_u64_text(w[9]) || !is_u64_text(w[12]) || !is_u64_text(w[14]) {
        None
    } else {
        Some(
            (
                text_of_bytes(w[2]),
                decimal_value(w[5]) as u64,
                decimal_value(w[9]) as u64,
                decimal_value(w[12]) as u64,
                decimal_value(w[14]) as u64,
            ),
        )
    }
}

pub open spec fn disk_rows(ls: Seq<Seq<u8>>) -> Seq<(Seq<char>, u64, u64, u64, u64)>
    decreases ls.len(),
{
    if ls.len() == 0 {
        seq![]
    } else {
        disk_rows(ls.drop_last()) + match disk_row(ls.last()) {
            Some(d) => seq![d],
            None => seq![],
        }
    }
}

pub open spec fn disk_views(v: Seq<DiskInfo>) -> Seq<(Seq<char>, u64, u64, u64, u64)> {
    v.map_values(|d: DiskInfo| d@)
}

fn parse_disk_row(line: &[u8]) -> (r: Option<DiskInfo>)
    ensures
        match disk_row(line@) {
            Some(d) => r is Some && r->0@ == d,
            None => r is None,
        },
{
    let w = split_words(line);
    if w.len() < 15 {
        return None;
    }
    assert(views(w@)[2] == w@[2]@ && views(w@)[5] == w@[5]@ && views(w@)[9] == w@[9]@);
    assert(views(w@)[12] == w@[12]@ && views(w@)[14] == w@[14]@);
    let name = string_from_bytes(w[2].as_slice());
    if !is_physical_disk(name.as_str()) {
        return None;
    }
    let read_ops = match parse_u64(w[5].as_slice()) {
        Some(v) => v,
        None => return None,
    };
    let write_ops = match parse_u64(w[9].as_slice()) {
        Some(v) => v,
        None => return None,
    };
    let read_time_ms = match parse_u64(w[12].as_slice()) {
        Some(v) => v,
        None => return None,
    };
    let write_time_ms = match parse_u64(w[14].as_slice()) {
        Some(v) => v,
        None => return None,
    };
    Some(DiskInfo { devices: name, read_ops, write_ops, read_time_ms, write_time_ms })
}

/// The counters of each physical disk in the device I/O table, in table order.
pub fn get_physical_disk_io_stats(content: &str) -> (r: Vec<DiskInfo>)
    ensures
        disk_views(r@) == disk_rows(lines(content.spec_bytes())),
{
    let ls = split_lines(content.as_bytes());
    let ghost all = views(ls@);
    let mut r: Vec<DiskInfo> = Vec::new();
    let mut k: usize = 0;
    assert(all.subrange(0, 0) =~= Seq::<Seq<u8>>::empty());
    assert(disk_views(r@) =~= Seq::empty());
    while k < ls.len()
        invariant
            k <= ls@.len(),
            all == views(ls@),
            all == lines(content.spec_bytes()),
            disk_views(r@) == disk_rows(all.subrange(0, k as int)),
        decreases ls@.len() - k,
    {
        assert(all.subrange(0, k + 1).drop_last() =~= all.subrange(0, k as int));
        assert(all.subrange(0, k + 1).last() == ls@[k as int]@);
        match parse_disk_row(ls[k].as_slice()) {
            Some(d) => {
                assert(disk_views(r@.push(d)) =~= disk_views(r@).push(d@));
                r.push(d);
                assert(disk_views(r@) =~= disk_rows(all.subrange(0, k + 1)));
            },
            None => {
                assert(disk_views(r@) =~= disk_rows(all.subrange(0, k + 1)));
            },
        }
        k = k + 1;
    }
    assert(all.subrange(0, k as int) =~= all);
    r
}

} // verus!
