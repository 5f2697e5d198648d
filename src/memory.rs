use vstd::prelude::*;
use vstd::string::StringSliceAdditionalSpecFns;

use crate::error::SampleError;
use crate::text::{
    bytes_eq, decimal_value, is_u64_text, lines, parse_u64, split_lines, split_words, views,
    words,
};

verus! {

/// Memory and swap figures, in kB.
#[derive(Debug, Clone, Copy, PartialEq, Eq, Structural)]
pub struct MemoryInfo {
    pub total_kb: u64,
    pub free_kb: u64,
    pub available_kb: u64,
    pub swap_total_kb: u64,
    pub swap_free_kb: u64,
}

impl MemoryInfo {
    /// Memory in use: total less free.
    pub fn used_kb(&self) -> (r: u64)
        requires
            self.free_kb <= self.total_kb,
        ensures
            r == self.total_kb - self.free_kb,
    {
        self.total_kb - self.free_kb
    }
}

/// The figures seen so far while scanning the memory table.
#[derive(Debug, Clone, Copy, PartialEq, Eq, Structural)]
pub struct MemFields {
    pub total: Option<u64>,
    pub free: Option<u64>,
    pub available: Option<u64>,
    pub swap_total: Option<u64>,
    pub swap_free: Option<u64>,
}

pub open spec fn no_fields() -> MemFields {
    MemFields { total: None, free: None, available: None, swap_total: None, swap_free: None }
}

/// Which figure a line's key names: 0 to 4, or -1 for none.
pub open spec fn mem_key(word: Seq<u8>) -> int {
    if word == "MemTotal:".spec_bytes() {
        0
    } else if word == "MemFree:".spec_bytes() {
        1
    } else if word == "MemAvailable:".spec_bytes() {
        2
    } else if word == "SwapTotal:".spec_bytes() {
        3
    } else if word == "SwapFree:".spec_bytes() {
        4
    } else {
        -1
    }
}

pub open spec fn set_field(f: MemFields, key: int, v: u64) -> MemFields {
    if key == 0 {
        MemFields { total: Some(v), ..f }
    } else if key == 1 {
        MemFields { free: Some(v), ..f }
    } else if key == 2 {
        MemFields { available: Some(v), ..f }
    } else if key == 3 {
        MemFields { swap_total: Some(v), ..f }
    } else {
        MemFields { swap_free: Some(v), ..f }
    }
}

/// One line of the table: a keyed line with a value records it (a later line wins), a
/// keyed line whose value is not a number fails the scan, other lines are ignored.
pub open spec fn mem_line(acc: Option<MemFields>, line: Seq<u8>) -> Option<MemFields> {
    let w = words(line);
    match acc {
        None => None,
        Some(f) => if w.len() < 2 || mem_key(w[0]) < 0 {
            Some(f)
        } else if is_u64_text(w[1]) {
            Some(set_field(f, mem_key(w[0]), decimal_value(w[1]) as u64))
        } else {
            None
        },
    }
}

pub open spec fn mem_scan(ls: Seq<Seq<u8>>) -> Option<MemFields>
    decreases ls.len(),
{
    if ls.len() == 0 {
        Some(no_fields())
    } else {
        mem_line(mem_scan(ls.drop_last()), ls.last())
    }
}

/// The memory table's figures, when each of the five keys has a numeric value.
pub open spec fn memory_info_of(content: Seq<u8>) -> Option<MemoryInfo> {
    match mem_scan(lines(content)) {
        Some(f) => if f.total is Some && f.free is Some && f.available is Some
            && f.swap_total is Some && f.swap_free is Some {
            Some(
                MemoryInfo {
                    total_kb: f.total->0,
                    free_kb: f.free->0,
                    available_kb: f.available->0,
                    swap_total_kb: f.swap_total->0,
                    swap_free_kb: f.swap_free->0,
                },
            )
        } else {
            None
        },
        None => None,
    }
}

proof fn lemma_scan_failure_sticks(ls: Seq<Seq<u8>>, k: int)
    requires
        0 <= k <= ls.len(),
        mem_scan(ls.subrange(0, k)) is None,
    ensures
        mem_scan(ls) is None,
    decreases ls.len() - k,
{
    if k < ls.len() {
        assert(ls.subrange(0, k + 1).drop_last() =~= ls.subrange(0, k));
        lemma_scan_failure_sticks(ls, k + 1);
    } else {
        assert(ls.subrange(0, k) =~= ls);
    }
}

fn key_of(word: &[u8]) -> (r: i8)
    ensures
        r == mem_key(word@),
{
    if bytes_eq(word, "MemTotal:".as_bytes()) {
        0
    } else if bytes_eq(word, "MemFree:".as_bytes()) {
        1
    } else if bytes_eq(word, "MemAvailable:".as_bytes()) {
        2
    } else if bytes_eq(word, "SwapTotal:".as_bytes()) {
        3
    } else if bytes_eq(word, "SwapFree:".as_bytes()) {
        4
    } else {
        -1
    }
}

/// Parses the memory table; fails with `Parse` when a keyed line's value is not a
/// number or one of the five keys is missing.
pub fn read_memory_info(content: &str) -> (r: Result<MemoryInfo, SampleError>)
    ensures
        r == (match memory_info_of(content.spec_bytes()) {
            Some(m) => Ok::<MemoryInfo, SampleError>(m),
            None => Err(SampleError::Parse),
        }),
{
    let ls = split_lines(content.as_bytes());
    let ghost all = views(ls@);
    let mut f = MemFields {
        total: None,
        free: None,
        available: None,
        swap_total: None,
        swap_free: None,
    };
    let mut k: usize = 0;
    assert(all.subrange(0, 0).len() == 0);
    while k < ls.len()
        invariant
            k <= ls@.len(),
            all == views(ls@),
            all == lines(content.spec_bytes()),
            mem_scan(all.subrange(0, k as int)) == Some(f),
        decreases ls@.len() - k,
    {
        let ghost before = f;
        assert(all.subrange(0, k + 1).drop_last() =~= all.subrange(0, k as int));
        assert(all.subrange(0, k + 1).last() == ls@[k as int]@);
        let w = split_words(ls[k].as_slice());
        if w.len() >= 2 {
            assert(views(w@)[0] == w@[0]@ && views(w@)[1] == w@[1]@);
            let key = key_of(w[0].as_slice());
            if key >= 0 {
                match parse_u64(w[1].as_slice()) {
                    Some(v) => {
                        if key == 0 {
                            f.total = Some(v);
                        } else if key == 1 {
                            f.free = Some(v);
                        } else if key == 2 {
                            f.available = Some(v);
                        } else if key == 3 {
                            f.swap_total = Some(v);
                        } else {
                            f.swap_free = Some(v);
                        }
                        assert(f == set_field(before, key as int, v));
                    },
                    None => {
                        proof {
                            assert(words(all.subrange(0, k + 1).last()) == views(w@));
                            assert(mem_scan(all.subrange(0, k + 1)) is None);
                            lemma_scan_failure_sticks(all, k + 1);
                        }
                        return Err(SampleError::Parse);
                    },
                }
            }
        }
        k = k + 1;
    }
    assert(all.subrange(0, k as int) =~= all);
    match (f.total, f.free, f.available, f.swap_total, f.swap_free) {
        (Some(t), Some(fr), Some(a), Some(st), Some(sf)) => Ok(
            MemoryInfo {
                total_kb: t,
                free_kb: fr,
                available_kb: a,
                swap_total_kb: st,
                swap_free_kb: sf,
            },
        ),
        _ => Err(SampleError::Parse),
    }
}

} // verus!
