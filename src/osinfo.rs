use vstd::prelude::*;
use vstd::string::StringSliceAdditionalSpecFns;
use vstd::utf8::encode_utf8;

use crate::error::SampleError;
use crate::storage::{is_row, os_info_insert, system_values, Insert, Table};
use crate::text::{
    decimal_text, push_all, push_decimal, after_first, all_digits, byte_pos, copy_range, decimal_value, find_byte, has_prefix,
    is_all_digits, is_u64_text, lines, parse_u64, split_after, split_lines, split_words,
    starts_with, string_from_bytes, text_of_bytes, trim_by, trim_quotes, trim_spaces, views,
    words,
};

verus! {

/// The largest uptime taken, in seconds (about 31,700 years): the boot time stays
/// within the calendar's range.
pub const MAX_UPTIME_SECS: u64 = 1_000_000_000_000;

/// The largest distance from 1970 of a clock reading taken, in seconds (about 220,000
/// years).
pub const MAX_CLOCK_SECS: i64 = 7_000_000_000_000;

/// The largest distance from 1970 of a moment that is written as text, in seconds: well
/// within the calendar's range of about 262,000 years either way.
pub const MAX_TIMESTAMP_SECS: i64 = 8_000_000_000_000;

/// The host's static identity.
#[derive(Debug, Clone, PartialEq, Eq)]
pub struct OsInfo {
    pub hostname: String,
    pub os_name: String,
    pub kernel_version: String,
    pub start_time: String,
    pub cpu_name: String,
    pub cpu_cores: usize,
}

/// The index of the first line at or after `i` that begins with `p`, or -1.
pub open spec fn first_prefixed(ls: Seq<Seq<u8>>, p: Seq<u8>, i: int) -> int
    decreases ls.len() - i,
{
    if i < 0 || i >= ls.len() {
        -1
    } else if starts_with(ls[i], p) {
        i
    } else {
        first_prefixed(ls, p, i + 1)
    }
}

/// The number of lines among the first `n` that begin with `p`.
pub open spec fn count_prefixed(ls: Seq<Seq<u8>>, p: Seq<u8>, n: int) -> nat
    decreases n,
{
    if n <= 0 {
        0
    } else {
        count_prefixed(ls, p, n - 1) + if starts_with(ls[n - 1], p) {
            1nat
        } else {
            0nat
        }
    }
}

/// The value of the first `key` line after `sep`, trimmed by `quote`; `fallback` when
/// there is no such line or it holds no `sep`.
pub open spec fn keyed_value(
    content: Seq<u8>,
    key: Seq<u8>,
    sep: u8,
    quote: bool,
    fallback: Seq<u8>,
) -> Seq<u8> {
    let ls = lines(content);
    let i = first_prefixed(ls, key, 0);
    if i < 0 {
        fallback
    } else {
        match after_first(ls[i], sep) {
            Some(v) => if quote {
                trim_quotes(v)
            } else {
                trim_spaces(v)
            },
            None => fallback,
        }
    }
}

/// The distribution's name: the `PRETTY_NAME` line of the release file, unquoted.
pub open spec fn os_name_of(os_release: Seq<u8>) -> Seq<u8> {
    keyed_value(os_release, "PRETTY_NAME".spec_bytes(), 61, true, "Unknown system".spec_bytes())
}

/// The processor's name: the `model name` line of cpuinfo.
pub open spec fn cpu_name_of(cpuinfo: Seq<u8>) -> Seq<u8> {
    keyed_value(cpuinfo, "model name".spec_bytes(), 58, false, "Unknown processor".spec_bytes())
}

/// The kernel release: the third word of the version file.
pub open spec fn kernel_version_of(version: Seq<u8>) -> Seq<u8> {
    let w = words(version);
    if w.len() >= 3 {
        w[2]
    } else {
        "Unknown kernel version".spec_bytes()
    }
}

/// The number of cores: the `processor` lines of cpuinfo.
pub open spec fn cpu_cores_of(cpuinfo: Seq<u8>) -> nat {
    count_prefixed(lines(cpuinfo), "processor".spec_bytes(), lines(cpuinfo).len() as int)
}

/// Whole seconds of uptime: the first word of the uptime file, digits with an optional
/// fraction, at most `MAX_UPTIME_SECS`.
pub open spec fn uptime_secs_of(uptime: Seq<u8>) -> Option<u64> {
    let w = words(uptime);
    if w.len() == 0 {
        None
    } else {
        let t = w[0];
        let p = byte_pos(t, 46, 0);
        let whole = if p < 0 {
            t
        } else {
            t.subrange(0, p)
        };
        let frac = if p < 0 {
            seq![]
        } else {
            t.subrange(p + 1, t.len() as int)
        };
        if is_u64_text(whole) && all_digits(frac) && decimal_value(whole) <= MAX_UPTIME_SECS {
            Some(decimal_value(whole) as u64)
        } else {
            None
        }
    }
}

/// The host name: the trimmed hostname file, or `Unknown host` when that is blank.
pub open spec fn hostname_of(hostname: Seq<u8>) -> Seq<u8> {
    if trim_spaces(hostname).len() == 0 {
        "Unknown host".spec_bytes()
    } else {
        trim_spaces(hostname)
    }
}

/// The RFC 3339 text of the moment `secs` seconds after 1970-01-01T00:00:00 UTC.
pub uninterp spec fn rfc3339_of(secs: int) -> Seq<char>;

/// Whether `info` holds what the sources give, all but the boot time.
pub open spec fn describes(
    info: OsInfo,
    os_release: Seq<u8>,
    version: Seq<u8>,
    cpuinfo: Seq<u8>,
    hostname: Seq<u8>,
) -> bool {
    &&& info.hostname@ == text_of_bytes(hostname_of(hostname))
    &&& info.os_name@ == text_of_bytes(os_name_of(os_release))
    &&& info.kernel_version@ == text_of_bytes(kernel_version_of(version))
    &&& info.cpu_name@ == text_of_bytes(cpu_name_of(cpuinfo))
    &&& info.cpu_cores == cpu_cores_of(cpuinfo)
}

fn find_prefixed(ls: &Vec<Vec<u8>>, p: &[u8]) -> (r: Option<usize>)
    ensures
        match r {
            Some(i) => i == first_prefixed(views(ls@), p@, 0) && i < ls@.len(),
            None => first_prefixed(views(ls@), p@, 0) == -1,
        },
{
    let ghost all = views(ls@);
    let mut i: usize = 0;
    while i < ls.len()
        invariant
            i <= ls@.len(),
            all == views(ls@),
            first_prefixed(all, p@, i as int) == first_prefixed(all, p@, 0),
        decreases ls@.len() - i,
    {
        assert(all[i as int] == ls@[i as int]@);
        if has_prefix(ls[i].as_slice(), p) {
            return Some(i);
        }
        i = i + 1;
    }
    None
}

fn keyed_value_exec(content: &str, key: &str, sep: u8, quote: bool, fallback: &str) -> (r: String)
    ensures
        r@ == text_of_bytes(
            keyed_value(content.spec_bytes(), key.spec_bytes(), sep, quote, fallback.spec_bytes()),
        ),
{
    let ls = split_lines(content.as_bytes());
    match find_prefixed(&ls, key.as_bytes()) {
        Some(i) => {
            assert(views(ls@)[i as int] == ls@[i as int]@);
            match split_after(ls[i].as_slice(), sep) {
                Some(v) => string_from_bytes(trim_by(v.as_slice(), quote).as_slice()),
                None => string_from_bytes(fallback.as_bytes()),
            }
        },
        None => string_from_bytes(fallback.as_bytes()),
    }
}

fn count_cores(cpuinfo: &str) -> (r: usize)
    ensures
        r == cpu_cores_of(cpuinfo.spec_bytes()),
{
    let ls = split_lines(cpuinfo.as_bytes());
    let ghost all = views(ls@);
    let mut n: usize = 0;
    let mut i: usize = 0;
    while i < ls.len()
        invariant
            i <= ls@.len(),
            all == views(ls@),
            all == lines(cpuinfo.spec_bytes()),
            n == count_prefixed(all, "processor".spec_bytes(), i as int),
            n <= i,
        decreases ls@.len() - i,
    {
        assert(all[i as int] == ls@[i as int]@);
        if has_prefix(ls[i].as_slice(), "processor".as_bytes()) {
            n = n + 1;
        }
        i = i + 1;
    }
    n
}

/// Reads whole seconds from the uptime file; fails with `Parse` when its first word is
/// not a number of seconds.
pub fn parse_uptime_secs(uptime: &str) -> (r: Result<u64, SampleError>)
    ensures
        r == (match uptime_secs_of(uptime.spec_bytes()) {
            Some(v) => Ok::<u64, SampleError>(v),
            None => Err(SampleError::Parse),
        }),
{
    let w = split_words(uptime.as_bytes());
    if w.len() == 0 {
        return Err(SampleError::Parse);
    }
    assert(views(w@)[0] == w@[0]@);
    let t = w[0].as_slice();
    let (whole, frac) = match find_byte(t, 46) {
        Some(p) => (copy_range(t, 0, p), copy_range(t, p + 1, t.len())),
        None => (copy_range(t, 0, t.len()), Vec::new()),
    };
    assert(t@.subrange(0, t@.len() as int) =~= t@);
    assert(frac@ =~= seq![] || byte_pos(t@, 46, 0) >= 0);
    if !is_all_digits(frac.as_slice()) {
        return Err(SampleError::Parse);
    }
    match parse_u64(whole.as_slice()) {
        Some(v) => if v <= MAX_UPTIME_SECS {
            Ok(v)
        } else {
            Err(SampleError::Parse)
        },
        None => Err(SampleError::Parse),
    }
}

/// The identity that the sources give, with `start_time` as its boot time.
pub fn build_os_info(
    os_release: &str,
    version: &str,
    cpuinfo: &str,
    hostname: &str,
    start_time: String,
) -> (r: OsInfo)
    ensures
        describes(
            r,
            os_release.spec_bytes(),
            version.spec_bytes(),
            cpuinfo.spec_bytes(),
            hostname.spec_bytes(),
        ),
        r.start_time == start_time,
{
    let os_name = keyed_value_exec(os_release, "PRETTY_NAME", 61, true, "Unknown system");
    let cpu_name = keyed_value_exec(cpuinfo, "model name", 58, false, "Unknown processor");
    let w = split_words(version.as_bytes());
    let kernel_version = if w.len() >= 3 {
        assert(views(w@)[2] == w@[2]@);
        string_from_bytes(w[2].as_slice())
    } else {
        string_from_bytes("Unknown kernel version".as_bytes())
    };
    let trimmed = trim_by(hostname.as_bytes(), false);
    let host = if trimmed.len() == 0 {
        string_from_bytes("Unknown host".as_bytes())
    } else {
        string_from_bytes(trimmed.as_slice())
    };
    OsInfo {
        hostname: host,
        os_name,
        kernel_version,
        start_time,
        cpu_name,
        cpu_cores: count_cores(cpuinfo),
    }
}

/// Relies on `chrono::DateTime::from_timestamp` and `DateTime::to_rfc3339`: the text
/// depends on the number of seconds alone, and within the bound the moment is in range.
#[verifier::external_body]
fn rfc3339_text(secs: i64) -> (r: Option<String>)
    ensures
        -MAX_TIMESTAMP_SECS <= secs <= MAX_TIMESTAMP_SECS ==> r is Some,
        r is Some ==> r->0@ == rfc3339_of(secs as int),
{
    match chrono::DateTime::from_timestamp(secs, 0) {
        Some(d) => Some(d.to_rfc3339()),
        None => None,
    }
}

/// The boot time: `now_secs` less the whole seconds of uptime, as RFC 3339 text.
pub fn boot_time(now_secs: i64, uptime_secs: u64) -> (r: String)
    requires
        -MAX_CLOCK_SECS <= now_secs <= MAX_CLOCK_SECS,
        uptime_secs <= MAX_UPTIME_SECS,
    ensures
        r@ == rfc3339_of(now_secs - uptime_secs),
{
    match rfc3339_text(now_secs - uptime_secs as i64) {
        Some(t) => t,
        None => String::new(),
    }
}

/// Reads the host's identity from its sources; the boot time is `now_secs` (seconds
/// since 1970) less the whole seconds of uptime. Fails with `Parse` when the uptime file
/// does not hold a number of seconds.
pub fn get_os_info(
    os_release: &str,
    version: &str,
    uptime: &str,
    cpuinfo: &str,
    hostname: &str,
    now_secs: i64,
) -> (r: Result<OsInfo, SampleError>)
    requires
        -MAX_CLOCK_SECS <= now_secs <= MAX_CLOCK_SECS,
    ensures
        uptime_secs_of(uptime.spec_bytes()) is None ==> r == Err::<OsInfo, SampleError>(
            SampleError::Parse,
        ),
        uptime_secs_of(uptime.spec_bytes()) is Some ==> r is Ok && describes(
            r->Ok_0,
            os_release.spec_bytes(),
            version.spec_bytes(),
            cpuinfo.spec_bytes(),
            hostname.spec_bytes(),
        ) && r->Ok_0.start_time@ == rfc3339_of(
            now_secs - uptime_secs_of(uptime.spec_bytes())->0,
        ),
{
    let secs = match parse_uptime_secs(uptime) {
        Ok(s) => s,
        Err(e) => return Err(e),
    };
    let start_time = boot_time(now_secs, secs);
    Ok(build_os_info(os_release, version, cpuinfo, hostname, start_time))
}

/// The identity as persisted and as shown.
#[derive(Debug, Clone)]
pub struct OsInfoRecord {
    pub row: Insert,
    pub report: Vec<String>,
}

/// One line of the identity report: a label and the text of a field.
pub open spec fn report_line(label: Seq<u8>, value: Seq<char>) -> Seq<char> {
    text_of_bytes(label + encode_utf8(value))
}

pub open spec fn report_of(info: OsInfo) -> Seq<Seq<char>> {
    seq![
        report_line("Hostname: ".spec_bytes(), info.hostname@),
        report_line("System: ".spec_bytes(), info.os_name@),
        report_line("Kernel version: ".spec_bytes(), info.kernel_version@),
        report_line("System start-up time ".spec_bytes(), info.start_time@),
        text_of_bytes("Number of CPU cores: ".spec_bytes() + decimal_text(info.cpu_cores as nat)),
        report_line("Processor name: ".spec_bytes(), info.cpu_name@),
    ]
}

fn labelled(label: &str, value: &String) -> (r: String)
    ensures
        r@ == report_line(label.spec_bytes(), value@),
{
    let mut out: Vec<u8> = Vec::new();
    push_all(&mut out, label.as_bytes());
    push_all(&mut out, value.as_str().as_bytes());
    assert(out@ =~= label.spec_bytes() + encode_utf8(value@));
    string_from_bytes(out.as_slice())
}

/// The host identity's row for the `system` table, and its report, one line per field.
pub fn show_and_save_os_info_to_db(info: &OsInfo) -> (r: OsInfoRecord)
    ensures
        is_row(r.row, Table::System, system_values(*info)),
        r.report@.map_values(|l: String| l@) == report_of(*info),
{
    let mut report: Vec<String> = Vec::new();
    report.push(labelled("Hostname: ", &info.hostname));
    report.push(labelled("System: ", &info.os_name));
    report.push(labelled("Kernel version: ", &info.kernel_version));
    report.push(labelled("System start-up time ", &info.start_time));
    let mut cores: Vec<u8> = Vec::new();
    push_all(&mut cores, "Number of CPU cores: ".as_bytes());
    push_decimal(&mut cores, info.cpu_cores as u64);
    report.push(string_from_bytes(cores.as_slice()));
    report.push(labelled("Processor name: ", &info.cpu_name));
    assert(report@.map_values(|l: String| l@) =~= report_of(*info));
    OsInfoRecord { row: os_info_insert(info), report }
}

/// Reading the identity twice from unchanged sources gives the same fields; within one
/// boot, where the clock advanced as much as the uptime, the boot time is the same too.
pub proof fn lemma_identity_repeatable(
    a: OsInfo,
    b: OsInfo,
    os_release: Seq<u8>,
    version: Seq<u8>,
    cpuinfo: Seq<u8>,
    hostname: Seq<u8>,
    now_a: int,
    now_b: int,
    uptime_a: int,
    uptime_b: int,
)
    requires
        describes(a, os_release, version, cpuinfo, hostname),
        describes(b, os_release, version, cpuinfo, hostname),
        a.start_time@ == rfc3339_of(now_a - uptime_a),
        b.start_time@ == rfc3339_of(now_b - uptime_b),
        now_b - now_a == uptime_b - uptime_a,
    ensures
        a.start_time@ == b.start_time@,
        a.hostname@ == b.hostname@,
        a.os_name@ == b.os_name@,
        a.kernel_version@ == b.kernel_version@,
        a.cpu_name@ == b.cpu_name@,
        a.cpu_cores == b.cpu_cores,
{
}

} // verus!
