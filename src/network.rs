use vstd::prelude::*;
use vstd::string::StringSliceAdditionalSpecFns;

use crate::text::{
    copy_range, decimal_value, is_u64_text, lines, parse_u64, split_lines, split_words,
    string_from_bytes, text_of_bytes, views, words,
};

verus! {

/// The byte counters of one network interface.
#[derive(Debug, Clone, PartialEq, Eq)]
pub struct NetworkInterface {
    pub interface_name: String,
    pub bytes_received: u64,
    pub bytes_transmitted: u64,
}

impl View for NetworkInterface {
    type V = (Seq<char>, u64, u64);

    open spec fn view(&self) -> Self::V {
        (self.interface_name@, self.bytes_received, self.bytes_transmitted)
    }
}

/// `t` without its trailing colons.
pub open spec fn trim_colons(t: Seq<u8>) -> Seq<u8>
    decreases t.len(),
{
    if t.len() > 0 && t.last() == 58 {
        trim_colons(t.drop_last())
    } else {
        t
    }
}

pub open spec fn is_excluded(exclude: Seq<String>, name: Seq<char>) -> bool {
    exists|i: int| 0 <= i < exclude.len() && (#[trigger] exclude[i])@ == name
}

/// One row of the interface table: the name (its colon removed) in the first column,
/// bytes received in the second and bytes transmitted in the tenth. Excluded
/// interfaces, short rows and rows with a non-numeric counter give nothing.
pub open spec fn net_row(exclude: Seq<String>, line: Seq<u8>) -> Option<(Seq<char>, u64, u64)> {
    let w = words(line);
    if w.len() < 10 || is_excluded(exclude, text_of_bytes(trim_colons(w[0])))
        || !is_u64_text(w[1]) || !is_u64_text(w[9]) {
        None
    } else {
        Some(
            (
                text_of_bytes(trim_colons(w[0])),
                decimal_value(w[1]) as u64,
                decimal_value(w[9]) as u64,
            ),
        )
    }
}

pub open spec fn net_rows(exclude: Seq<String>, ls: Seq<Seq<u8>>) -> Seq<(Seq<char>, u64, u64)>
    decreases ls.len(),
{
    if ls.len() == 0 {
        seq![]
    } else {
        net_rows(exclude, ls.drop_last()) + match net_row(exclude, ls.last()) {
            Some(d) => seq![d],
            None => seq![],
        }
    }
}

/// The rows of the interface table after its two header lines.
pub open spec fn net_table(exclude: Seq<String>, content: Seq<u8>) -> Seq<(Seq<char>, u64, u64)> {
    let ls = lines(content);
    if ls.len() <= 2 {
        seq![]
    } else {
        net_rows(exclude, ls.subrange(2, ls.len() as int))
    }
}

pub open spec fn net_views(v: Seq<NetworkInterface>) -> Seq<(Seq<char>, u64, u64)> {
    v.map_values(|d: NetworkInterface| d@)
}

fn trim_colons_exec(t: &[u8]) -> (r: Vec<u8>)
    ensures
        r@ == trim_colons(t@),
{
    let mut end: usize = t.len();
    assert(t@.subrange(0, end as int) =~= t@);
    while end > 0 && t[end - 1] == 58
        invariant
            end <= t@.len(),
            trim_colons(t@.subrange(0, end as int)) == trim_colons(t@),
        decreases end,
    {
        assert(t@.subrange(0, end as int).drop_last() =~= t@.subrange(0, end - 1));
        end = end - 1;
    }
    copy_range(t, 0, end)
}

fn excluded(exclude: &Vec<String>, name: &String) -> (r: bool)
    ensures
        r == is_excluded(exclude@, name@),
{
    let mut i: usize = 0;
    while i < exclude.len()
        invariant
            i <= exclude@.len(),
            forall|j: int| 0 <= j < i ==> (#[trigger] exclude@[j])@ != name@,
        decreases exclude@.len() - i,
    {
        if exclude[i] == *name {
            return true;
        }
        i = i + 1;
    }
    false
}

fn parse_net_row(exclude: &Vec<String>, line: &[u8]) -> (r: Option<NetworkInterface>)
    ensures
        match net_row(exclude@, line@) {
            Some(d) => r is Some && r->0@ == d,
            None => r is None,
        },
{
    let w = split_words(line);
    if w.len() < 10 {
        return None;
    }
    assert(views(w@)[0] == w@[0]@ && views(w@)[1] == w@[1]@ && views(w@)[9] == w@[9]@);
    let trimmed = trim_colons_exec(w[0].as_slice());
    let name = string_from_bytes(trimmed.as_slice());
    if excluded(exclude, &name) {
        return None;
    }
    let bytes_received = match parse_u64(w[1].as_slice()) {
        Some(v) => v,
        None => return None,
    };
    let bytes_transmitted = match parse_u64(w[9].as_slice()) {
        Some(v) => v,
        None => return None,
    };
    Some(NetworkInterface { interface_name: name, bytes_received, bytes_transmitted })
}

/// The counters of each interface in the interface table that is not excluded, in
/// table order.
pub fn get_network_io_stats(content: &str, exclude_interfaces: &Vec<String>) -> (r: Vec<
    NetworkInterface,
>)
    ensures
        net_views(r@) == net_table(exclude_interfaces@, content.spec_bytes()),
{
    let ls = split_lines(content.as_bytes());
    let ghost all = views(ls@);
    let mut r: Vec<NetworkInterface> = Vec::new();
    if ls.len() <= 2 {
        assert(net_views(r@) =~= Seq::empty());
        return r;
    }
    let ghost body = all.subrange(2, all.len() as int);
    let mut k: usize = 2;
    assert(body.subrange(0, 0) =~= Seq::<Seq<u8>>::empty());
    assert(net_views(r@) =~= Seq::empty());
    while k < ls.len()
        invariant
            2 <= k <= ls@.len(),
            all == views(ls@),
            all == lines(content.spec_bytes()),
            body == all.subrange(2, all.len() as int),
            net_views(r@) == net_rows(exclude_interfaces@, body.subrange(0, k - 2)),
        decreases ls@.len() - k,
    {
        assert(body.subrange(0, k - 1).drop_last() =~= body.subrange(0, k - 2));
        assert(body.subrange(0, k - 1).last() == ls@[k as int]@);
        match parse_net_row(exclude_interfaces, ls[k].as_slice()) {
            Some(d) => {
                assert(net_views(r@.push(d)) =~= net_views(r@).push(d@));
                r.push(d);
                assert(net_views(r@) =~= net_rows(exclude_interfaces@, body.subrange(0, k - 1)));
            },
            None => {
                assert(net_views(r@) =~= net_rows(exclude_interfaces@, body.subrange(0, k - 1)));
            },
        }
        k = k + 1;
    }
    assert(body.subrange(0, k - 2) =~= body);
    r
}

} // verus!
