use vstd::prelude::*;
use vstd::utf8::{decode_utf8, valid_utf8};

verus! {

/// ASCII whitespace, the separators of the counter tables.
pub open spec fn is_space(b: u8) -> bool {
    b == 32 || b == 9 || b == 10 || b == 11 || b == 12 || b == 13
}

pub open spec fn is_digit(b: u8) -> bool {
    48 <= b <= 57
}

/// The lines of `s` that start at or after the line begun at `start`, scanning from `i`.
/// A final newline does not open an empty last line.
pub open spec fn lines_from(s: Seq<u8>, start: int, i: int) -> Seq<Seq<u8>>
    decreases s.len() - i,
{
    if i >= s.len() {
        if start < s.len() {
            seq![s.subrange(start, s.len() as int)]
        } else {
            seq![]
        }
    } else if s[i] == 10 {
        seq![s.subrange(start, i)] + lines_from(s, i + 1, i + 1)
    } else {
        lines_from(s, start, i + 1)
    }
}

/// The newline-separated lines of `s`.
pub open spec fn lines(s: Seq<u8>) -> Seq<Seq<u8>> {
    lines_from(s, 0, 0)
}

/// The maximal runs of non-space bytes of `s` from the run begun at `start`, scanning from `i`.
pub open spec fn words_from(s: Seq<u8>, start: int, i: int) -> Seq<Seq<u8>>
    decreases s.len() - i,
{
    if i >= s.len() {
        if start < s.len() {
            seq![s.subrange(start, s.len() as int)]
        } else {
            seq![]
        }
    } else if is_space(s[i]) {
        if start < i {
            seq![s.subrange(start, i)] + words_from(s, i + 1, i + 1)
        } else {
            words_from(s, i + 1, i + 1)
        }
    } else {
        words_from(s, start, i + 1)
    }
}

/// The whitespace-separated words of `s`.
pub open spec fn words(s: Seq<u8>) -> Seq<Seq<u8>> {
    words_from(s, 0, 0)
}

pub open spec fn views(v: Seq<Vec<u8>>) -> Seq<Seq<u8>> {
    v.map_values(|x: Vec<u8>| x@)
}

pub open spec fn decimal_value(t: Seq<u8>) -> nat
    decreases t.len(),
{
    if t.len() == 0 {
        0
    } else {
        decimal_value(t.drop_last()) * 10 + (t.last() - 48) as nat
    }
}

pub open spec fn all_digits(t: Seq<u8>) -> bool {
    forall|i: int| 0 <= i < t.len() ==> is_digit(#[trigger] t[i])
}

/// `t` is a non-empty run of decimal digits whose value fits in a `u64`.
pub open spec fn is_u64_text(t: Seq<u8>) -> bool {
    t.len() > 0 && all_digits(t) && decimal_value(t) <= u64::MAX
}

pub open spec fn u64_of_text(t: Seq<u8>) -> Option<u64> {
    if is_u64_text(t) {
        Some(decimal_value(t) as u64)
    } else {
        None
    }
}

/// Copies `s[lo..hi]` into a vector of its own.
pub fn copy_range(s: &[u8], lo: usize, hi: usize) -> (r: Vec<u8>)
    requires
        lo <= hi <= s@.len(),
    ensures
        r@ == s@.subrange(lo as int, hi as int),
{
    let mut r: Vec<u8> = Vec::new();
    let mut k: usize = lo;
    while k < hi
        invariant
            lo <= k <= hi <= s@.len(),
            r@ == s@.subrange(lo as int, k as int),
        decreases hi - k,
    {
        r.push(s[k]);
        assert(s@.subrange(lo as int, k + 1) =~= s@.subrange(lo as int, k as int).push(s@[k as int]));
        k = k + 1;
    }
    r
}

/// Splits `s` into its lines.
pub fn split_lines(s: &[u8]) -> (r: Vec<Vec<u8>>)
    ensures
        views(r@) == lines(s@),
{
    let mut r: Vec<Vec<u8>> = Vec::new();
    let mut start: usize = 0;
    let mut i: usize = 0;
    while i < s.len()
        invariant
            start <= i <= s@.len(),
            views(r@) + lines_from(s@, start as int, i as int) == lines(s@),
        decreases s@.len() - i,
    {
        if s[i] == 10 {
            let line = copy_range(s, start, i);
            assert(views(r@.push(line)) =~= views(r@).push(line@));
            assert(views(r@) + lines_from(s@, start as int, i as int) =~= views(r@.push(line))
                + lines_from(s@, i + 1, i + 1));
            r.push(line);
            start = i + 1;
        }
        i = i + 1;
    }
    if start < s.len() {
        let line = copy_range(s, start, s.len());
        assert(views(r@.push(line)) =~= views(r@).push(line@));
        assert(views(r@) + lines_from(s@, start as int, i as int) =~= views(r@.push(line)));
        r.push(line);
    } else {
        assert(views(r@) + lines_from(s@, start as int, i as int) =~= views(r@));
    }
    r
}

/// Splits `s` into its whitespace-separated words.
pub fn split_words(s: &[u8]) -> (r: Vec<Vec<u8>>)
    ensures
        views(r@) == words(s@),
{
    let mut r: Vec<Vec<u8>> = Vec::new();
    let mut start: usize = 0;
    let mut i: usize = 0;
    while i < s.len()
        invariant
            start <= i <= s@.len(),
            views(r@) + words_from(s@, start as int, i as int) == words(s@),
        decreases s@.len() - i,
    {
        let b = s[i];
        if b == 32 || b == 9 || b == 10 || b == 11 || b == 12 || b == 13 {
            if start < i {
                let w = copy_range(s, start, i);
                assert(views(r@.push(w)) =~= views(r@).push(w@));
                assert(views(r@) + words_from(s@, start as int, i as int) =~= views(r@.push(w))
                    + words_from(s@, i + 1, i + 1));
                r.push(w);
            }
            start = i + 1;
        }
        i = i + 1;
    }
    if start < s.len() {
        let w = copy_range(s, start, s.len());
        assert(views(r@.push(w)) =~= views(r@).push(w@));
        assert(views(r@) + words_from(s@, start as int, i as int) =~= views(r@.push(w)));
        r.push(w);
    } else {
        assert(views(r@) + words_from(s@, start as int, i as int) =~= views(r@));
    }
    r
}

proof fn lemma_decimal_prefix_grows(t: Seq<u8>, i: int, j: int)
    requires
        0 <= i <= j <= t.len(),
        all_digits(t),
    ensures
        decimal_value(t.subrange(0, i)) <= decimal_value(t.subrange(0, j)),
    decreases j - i,
{
    if i < j {
        lemma_decimal_prefix_grows(t, i, j - 1);
        assert(t.subrange(0, j).drop_last() =~= t.subrange(0, j - 1));
        assert(is_digit(t[j - 1]));
    }
}

/// Reads a decimal number.
pub fn parse_u64(t: &[u8]) -> (r: Option<u64>)
    ensures
        r == u64_of_text(t@),
{
    if t.len() == 0 {
        return None;
    }
    let mut acc: u64 = 0;
    let mut i: usize = 0;
    while i < t.len()
        invariant
            i <= t@.len(),
            all_digits(t@.subrange(0, i as int)),
            acc == decimal_value(t@.subrange(0, i as int)),
        decreases t@.len() - i,
    {
        let b = t[i];
        if b < 48 || b > 57 {
            assert(!is_digit(t@[i as int]));
            return None;
        }
        assert(t@.subrange(0, i + 1).drop_last() =~= t@.subrange(0, i as int));
        assert(all_digits(t@.subrange(0, i + 1)));
        let d: u64 = (b - 48) as u64;
        if acc > (u64::MAX - d) / 10 {
            assert(decimal_value(t@.subrange(0, i + 1)) > u64::MAX) by (nonlinear_arith)
                requires
                    acc > (u64::MAX - d) / 10,
                    decimal_value(t@.subrange(0, i + 1)) == acc * 10 + d,
            ;
            proof {
                if all_digits(t@) {
                    lemma_decimal_prefix_grows(t@, i + 1, t@.len() as int);
                    assert(t@.subrange(0, t@.len() as int) =~= t@);
                }
            }
            return None;
        }
        assert(acc * 10 + d <= u64::MAX) by (nonlinear_arith)
            requires
                acc <= (u64::MAX - d) / 10,
        ;
        acc = acc * 10 + d;
        i = i + 1;
    }
    assert(t@.subrange(0, t@.len() as int) =~= t@);
    Some(acc)
}

/// The text that the bytes `b` decode to, invalid sequences replaced.
pub uninterp spec fn text_of_bytes(b: Seq<u8>) -> Seq<char>;

pub open spec fn is_ascii_bytes(b: Seq<u8>) -> bool {
    forall|i: int| 0 <= i < b.len() ==> #[trigger] b[i] < 128
}

/// Relies on `String::from_utf8_lossy`: the text depends on the bytes alone, valid UTF-8
/// decodes unchanged, and ASCII bytes decode one character each.
#[verifier::external_body]
pub(crate) fn string_from_bytes(b: &[u8]) -> (r: String)
    ensures
        r@ == text_of_bytes(b@),
        valid_utf8(b@) ==> r@ == decode_utf8(b@),
        is_ascii_bytes(b@) ==> r@ == b@.map_values(|x: u8| x as char),
{
    String::from_utf8_lossy(b).into_owned()
}

/// The decimal digits of `n`, without sign or padding.
pub open spec fn decimal_text(n: nat) -> Seq<u8>
    decreases n,
{
    if n < 10 {
        seq![(48 + n) as u8]
    } else {
        decimal_text(n / 10).push((48 + n % 10) as u8)
    }
}

/// Appends the decimal digits of `n` to `out`.
pub fn push_decimal(out: &mut Vec<u8>, n: u64)
    ensures
        final(out)@ == old(out)@ + decimal_text(n as nat),
    decreases n,
{
    if n < 10 {
        out.push((48 + n) as u8);
        assert(out@ =~= old(out)@ + decimal_text(n as nat));
    } else {
        push_decimal(out, n / 10);
        out.push((48 + n % 10) as u8);
        assert(out@ =~= old(out)@ + decimal_text(n as nat));
    }
}

/// Whether two byte strings are equal.
pub fn bytes_eq(a: &[u8], b: &[u8]) -> (r: bool)
    ensures
        r == (a@ == b@),
{
    if a.len() != b.len() {
        return false;
    }
    let mut k: usize = 0;
    while k < a.len()
        invariant
            k <= a@.len() == b@.len(),
            forall|j: int| 0 <= j < k ==> a@[j] == b@[j],
        decreases a@.len() - k,
    {
        if a[k] != b[k] {
            return false;
        }
        k = k + 1;
    }
    assert(a@ =~= b@);
    true
}

pub open spec fn starts_with(t: Seq<u8>, p: Seq<u8>) -> bool {
    p.len() <= t.len() && t.subrange(0, p.len() as int) == p
}

/// Whether `t` begins with `p`.
pub fn has_prefix(t: &[u8], p: &[u8]) -> (r: bool)
    ensures
        r == starts_with(t@, p@),
{
    if p.len() > t.len() {
        return false;
    }
    let mut k: usize = 0;
    while k < p.len()
        invariant
            k <= p@.len() <= t@.len(),
            forall|j: int| 0 <= j < k ==> t@[j] == p@[j],
        decreases p@.len() - k,
    {
        if t[k] != p[k] {
            assert(t@.subrange(0, p@.len() as int)[k as int] != p@[k as int]);
            return false;
        }
        k = k + 1;
    }
    assert(t@.subrange(0, p@.len() as int) =~= p@);
    true
}

/// The position of the first `b` in `t` at or after `i`, or -1.
pub open spec fn byte_pos(t: Seq<u8>, b: u8, i: int) -> int
    decreases t.len() - i,
{
    if i >= t.len() {
        -1
    } else if t[i] == b {
        i
    } else {
        byte_pos(t, b, i + 1)
    }
}

/// What follows the first `b` in `t`, if `t` holds one.
pub open spec fn after_first(t: Seq<u8>, b: u8) -> Option<Seq<u8>> {
    let p = byte_pos(t, b, 0);
    if p < 0 {
        None
    } else {
        Some(t.subrange(p + 1, t.len() as int))
    }
}

/// The position of the first `b` in `t`, if `t` holds one.
pub fn find_byte(t: &[u8], b: u8) -> (r: Option<usize>)
    ensures
        match r {
            Some(p) => p == byte_pos(t@, b, 0) && p < t@.len() && t@[p as int] == b,
            None => byte_pos(t@, b, 0) == -1,
        },
{
    let mut i: usize = 0;
    while i < t.len()
        invariant
            i <= t@.len(),
            byte_pos(t@, b, i as int) == byte_pos(t@, b, 0),
        decreases t@.len() - i,
    {
        if t[i] == b {
            return Some(i);
        }
        i = i + 1;
    }
    None
}

/// Whether every byte of `t` is a decimal digit.
pub fn is_all_digits(t: &[u8]) -> (r: bool)
    ensures
        r == all_digits(t@),
{
    let mut i: usize = 0;
    while i < t.len()
        invariant
            i <= t@.len(),
            forall|j: int| 0 <= j < i ==> is_digit(#[trigger] t@[j]),
        decreases t@.len() - i,
    {
        if t[i] < 48 || t[i] > 57 {
            return false;
        }
        i = i + 1;
    }
    true
}

/// Returns what follows the first `b` in `t`, if `t` holds one.
pub fn split_after(t: &[u8], b: u8) -> (r: Option<Vec<u8>>)
    ensures
        match after_first(t@, b) {
            Some(v) => r is Some && r->0@ == v,
            None => r is None,
        },
{
    let mut i: usize = 0;
    while i < t.len()
        invariant
            i <= t@.len(),
            byte_pos(t@, b, i as int) == byte_pos(t@, b, 0),
        decreases t@.len() - i,
    {
        if t[i] == b {
            return Some(copy_range(t, i + 1, t.len()));
        }
        i = i + 1;
    }
    None
}

/// The bytes that a trim removes: double quotes (`quote`) or whitespace (otherwise).
pub open spec fn strips(b: u8, quote: bool) -> bool {
    if quote {
        b == 34
    } else {
        is_space(b)
    }
}

fn stripped(b: u8, quote: bool) -> (r: bool)
    ensures
        r == strips(b, quote),
{
    if quote {
        b == 34
    } else {
        b == 32 || b == 9 || b == 10 || b == 11 || b == 12 || b == 13
    }
}

/// `t` without the leading bytes that the trim removes.
pub open spec fn trim_start_by(t: Seq<u8>, quote: bool) -> Seq<u8>
    decreases t.len(),
{
    if t.len() > 0 && strips(t[0], quote) {
        trim_start_by(t.subrange(1, t.len() as int), quote)
    } else {
        t
    }
}

/// `t` without the trailing bytes that the trim removes.
pub open spec fn trim_end_by(t: Seq<u8>, quote: bool) -> Seq<u8>
    decreases t.len(),
{
    if t.len() > 0 && strips(t.last(), quote) {
        trim_end_by(t.drop_last(), quote)
    } else {
        t
    }
}

/// `t` without leading and trailing whitespace.
pub open spec fn trim_spaces(t: Seq<u8>) -> Seq<u8> {
    trim_end_by(trim_start_by(t, false), false)
}

/// `t` without leading and trailing double quotes.
pub open spec fn trim_quotes(t: Seq<u8>) -> Seq<u8> {
    trim_end_by(trim_start_by(t, true), true)
}

/// Removes leading and trailing double quotes (`quote`) or whitespace (otherwise).
pub fn trim_by(t: &[u8], quote: bool) -> (r: Vec<u8>)
    ensures
        r@ == trim_end_by(trim_start_by(t@, quote), quote),
{
    let mut lo: usize = 0;
    assert(t@.subrange(0, t@.len() as int) =~= t@);
    while lo < t.len() && stripped(t[lo], quote)
        invariant
            lo <= t@.len(),
            trim_start_by(t@.subrange(lo as int, t@.len() as int), quote) == trim_start_by(
                t@,
                quote,
            ),
        decreases t@.len() - lo,
    {
        assert(t@.subrange(lo as int, t@.len() as int).subrange(1, t@.len() - lo) =~= t@.subrange(
            lo + 1,
            t@.len() as int,
        ));
        lo = lo + 1;
    }
    let ghost mid = t@.subrange(lo as int, t@.len() as int);
    assert(trim_start_by(mid, quote) == mid);
    let mut hi: usize = t.len();
    assert(mid.subrange(0, (hi - lo) as int) =~= mid);
    while hi > lo && stripped(t[hi - 1], quote)
        invariant
            lo <= hi <= t@.len(),
            mid == t@.subrange(lo as int, t@.len() as int),
            trim_end_by(mid.subrange(0, hi - lo), quote) == trim_end_by(mid, quote),
        decreases hi,
    {
        assert(mid.subrange(0, hi - lo).drop_last() =~= mid.subrange(0, hi - 1 - lo));
        hi = hi - 1;
    }
    assert(mid.subrange(0, hi - lo) =~= t@.subrange(lo as int, hi as int));
    copy_range(t, lo, hi)
}

/// Appends `src` to `out`.
pub fn push_all(out: &mut Vec<u8>, src: &[u8])
    ensures
        final(out)@ == old(out)@ + src@,
{
    let mut k: usize = 0;
    while k < src.len()
        invariant
            k <= src@.len(),
            out@ == old(out)@ + src@.subrange(0, k as int),
        decreases src@.len() - k,
    {
        out.push(src[k]);
        assert(src@.subrange(0, k + 1) =~= src@.subrange(0, k as int).push(src@[k as int]));
        k = k + 1;
    }
    assert(src@.subrange(0, src@.len() as int) =~= src@);
}

} // verus!
