//! Character-level helpers shared by the decoder and the download planner.
use vstd::prelude::*;

verus! {

/// The characters of `s`, in order.
pub(crate) fn chars_of(s: &str) -> (r: Vec<char>)
    ensures
        r@ == s@,
{
    let n = s.unicode_len();
    let mut r: Vec<char> = Vec::new();
    let mut i: usize = 0;
    while i < n
        invariant
            i <= n,
            n == s@.len(),
            r@ == s@.subrange(0, i as int),
        decreases n - i,
    {
        r.push(s.get_char(i));
        i = i + 1;
    }
    assert(r@ =~= s@);
    r
}

/// Relies on `String: FromIterator<&char>`: the string made of the given characters.
#[verifier::external_body]
pub(crate) fn string_of(v: &Vec<char>) -> (r: String)
    ensures
        r@ == v@,
{
    v.iter().collect()
}

pub open spec fn is_digit(c: char) -> bool {
    '0' as u32 <= c as u32 && c as u32 <= '9' as u32
}

pub open spec fn digit_value(c: char) -> nat {
    (c as u32 - '0' as u32) as nat
}

/// All characters are ASCII digits, and there is at least one.
pub open spec fn is_decimal(s: Seq<char>) -> bool {
    s.len() > 0 && forall|i: int| 0 <= i < s.len() ==> is_digit(#[trigger] s[i])
}

/// The number that a string of decimal digits denotes.
pub open spec fn decimal_value(s: Seq<char>) -> nat
    decreases s.len(),
{
    if s.len() == 0 {
        0
    } else {
        decimal_value(s.drop_last()) * 10 + digit_value(s.last())
    }
}

/// Index of the first `c` in `s` at or after `i`; `s.len()` when there is none.
pub open spec fn first_from(s: Seq<char>, c: char, i: int) -> int
    decreases s.len() - i,
{
    if 0 <= i < s.len() {
        if s[i] == c {
            i
        } else {
            first_from(s, c, i + 1)
        }
    } else {
        s.len() as int
    }
}

proof fn lemma_decimal_prefix_le(s: Seq<char>, k: int)
    requires
        forall|i: int| 0 <= i < s.len() ==> is_digit(#[trigger] s[i]),
        0 <= k <= s.len(),
    ensures
        decimal_value(s.subrange(0, k)) <= decimal_value(s),
    decreases s.len(),
{
    if k < s.len() {
        let t = s.drop_last();
        assert forall|i: int| 0 <= i < t.len() implies is_digit(#[trigger] t[i]) by {
            assert(t[i] == s[i]);
        }
        lemma_decimal_prefix_le(t, k);
        assert(t.subrange(0, k) =~= s.subrange(0, k));
    } else {
        assert(s.subrange(0, k) =~= s);
    }
}

/// Index of the first `c` in `v` at or after `from`.
pub(crate) fn find_char(v: &Vec<char>, from: usize, c: char) -> (r: usize)
    requires
        from <= v.len(),
    ensures
        r as int == first_from(v@, c, from as int),
        from <= r <= v.len(),
{
    let mut i: usize = from;
    while i < v.len()
        invariant
            from <= i <= v.len(),
            first_from(v@, c, i as int) == first_from(v@, c, from as int),
        decreases v.len() - i,
    {
        if v[i] == c {
            return i;
        }
        i = i + 1;
    }
    i
}

/// The characters of `v` from `from` up to `to`.
pub(crate) fn slice_chars(v: &Vec<char>, from: usize, to: usize) -> (r: Vec<char>)
    requires
        from <= to <= v.len(),
    ensures
        r@ == v@.subrange(from as int, to as int),
{
    let mut r: Vec<char> = Vec::new();
    let mut i: usize = from;
    while i < to
        invariant
            from <= i <= to <= v.len(),
            r@ == v@.subrange(from as int, i as int),
        decreases to - i,
    {
        r.push(v[i]);
        i = i + 1;
    }
    r
}

/// Reads `v[from..to]` as a decimal number that fits in `usize`.
pub(crate) fn parse_decimal(v: &Vec<char>, from: usize, to: usize) -> (r: Option<usize>)
    requires
        from <= to <= v.len(),
    ensures
        ({
            let s = v@.subrange(from as int, to as int);
            match r {
                Some(n) => is_decimal(s) && n as nat == decimal_value(s),
                None => !is_decimal(s) || decimal_value(s) > usize::MAX,
            }
        }),
{
    let ghost s = v@.subrange(from as int, to as int);
    if from == to {
        return None;
    }
    let mut acc: usize = 0;
    let mut i: usize = from;
    while i < to
        invariant
            from <= i <= to <= v.len(),
            s == v@.subrange(from as int, to as int),
            forall|j: int| 0 <= j < i - from ==> is_digit(#[trigger] s[j]),
            acc as nat == decimal_value(s.subrange(0, i - from)),
        decreases to - i,
    {
        let c = v[i];
        if !('0' as u32 <= c as u32 && c as u32 <= '9' as u32) {
            assert(s[i - from] == c);
            return None;
        }
        let d = (c as u32 - '0' as u32) as usize;
        proof {
            assert(s.subrange(0, i - from + 1).drop_last() =~= s.subrange(0, i - from));
            assert(s.subrange(0, i - from + 1).last() == c);
        }
        if acc > (usize::MAX - d) / 10 {
            proof {
                assert(decimal_value(s.subrange(0, i - from + 1)) > usize::MAX);
                if is_decimal(s) {
                    lemma_decimal_prefix_le(s, i - from + 1);
                }
            }
            return None;
        }
        acc = acc * 10 + d;
        i = i + 1;
    }
    assert(s.subrange(0, to - from) =~= s);
    Some(acc)
}

pub open spec fn digit_char(d: nat) -> char {
    seq!['0', '1', '2', '3', '4', '5', '6', '7', '8', '9'][d as int]
}

/// The decimal digits of `n`, with leading zeros up to at least `w` digits.
pub open spec fn padded(n: nat, w: nat) -> Seq<char>
    decreases n, w,
{
    if n < 10 && w <= 1 {
        seq![digit_char(n)]
    } else {
        padded(n / 10, if w > 0 { (w - 1) as nat } else { 0 }) + seq![digit_char(n % 10)]
    }
}

fn digit(d: u64) -> (c: char)
    requires
        d < 10,
    ensures
        c == digit_char(d as nat),
{
    match d {
        0 => '0',
        1 => '1',
        2 => '2',
        3 => '3',
        4 => '4',
        5 => '5',
        6 => '6',
        7 => '7',
        8 => '8',
        _ => '9',
    }
}

/// Appends the decimal digits of `n`, zero-padded to `w` digits.
pub(crate) fn push_padded(out: &mut Vec<char>, n: u64, w: u64)
    ensures
        final(out)@ == old(out)@ + padded(n as nat, w as nat),
    decreases n, w,
{
    if n < 10 && w <= 1 {
        out.push(digit(n));
    } else {
        push_padded(out, n / 10, if w > 0 { w - 1 } else { 0 });
        out.push(digit(n % 10));
        proof {
            assert(out@ =~= old(out)@ + padded(n as nat, w as nat));
        }
    }
}

/// A year as chrono's `%Y` writes it: four digits at least, with a sign outside 0 to 9999.
pub open spec fn year_text(y: int) -> Seq<char> {
    if y < 0 {
        seq!['-'] + padded((-y) as nat, 4)
    } else if y > 9999 {
        seq!['+'] + padded(y as nat, 4)
    } else {
        padded(y as nat, 4)
    }
}

/// Appends a year as `year_text` writes it.
pub(crate) fn push_year(out: &mut Vec<char>, y: i32)
    ensures
        final(out)@ == old(out)@ + year_text(y as int),
{
    if y < 0 {
        out.push('-');
        push_padded(out, (0 - (y as i64)) as u64, 4);
    } else {
        if y > 9999 {
            out.push('+');
        }
        push_padded(out, y as u64, 4);
    }
}

} // verus!
