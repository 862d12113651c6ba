//! Tape sizing: parsing the optional leading `#@size=value` directive lines
//! and resolving the tape length for one translation.
//!
//! The size control value has three modes: `0` uses the default constant,
//! any negative value (the parse-failure sentinel is `-1`) auto-computes the
//! size from the source, and `N > 0` is used verbatim. The auto-computed
//! size models a program that only advances the pointer: pointer increments
//! minus pointer decrements plus one, clamped to a minimum of one cell.
//!
//! Directive lines are the contiguous run of leading lines that begin with
//! `#@`; the first line that does not ends the run. A `size` value that is
//! not an integer fitting a signed 64-bit word resolves to the auto-compute
//! sentinel. When the run names `size` more than once, the last one wins.
//! Directive lines are configuration only by convention: the generator still
//! scans their characters like any others.

use crate::source::count_char;
use vstd::prelude::*;

verus! {

/// The conventional default tape length, in cells.
pub const DEFAULT_TAPE_CELLS: u128 = 30000;

/// The size control value that selects the auto-compute mode; unparseable
/// directive values resolve to it.
pub const AUTO_SIZE_SENTINEL: i64 = -1;

/// Whether `c` is a decimal digit.
pub open spec fn is_digit_char(c: char) -> bool {
    c == '0' || c == '1' || c == '2' || c == '3' || c == '4' || c == '5' || c == '6' || c == '7'
        || c == '8' || c == '9'
}

/// The value of a decimal digit character (0 for non-digits).
pub open spec fn digit_val(c: char) -> nat {
    if c == '1' {
        1
    } else if c == '2' {
        2
    } else if c == '3' {
        3
    } else if c == '4' {
        4
    } else if c == '5' {
        5
    } else if c == '6' {
        6
    } else if c == '7' {
        7
    } else if c == '8' {
        8
    } else if c == '9' {
        9
    } else {
        0
    }
}

/// The number written by a sequence of decimal digits (most significant
/// first).
pub open spec fn digits_val(s: Seq<char>) -> nat
    decreases s.len(),
{
    if s.len() == 0 {
        0
    } else {
        digits_val(s.drop_last()) * 10 + digit_val(s.last())
    }
}

/// Whether every character of `s` is a decimal digit.
pub open spec fn all_digits(s: Seq<char>) -> bool {
    forall|i: int| 0 <= i < s.len() ==> is_digit_char(#[trigger] s[i])
}

/// A prefix of a digit string never exceeds the whole string's value.
pub proof fn lemma_digits_val_take_le(s: Seq<char>, k: int)
    requires
        0 <= k <= s.len(),
    ensures
        digits_val(s.take(k)) <= digits_val(s),
    decreases s.len() - k,
{
    if k == s.len() {
        assert(s.take(k) =~= s);
    } else {
        lemma_digits_val_take_le(s.drop_last(), k);
        assert(s.drop_last().take(k) =~= s.take(k));
        assert(digits_val(s.drop_last()) * 10 >= digits_val(s.drop_last()));
    }
}

/// Whether `v` is written as an optional minus sign followed by one or more
/// decimal digits.
pub open spec fn valid_int_literal(v: Seq<char>) -> bool {
    if v.len() == 0 {
        false
    } else if v[0] == '-' {
        v.len() >= 2 && all_digits(v.subrange(1, v.len() as int))
    } else {
        all_digits(v)
    }
}

/// The integer a valid literal writes.
pub open spec fn int_val(v: Seq<char>) -> int {
    if v.len() > 0 && v[0] == '-' {
        -(digits_val(v.subrange(1, v.len() as int)) as int)
    } else {
        digits_val(v) as int
    }
}

/// The size control a directive value resolves to: the integer it writes
/// when that fits a signed 64-bit word, else the auto-compute sentinel.
pub open spec fn control_of_value(v: Seq<char>) -> int {
    if valid_int_literal(v) && -9223372036854775808 <= int_val(v) <= 9223372036854775807 {
        int_val(v)
    } else {
        AUTO_SIZE_SENTINEL as int
    }
}

/// The first position at or after `pos` where `t` occurs in `s`; `s.len()`
/// when it does not.
pub open spec fn find_char(s: Seq<char>, pos: int, t: char) -> int
    decreases s.len() - pos when 0 <= pos <= s.len()
{
    if pos >= s.len() {
        s.len() as int
    } else if s[pos] == t {
        pos
    } else {
        find_char(s, pos + 1, t)
    }
}

pub proof fn lemma_find_char_bounds(s: Seq<char>, pos: int, t: char)
    requires
        0 <= pos <= s.len(),
    ensures
        pos <= find_char(s, pos, t) <= s.len(),
    decreases s.len() - pos,
{
    if pos < s.len() && s[pos] != t {
        lemma_find_char_bounds(s, pos + 1, t);
    }
}

/// A scan that saw no `t` in `[pos, e)` and stopped at the end or on a `t`
/// found exactly `find_char`.
pub proof fn lemma_find_char_located(s: Seq<char>, pos: int, t: char, e: int)
    requires
        0 <= pos <= e <= s.len(),
        forall|j: int| pos <= j < e ==> s[j] != t,
        e == s.len() || s[e] == t,
    ensures
        find_char(s, pos, t) == e,
    decreases e - pos,
{
    if pos < e {
        lemma_find_char_located(s, pos + 1, t, e);
    }
}

/// Whether a line belongs to the leading directive run.
pub open spec fn line_is_directive(line: Seq<char>) -> bool {
    line.len() >= 2 && line[0] == '#' && line[1] == '@'
}

/// The size control after one directive line: a `size` directive replaces
/// the control gathered so far (last wins), anything else leaves it.
pub open spec fn directive_update(line: Seq<char>, acc: int) -> int {
    let q = find_char(line, 2, '=');
    if q < line.len() && line.subrange(2, q) == "size"@ {
        control_of_value(line.subrange(q + 1, line.len() as int))
    } else {
        acc
    }
}

/// The size control gathered from the directive run that starts at `pos`,
/// with `acc` gathered so far.
pub open spec fn control_from(s: Seq<char>, pos: int, acc: int) -> int
    decreases s.len() - pos when 0 <= pos <= s.len() via control_from_decreases
{
    if pos >= s.len() {
        acc
    } else {
        let e = find_char(s, pos, '\n');
        let line = s.subrange(pos, e);
        if line_is_directive(line) {
            let acc2 = directive_update(line, acc);
            if e + 1 <= s.len() {
                control_from(s, e + 1, acc2)
            } else {
                acc2
            }
        } else {
            acc
        }
    }
}

#[via_fn]
proof fn control_from_decreases(s: Seq<char>, pos: int, acc: int) {
    if 0 <= pos < s.len() {
        lemma_find_char_bounds(s, pos, '\n');
    }
}

/// The size control of a whole source text: `0` (use the default) unless the
/// leading directive run names `size`.
pub open spec fn spec_size_control(s: Seq<char>) -> int {
    control_from(s, 0, 0)
}

/// The auto-computed tape length: pointer increments minus pointer
/// decrements plus one, clamped to a minimum of one cell.
pub open spec fn spec_auto_size(s: Seq<char>) -> nat {
    let d = count_char(s, '>') - count_char(s, '<') + 1;
    if d < 1 {
        1
    } else {
        d as nat
    }
}

/// The resolved tape length for a source under a size control value.
pub open spec fn spec_tape_size(control: int, s: Seq<char>) -> nat {
    if control >= 1 {
        control as nat
    } else if control == 0 {
        DEFAULT_TAPE_CELLS as nat
    } else {
        spec_auto_size(s)
    }
}

/// The decimal digit `c` writes, if any.
fn digit_of(c: char) -> (r: Option<u64>)
    ensures
        r is Some ==> is_digit_char(c) && r->0 == digit_val(c) && r->0 <= 9,
        r is None ==> !is_digit_char(c),
{
    if c == '0' {
        Some(0)
    } else if c == '1' {
        Some(1)
    } else if c == '2' {
        Some(2)
    } else if c == '3' {
        Some(3)
    } else if c == '4' {
        Some(4)
    } else if c == '5' {
        Some(5)
    } else if c == '6' {
        Some(6)
    } else if c == '7' {
        Some(7)
    } else if c == '8' {
        Some(8)
    } else if c == '9' {
        Some(9)
    } else {
        None
    }
}

/// Parses the value region `[start, end)` of a directive line into a size
/// control value.
#[verifier::loop_isolation(false)]
fn parse_control_value(line: &Vec<char>, start: usize, end: usize) -> (c: i64)
    requires
        start <= end <= line@.len(),
    ensures
        c as int == control_of_value(line@.subrange(start as int, end as int)),
{
    let ghost v = line@.subrange(start as int, end as int);
    if start >= end {
        return AUTO_SIZE_SENTINEL;
    }
    let neg = line[start] == '-';
    let ds_start = if neg {
        start + 1
    } else {
        start
    };
    let ghost ds = line@.subrange(ds_start as int, end as int);
    proof {
        if neg {
            assert(ds =~= v.subrange(1, v.len() as int));
        } else {
            assert(ds =~= v);
        }
    }
    if ds_start >= end {
        // a bare minus sign
        return AUTO_SIZE_SENTINEL;
    }
    let limit: u64 = if neg {
        9223372036854775808
    } else {
        9223372036854775807
    };
    let mut acc: u64 = 0;
    let mut i = ds_start;
    while i < end
        invariant
            start <= ds_start <= i <= end <= line@.len(),
            ds == line@.subrange(ds_start as int, end as int),
            acc == digits_val(ds.take(i - ds_start)),
            all_digits(ds.take(i - ds_start)),
            acc <= limit,
            limit == if neg {
                9223372036854775808u64
            } else {
                9223372036854775807u64
            },
        decreases end - i,
    {
        let ghost k = i - ds_start;
        proof {
            assert(ds.take(k + 1).drop_last() =~= ds.take(k));
            assert(ds.take(k + 1).last() == ds[k]);
            assert(ds[k] == line@[i as int]);
        }
        let d = match digit_of(line[i]) {
            Some(d) => d,
            None => {
                // not a number: the sentinel selects the auto-compute mode
                proof {
                    assert(!is_digit_char(ds[k]));
                    assert(!all_digits(ds));
                    assert(v[0] == line@[start as int]);
                    assert(!valid_int_literal(v));
                }
                return AUTO_SIZE_SENTINEL;
            },
        };
        if acc > (limit - d) / 10 {
            // the value cannot fit a signed 64-bit word
            proof {
                let q = (limit - d) / 10;
                assert(limit - d == q * 10 + (limit - d) % 10);
                assert(acc * 10 >= (q + 1) * 10);
                assert(digits_val(ds.take(k + 1)) == acc * 10 + digit_val(ds[k]));
                assert(digits_val(ds.take(k + 1)) > limit);
                lemma_digits_val_take_le(ds, k + 1);
                assert(digits_val(ds) > limit);
                assert(v[0] == line@[start as int]);
                if neg {
                    assert(int_val(v) == -(digits_val(ds) as int));
                    assert(int_val(v) < -9223372036854775808);
                } else {
                    assert(v.len() > 0 && v[0] == '-' ==> false);
                    assert(int_val(v) == digits_val(v) as int);
                    assert(int_val(v) > 9223372036854775807);
                }
            }
            return AUTO_SIZE_SENTINEL;
        }
        proof {
            let q = (limit - d) / 10;
            assert(q * 10 <= limit - d);
            assert(acc * 10 <= q * 10);
        }
        acc = acc * 10 + d;
        i = i + 1;
    }
    proof {
        assert(ds.take(end - ds_start) =~= ds);
    }
    if neg {
        if acc == 9223372036854775808 {
            i64::MIN
        } else {
            -(acc as i64)
        }
    } else {
        acc as i64
    }
}

/// Reads the size control from the leading directive run of `code`: `0` when
/// no directive names `size`, else the last `size` value (or the
/// auto-compute sentinel where that value is not a number).
#[verifier::loop_isolation(false)]
pub fn parse_directives(code: &str) -> (control: i64)
    ensures
        control as int == spec_size_control(code@),
{
    let v = crate::source::chars_of(code);
    let ghost s = code@;
    let n = v.len();
    let mut pos: usize = 0;
    let mut acc: i64 = 0;
    loop
        invariant
            v@ == s,
            n == s.len(),
            0 <= pos <= n,
            spec_size_control(s) == control_from(s, pos as int, acc as int),
        decreases n - pos,
    {
        if pos >= n {
            proof {
                assert(control_from(s, pos as int, acc as int) == acc as int);
            }
            return acc;
        }
        // find the end of the current line
        let mut e = pos;
        while e < n && v[e] != '\n'
            invariant
                v@ == s,
                n == s.len(),
                pos <= e <= n,
                forall|j: int| pos <= j < e ==> s[j] != '\n',
            decreases n - e,
        {
            e = e + 1;
        }
        proof {
            lemma_find_char_located(s, pos as int, '\n', e as int);
        }
        let ghost line = s.subrange(pos as int, e as int);
        if !(e - pos >= 2 && v[pos] == '#' && v[pos + 1] == '@') {
            proof {
                assert(line.len() == e - pos);
                assert(line.len() >= 2 ==> line[0] == s[pos as int] && line[1] == s[pos + 1]);
                assert(!line_is_directive(line));
                assert(find_char(s, pos as int, '\n') == e as int);
                assert(control_from(s, pos as int, acc as int) == acc as int);
            }
            return acc;
        }
        proof {
            assert(line_is_directive(line));
        }
        // copy the line out of the source
        let mut lv: Vec<char> = Vec::new();
        let mut k = pos;
        while k < e
            invariant
                v@ == s,
                n == s.len(),
                pos <= k <= e <= n,
                lv@ == s.subrange(pos as int, k as int),
            decreases e - k,
        {
            lv.push(v[k]);
            proof {
                assert(s.subrange(pos as int, k + 1) =~= s.subrange(pos as int, k as int).push(
                    s[k as int],
                ));
            }
            k = k + 1;
        }
        let line_len = e - pos;
        // find the key/value separator within the line
        let mut q: usize = 2;
        while q < line_len && lv[q] != '='
            invariant
                lv@ == line,
                line_len == line.len(),
                2 <= q <= line_len,
                forall|j: int| 2 <= j < q ==> line[j] != '=',
            decreases line_len - q,
        {
            q = q + 1;
        }
        proof {
            lemma_find_char_located(line, 2, '=', q as int);
            reveal_strlit("size");
        }
        let is_size = q < line_len && q == 6 && lv[2] == 's' && lv[3] == 'i' && lv[4] == 'z'
            && lv[5] == 'e';
        proof {
            if is_size {
                assert(line.subrange(2, q as int) =~= "size"@);
            } else if q < line_len {
                if line.subrange(2, q as int) == "size"@ {
                    assert(line.subrange(2, q as int).len() == 4);
                    assert(q == 6);
                    assert(line[2] == line.subrange(2, 6)[0]);
                    assert(line[3] == line.subrange(2, 6)[1]);
                    assert(line[4] == line.subrange(2, 6)[2]);
                    assert(line[5] == line.subrange(2, 6)[3]);
                    assert(false);
                }
            }
        }
        let acc2 = if is_size {
            let r = parse_control_value(&lv, q + 1, line_len);
            proof {
                assert(line.subrange(q + 1, line_len as int) =~= lv@.subrange(
                    q + 1,
                    line_len as int,
                ));
            }
            r
        } else {
            acc
        };
        proof {
            assert(acc2 as int == directive_update(line, acc as int));
            assert(find_char(s, pos as int, '\n') == e as int);
            if e < n {
                assert(control_from(s, pos as int, acc as int) == control_from(
                    s,
                    e + 1,
                    acc2 as int,
                ));
            } else {
                assert(control_from(s, pos as int, acc as int) == acc2 as int);
            }
        }
        if e >= n {
            return acc2;
        }
        pos = e + 1;
        acc = acc2;
    }
}

/// Resolves the tape length for `code` under the size control `control`.
pub fn resolve_tape_size(control: i64, code: &str) -> (size: u128)
    ensures
        size as nat == spec_tape_size(control as int, code@),
        size >= 1,
{
    if control >= 1 {
        return control as u128;
    }
    if control == 0 {
        return DEFAULT_TAPE_CELLS;
    }
    let v = crate::source::chars_of(code);
    let gt = crate::source::count_symbol(&v, '>');
    let lt = crate::source::count_symbol(&v, '<');
    let d: i128 = gt as i128 - lt as i128 + 1;
    if d < 1 {
        1
    } else {
        d as u128
    }
}

} // verus!
