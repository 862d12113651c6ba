//! Helpers over source text: turning a source string into its characters and
//! counting instruction symbols.

use vstd::prelude::*;
use vstd::string::StrSliceExecFns;

verus! {

/// How often `t` occurs in `s`.
pub open spec fn count_char(s: Seq<char>, t: char) -> nat
    decreases s.len(),
{
    if s.len() == 0 {
        0
    } else {
        count_char(s.drop_last(), t) + if s.last() == t {
            1nat
        } else {
            0nat
        }
    }
}

/// Counting one more character adds one when it is `t`.
pub proof fn lemma_count_char_take(s: Seq<char>, t: char, i: int)
    requires
        0 <= i < s.len(),
    ensures
        count_char(s.take(i + 1), t) == count_char(s.take(i), t) + if s[i] == t {
            1nat
        } else {
            0nat
        },
{
    assert(s.take(i + 1).drop_last() =~= s.take(i));
    assert(s.take(i + 1).last() == s[i]);
}

/// The characters of `s`, in order.
pub fn chars_of(s: &str) -> (v: Vec<char>)
    ensures
        v@ == s@,
{
    let n = s.unicode_len();
    let mut v: Vec<char> = Vec::new();
    for i in 0..n
        invariant
            n == s@.len(),
            v@ == s@.take(i as int),
    {
        v.push(s.get_char(i));
        proof {
            assert(v@ =~= s@.take(i + 1));
        }
    }
    proof {
        assert(s@.take(n as int) =~= s@);
    }
    v
}

/// How often `t` occurs in `v`.
pub fn count_symbol(v: &Vec<char>, t: char) -> (n: usize)
    ensures
        n == count_char(v@, t),
{
    let len = v.len();
    let mut n: usize = 0;
    for i in 0..len
        invariant
            len == v@.len(),
            n == count_char(v@.take(i as int), t),
            n <= i,
    {
        proof {
            lemma_count_char_take(v@, t, i as int);
        }
        if v[i] == t {
            n = n + 1;
        }
    }
    proof {
        assert(v@.take(len as int) =~= v@);
    }
    n
}

} // verus!
