//! Properties of the scan, proved over the model in [`crate::codegen`]:
//! label counts of balanced programs, strict monotonicity of allocated label
//! ids, exact error positions for unmatched loop-closes, the warning count
//! for unmatched loop-opens, and determinism of the whole translation.

use crate::codegen::CompileError;
use crate::codegen::Frag;
use crate::codegen::ScanState;
use crate::codegen::final_frags;
use crate::codegen::init_scan_state;
use crate::codegen::lemma_scan_error_persists;
use crate::codegen::scan_step;
use crate::codegen::spec_compile;
use crate::codegen::spec_scan;
use crate::codegen::spec_scan_prefix;
use crate::source::count_char;
use crate::source::lemma_count_char_take;
use vstd::prelude::*;

verus! {

/// How many loop-open fragments (each defining one `again` label) a
/// fragment sequence holds.
pub open spec fn count_loop_opens(fs: Seq<Frag>) -> nat
    decreases fs.len(),
{
    if fs.len() == 0 {
        0
    } else {
        count_loop_opens(fs.drop_last()) + if fs.last() is LoopOpen {
            1nat
        } else {
            0nat
        }
    }
}

/// How many loop-close fragments (each defining one `skip` label) a
/// fragment sequence holds.
pub open spec fn count_loop_closes(fs: Seq<Frag>) -> nat
    decreases fs.len(),
{
    if fs.len() == 0 {
        0
    } else {
        count_loop_closes(fs.drop_last()) + if fs.last() is LoopClose {
            1nat
        } else {
            0nat
        }
    }
}

/// Loop-opens minus loop-closes over a piece of source text.
pub open spec fn raw_depth(s: Seq<char>) -> int {
    count_char(s, '[') - count_char(s, ']')
}

/// A `]` at index `i` with no unmatched `[` before it.
pub open spec fn unmatched_close_at(s: Seq<char>, i: int) -> bool {
    s[i] == ']' && raw_depth(s.take(i)) == 0
}

/// No unmatched loop-close occurs before index `i`.
pub open spec fn no_unmatched_close_before(s: Seq<char>, i: int) -> bool {
    forall|j: int| 0 <= j < i ==> !unmatched_close_at(s, j)
}

/// Every loop-open before index `i` opens at nesting depth below `cap`.
pub open spec fn nesting_within(s: Seq<char>, i: int, cap: nat) -> bool {
    forall|j: int| 0 <= j < i && s[j] == '[' ==> raw_depth(#[trigger] s.take(j)) < cap
}

proof fn lemma_count_opens_push(fs: Seq<Frag>, f: Frag)
    ensures
        count_loop_opens(fs.push(f)) == count_loop_opens(fs) + if f is LoopOpen {
            1nat
        } else {
            0nat
        },
        count_loop_closes(fs.push(f)) == count_loop_closes(fs) + if f is LoopClose {
            1nat
        } else {
            0nat
        },
{
    assert(fs.push(f).drop_last() =~= fs);
    assert(fs.push(f).last() == f);
}

/// While no unmatched close occurs and nesting stays within the bound, the
/// scan of a prefix succeeds, its pending stack is exactly as deep as the
/// prefix's surplus of loop-opens, and it has generated one loop-open
/// fragment per `[` and one loop-close fragment per `]`.
pub proof fn lemma_scan_ok_prefix(src: Seq<char>, cap: nat, k: int)
    requires
        0 <= k <= src.len(),
        no_unmatched_close_before(src, k),
        nesting_within(src, k, cap),
    ensures
        spec_scan_prefix(src, cap, k) is Ok,
        spec_scan_prefix(src, cap, k)->Ok_0.pending.len() == raw_depth(src.take(k)),
        count_loop_opens(spec_scan_prefix(src, cap, k)->Ok_0.frags) == count_char(
            src.take(k),
            '[',
        ),
        count_loop_closes(spec_scan_prefix(src, cap, k)->Ok_0.frags) == count_char(
            src.take(k),
            ']',
        ),
    decreases k,
{
    if k <= 0 {
        assert(src.take(0) =~= Seq::<char>::empty());
    } else {
        lemma_scan_ok_prefix(src, cap, k - 1);
        let st = spec_scan_prefix(src, cap, k - 1)->Ok_0;
        let c = src[k - 1];
        lemma_count_char_take(src, '[', k - 1);
        lemma_count_char_take(src, ']', k - 1);
        assert(spec_scan_prefix(src, cap, k) == scan_step(st, c, k - 1, cap));
        if c == '[' {
            assert(raw_depth(src.take(k - 1)) < cap);
            lemma_count_opens_push(st.frags, Frag::LoopOpen { again: st.next_id, skip: st.next_id + 1 });
        } else if c == ']' {
            assert(!unmatched_close_at(src, k - 1));
            assert(raw_depth(src.take(k - 1)) != 0);
            assert(st.pending.len() > 0);
            lemma_count_opens_push(
                st.frags,
                Frag::LoopClose { again: st.pending.last().0, skip: st.pending.last().1 },
            );
        } else {
            if c == '+' {
                lemma_count_opens_push(st.frags, Frag::CellInc);
            } else if c == '-' {
                lemma_count_opens_push(st.frags, Frag::CellDec);
            } else if c == '>' {
                lemma_count_opens_push(st.frags, Frag::MoveRight { id: st.next_id });
            } else if c == '<' {
                lemma_count_opens_push(st.frags, Frag::MoveLeft { id: st.next_id });
            } else if c == '.' {
                lemma_count_opens_push(st.frags, Frag::Print);
            } else if c == ',' {
                lemma_count_opens_push(st.frags, Frag::Input);
            }
        }
    }
}

/// For a fully balanced program — no unmatched loop-close, no unmatched
/// loop-open, nesting within the bound — translation succeeds and the number
/// of `again` labels (one per loop-open fragment) equals the number of
/// `skip` labels from loop-closes (one per loop-close fragment) equals the
/// number of loop-open instructions in the source.
pub proof fn lemma_balanced_label_counts(src: Seq<char>, cap: nat)
    requires
        no_unmatched_close_before(src, src.len() as int),
        nesting_within(src, src.len() as int, cap),
        raw_depth(src) == 0,
    ensures
        spec_scan(src, cap) is Ok,
        count_loop_opens(final_frags(spec_scan(src, cap)->Ok_0)) == count_char(src, '['),
        count_loop_closes(final_frags(spec_scan(src, cap)->Ok_0)) == count_char(src, '['),
        count_char(src, '[') == count_char(src, ']'),
{
    lemma_scan_ok_prefix(src, cap, src.len() as int);
    assert(src.take(src.len() as int) =~= src);
    let st = spec_scan(src, cap)->Ok_0;
    if !st.closed_any {
        lemma_count_opens_push(st.frags, Frag::Synthetic { id: st.next_id });
    }
}

/// The fresh label ids a fragment consumes, in allocation order.
pub open spec fn frag_fresh_ids(f: Frag) -> Seq<nat> {
    match f {
        Frag::CellInc => Seq::empty(),
        Frag::CellDec => Seq::empty(),
        Frag::MoveRight { id } => seq![id],
        Frag::MoveLeft { id } => seq![id],
        Frag::Print => Seq::empty(),
        Frag::Input => Seq::empty(),
        Frag::LoopOpen { again, skip } => seq![again, skip],
        Frag::LoopClose { .. } => Seq::empty(),
        Frag::Synthetic { id } => seq![id],
    }
}

/// All fresh label ids of a fragment sequence, in allocation order.
/// (Loop-close fragments reuse the ids their loop-open allocated.)
pub open spec fn alloc_ids(fs: Seq<Frag>) -> Seq<nat>
    decreases fs.len(),
{
    if fs.len() == 0 {
        Seq::empty()
    } else {
        alloc_ids(fs.drop_last()) + frag_fresh_ids(fs.last())
    }
}

/// The ids 0, 1, ..., n-1 in order.
pub open spec fn id_seq(n: nat) -> Seq<nat> {
    Seq::new(n, |i: int| i as nat)
}

proof fn lemma_alloc_ids_push(fs: Seq<Frag>, f: Frag)
    ensures
        alloc_ids(fs.push(f)) == alloc_ids(fs) + frag_fresh_ids(f),
{
    assert(fs.push(f).drop_last() =~= fs);
    assert(fs.push(f).last() == f);
}

/// Whenever a prefix scans successfully, the fresh ids allocated so far are
/// exactly 0 .. next_id, in order.
pub proof fn lemma_scan_ids_prefix(src: Seq<char>, cap: nat, k: int)
    requires
        0 <= k <= src.len(),
        spec_scan_prefix(src, cap, k) is Ok,
    ensures
        alloc_ids(spec_scan_prefix(src, cap, k)->Ok_0.frags) == id_seq(
            spec_scan_prefix(src, cap, k)->Ok_0.next_id,
        ),
    decreases k,
{
    if k <= 0 {
        assert(alloc_ids(init_scan_state().frags) =~= id_seq(0));
    } else {
        assert(spec_scan_prefix(src, cap, k - 1) is Ok);
        lemma_scan_ids_prefix(src, cap, k - 1);
        let st = spec_scan_prefix(src, cap, k - 1)->Ok_0;
        let c = src[k - 1];
        assert(spec_scan_prefix(src, cap, k) == scan_step(st, c, k - 1, cap));
        if c == '>' {
            lemma_alloc_ids_push(st.frags, Frag::MoveRight { id: st.next_id });
            assert(id_seq(st.next_id) + seq![st.next_id] =~= id_seq(st.next_id + 1));
        } else if c == '<' {
            lemma_alloc_ids_push(st.frags, Frag::MoveLeft { id: st.next_id });
            assert(id_seq(st.next_id) + seq![st.next_id] =~= id_seq(st.next_id + 1));
        } else if c == '[' {
            lemma_alloc_ids_push(
                st.frags,
                Frag::LoopOpen { again: st.next_id, skip: st.next_id + 1 },
            );
            assert(id_seq(st.next_id) + seq![st.next_id, (st.next_id + 1) as nat] =~= id_seq(
                st.next_id + 2,
            ));
        } else if c == '+' {
            lemma_alloc_ids_push(st.frags, Frag::CellInc);
            assert(alloc_ids(st.frags) + Seq::<nat>::empty() =~= alloc_ids(st.frags));
        } else if c == '-' {
            lemma_alloc_ids_push(st.frags, Frag::CellDec);
            assert(alloc_ids(st.frags) + Seq::<nat>::empty() =~= alloc_ids(st.frags));
        } else if c == '.' {
            lemma_alloc_ids_push(st.frags, Frag::Print);
            assert(alloc_ids(st.frags) + Seq::<nat>::empty() =~= alloc_ids(st.frags));
        } else if c == ',' {
            lemma_alloc_ids_push(st.frags, Frag::Input);
            assert(alloc_ids(st.frags) + Seq::<nat>::empty() =~= alloc_ids(st.frags));
        } else if c == ']' {
            lemma_alloc_ids_push(
                st.frags,
                Frag::LoopClose { again: st.pending.last().0, skip: st.pending.last().1 },
            );
            assert(alloc_ids(st.frags) + Seq::<nat>::empty() =~= alloc_ids(st.frags));
        }
    }
}

/// Label ids are strictly increasing, hence unique, across one translation,
/// for any input whose scan succeeds: the fresh ids of the generated
/// fragments, in allocation order, are exactly 0, 1, 2, ...
pub proof fn lemma_label_ids_strictly_increasing(src: Seq<char>, cap: nat)
    requires
        spec_scan(src, cap) is Ok,
    ensures
        ({
            let ids = alloc_ids(final_frags(spec_scan(src, cap)->Ok_0));
            forall|i: int, j: int| 0 <= i < j < ids.len() ==> ids[i] < ids[j]
        }),
{
    lemma_scan_ids_prefix(src, cap, src.len() as int);
    let st = spec_scan(src, cap)->Ok_0;
    if !st.closed_any {
        lemma_alloc_ids_push(st.frags, Frag::Synthetic { id: st.next_id });
        assert(id_seq(st.next_id) + seq![st.next_id] =~= id_seq(st.next_id + 1));
    } else {
        assert(alloc_ids(final_frags(st)) == id_seq(st.next_id));
    }
}

/// A `]` with no preceding unmatched `[` (reached without an earlier error)
/// fails the whole translation with `UnmatchedLoopClose` reporting exactly
/// that character's index.
pub proof fn lemma_unmatched_close_reported(src: Seq<char>, cap: nat, i: int)
    requires
        0 <= i < src.len(),
        unmatched_close_at(src, i),
        no_unmatched_close_before(src, i),
        nesting_within(src, i, cap),
    ensures
        spec_compile(src, cap) == Err::<(Seq<char>, nat), CompileError>(
            CompileError::UnmatchedLoopClose { pos: i as usize },
        ),
{
    lemma_scan_ok_prefix(src, cap, i);
    let st = spec_scan_prefix(src, cap, i)->Ok_0;
    assert(spec_scan_prefix(src, cap, i + 1) == scan_step(st, src[i], i, cap));
    assert(spec_scan_prefix(src, cap, i + 1) == Err::<ScanState, CompileError>(
        CompileError::UnmatchedLoopClose { pos: i as usize },
    ));
    lemma_scan_error_persists(src, cap, i + 1, src.len() as int);
}

/// Unmatched loop-opens do not fail the translation: with no unmatched close
/// and nesting within the bound, translation succeeds and warns with exactly
/// the number of loops still open at the end of the source.
pub proof fn lemma_unmatched_opens_warned(src: Seq<char>, cap: nat)
    requires
        no_unmatched_close_before(src, src.len() as int),
        nesting_within(src, src.len() as int, cap),
    ensures
        spec_compile(src, cap) is Ok,
        raw_depth(src) >= 0,
        spec_compile(src, cap)->Ok_0.1 == raw_depth(src),
{
    lemma_scan_ok_prefix(src, cap, src.len() as int);
    assert(src.take(src.len() as int) =~= src);
}

/// Translating identical source text twice produces identical output,
/// byte for byte: the translation is a function of the source text alone.
pub proof fn lemma_translation_deterministic(s1: Seq<char>, s2: Seq<char>, cap: nat)
    requires
        s1 == s2,
    ensures
        spec_compile(s1, cap) == spec_compile(s2, cap),
{
}

} // verus!
