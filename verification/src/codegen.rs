//! The code generator: one left-to-right pass over the source characters,
//! resolving nested loops into paired branch labels and deciding which
//! runtime routines the emitted program needs.
//!
//! The scan is modeled by [`spec_scan`], which produces the ordered sequence
//! of generated fragments ([`Frag`]) together with the label counter, the
//! pending loop pairs, and the routine flags; [`spec_compile`] turns that
//! into the final assembly text. [`compile`] returns exactly what the model
//! says, for every input.

use crate::builder::builder_new;
use crate::builder::builder_append;
use crate::builder::builder_string;
use crate::builder::builder_text;
use crate::builder::builder_wf;
use crate::decimal::dec_digits;
use crate::decimal::format_u128;
use crate::emit::again_label_text;
use crate::emit::append_again_label;
use crate::emit::append_epilogue;
use crate::emit::append_prologue;
use crate::emit::append_routines;
use crate::emit::append_skip_label;
use crate::emit::append_synthetic_label;
use crate::emit::epilogue_text;
use crate::emit::prologue_text;
use crate::emit::routines_text;
use crate::emit::skip_label_text;
use crate::emit::synthetic_label_text;
use crate::labels::DEFAULT_MAX_DEPTH;
use crate::labels::LabelAllocator;
use crate::labels::LabelPair;
use crate::source::chars_of;
use crate::tape::parse_directives;
use crate::tape::resolve_tape_size;
use crate::tape::spec_size_control;
use crate::tape::spec_tape_size;
use crate::tokens::get_token_map;
use crate::tokens::inc_text;
use crate::tokens::dec_text;
use crate::tokens::input_text;
use crate::tokens::loop_close_text;
use crate::tokens::loop_open_text;
use crate::tokens::move_left_text;
use crate::tokens::move_right_text;
use crate::tokens::print_text;
use vstd::prelude::*;

verus! {

/// Why a translation failed. Unmatched loop-opens are not here: they are a
/// warning on a successful translation, not an error.
#[derive(Clone, Copy, Debug, PartialEq, Eq, Structural)]
pub enum CompileError {
    /// A `]` with no open loop to close, at this character index.
    UnmatchedLoopClose { pos: usize },
    /// Loop nesting exceeded the bounded label stack.
    LabelStackOverflow,
}

/// A successful translation: the assembly text and the count of loops still
/// open at the end of the source (0 means none; any other count is the
/// unmatched-loop-open warning).
pub struct CompileOutput {
    pub assembly: String,
    pub unmatched_opens: usize,
}

/// One generated fragment, in source order.
pub enum Frag {
    /// `+`
    CellInc,
    /// `-`
    CellDec,
    /// `>`, with its wraparound branch label
    MoveRight { id: nat },
    /// `<`, with its wraparound branch label
    MoveLeft { id: nat },
    /// `.`
    Print,
    /// `,`
    Input,
    /// `[`, with the pair of labels it allocated
    LoopOpen { again: nat, skip: nat },
    /// `]`, with the pair popped from the pending stack
    LoopClose { again: nat, skip: nat },
    /// the fallback label appended when no loop-close was ever processed
    Synthetic { id: nat },
}

/// The state of the scan after some prefix of the source.
pub struct ScanState {
    /// The next unused label id.
    pub next_id: nat,
    /// The label pairs of loops opened and not yet closed, innermost last.
    pub pending: Seq<(nat, nat)>,
    /// The fragments generated so far, in order.
    pub frags: Seq<Frag>,
    /// Whether a print instruction occurred.
    pub print_used: bool,
    /// Whether an input instruction occurred.
    pub input_used: bool,
    /// Whether any loop-close was processed.
    pub closed_any: bool,
}

/// The scan state before any character.
pub open spec fn init_scan_state() -> ScanState {
    ScanState {
        next_id: 0,
        pending: Seq::empty(),
        frags: Seq::empty(),
        print_used: false,
        input_used: false,
        closed_any: false,
    }
}

/// One step of the scan: the state after processing character `c` at source
/// index `i`, under the loop-nesting bound `cap`.
pub open spec fn scan_step(st: ScanState, c: char, i: int, cap: nat) -> Result<
    ScanState,
    CompileError,
> {
    if c == '+' {
        Ok(ScanState { frags: st.frags.push(Frag::CellInc), ..st })
    } else if c == '-' {
        Ok(ScanState { frags: st.frags.push(Frag::CellDec), ..st })
    } else if c == '>' {
        Ok(
            ScanState {
                next_id: st.next_id + 1,
                frags: st.frags.push(Frag::MoveRight { id: st.next_id }),
                ..st
            },
        )
    } else if c == '<' {
        Ok(
            ScanState {
                next_id: st.next_id + 1,
                frags: st.frags.push(Frag::MoveLeft { id: st.next_id }),
                ..st
            },
        )
    } else if c == '.' {
        Ok(ScanState { frags: st.frags.push(Frag::Print), print_used: true, ..st })
    } else if c == ',' {
        Ok(ScanState { frags: st.frags.push(Frag::Input), input_used: true, ..st })
    } else if c == '[' {
        if st.pending.len() >= cap {
            Err(CompileError::LabelStackOverflow)
        } else {
            Ok(
                ScanState {
                    next_id: st.next_id + 2,
                    pending: st.pending.push((st.next_id, st.next_id + 1)),
                    frags: st.frags.push(
                        Frag::LoopOpen { again: st.next_id, skip: st.next_id + 1 },
                    ),
                    ..st
                },
            )
        }
    } else if c == ']' {
        if st.pending.len() == 0 {
            Err(CompileError::UnmatchedLoopClose { pos: i as usize })
        } else {
            Ok(
                ScanState {
                    pending: st.pending.drop_last(),
                    frags: st.frags.push(
                        Frag::LoopClose { again: st.pending.last().0, skip: st.pending.last().1 },
                    ),
                    closed_any: true,
                    ..st
                },
            )
        }
    } else {
        Ok(st)
    }
}

/// The scan state after the first `k` characters of `src`, or the error that
/// stopped the scan.
pub open spec fn spec_scan_prefix(src: Seq<char>, cap: nat, k: int) -> Result<
    ScanState,
    CompileError,
>
    decreases k when 0 <= k <= src.len()
{
    if k <= 0 {
        Ok(init_scan_state())
    } else {
        match spec_scan_prefix(src, cap, k - 1) {
            Ok(st) => scan_step(st, src[k - 1], k - 1, cap),
            Err(e) => Err(e),
        }
    }
}

/// The scan of the whole source.
pub open spec fn spec_scan(src: Seq<char>, cap: nat) -> Result<ScanState, CompileError> {
    spec_scan_prefix(src, cap, src.len() as int)
}

/// Once the scan fails, every longer prefix reports the same error.
pub proof fn lemma_scan_error_persists(src: Seq<char>, cap: nat, k: int, m: int)
    requires
        0 <= k <= m <= src.len(),
        spec_scan_prefix(src, cap, k) is Err,
    ensures
        spec_scan_prefix(src, cap, m) == spec_scan_prefix(src, cap, k),
    decreases m - k,
{
    if m > k {
        lemma_scan_error_persists(src, cap, k, m - 1);
    }
}

/// The generated fragments including the synthetic fallback label, which is
/// appended exactly when no loop-close was ever processed.
pub open spec fn final_frags(st: ScanState) -> Seq<Frag> {
    if st.closed_any {
        st.frags
    } else {
        st.frags.push(Frag::Synthetic { id: st.next_id })
    }
}

/// The assembly text one fragment contributes, for a tape of `tape` cells.
pub open spec fn frag_text(f: Frag, tape: nat) -> Seq<char> {
    match f {
        Frag::CellInc => inc_text(),
        Frag::CellDec => dec_text(),
        Frag::MoveRight { id } => move_right_text(tape, dec_digits(id)),
        Frag::MoveLeft { id } => move_left_text(tape, dec_digits(id)),
        Frag::Print => print_text(),
        Frag::Input => input_text(),
        Frag::LoopOpen { again, skip } => again_label_text(dec_digits(again)) + loop_open_text(
            dec_digits(skip),
        ),
        Frag::LoopClose { again, skip } => loop_close_text(dec_digits(again)) + skip_label_text(
            dec_digits(skip),
        ),
        Frag::Synthetic { id } => synthetic_label_text(dec_digits(id)),
    }
}

/// The assembly text of a fragment sequence, in order.
pub open spec fn frags_text(fs: Seq<Frag>, tape: nat) -> Seq<char>
    decreases fs.len(),
{
    if fs.len() == 0 {
        Seq::empty()
    } else {
        frags_text(fs.drop_last(), tape) + frag_text(fs.last(), tape)
    }
}

pub proof fn lemma_frags_text_push(fs: Seq<Frag>, f: Frag, tape: nat)
    ensures
        frags_text(fs.push(f), tape) == frags_text(fs, tape) + frag_text(f, tape),
{
    assert(fs.push(f).drop_last() =~= fs);
    assert(fs.push(f).last() == f);
}

/// The complete output text of a successful scan: prologue, fragments in
/// source order, epilogue, then each required runtime routine at most once.
pub open spec fn output_text(st: ScanState, tape: nat) -> Seq<char> {
    prologue_text(tape) + frags_text(final_frags(st), tape) + epilogue_text() + routines_text(
        st.print_used,
        st.input_used,
    )
}

/// The whole translation of `src` under the loop-nesting bound `cap`: the
/// assembly text and the count of unmatched loop-opens, or the error that
/// stopped the scan.
pub open spec fn spec_compile(src: Seq<char>, cap: nat) -> Result<(Seq<char>, nat), CompileError> {
    let tape = spec_tape_size(spec_size_control(src), src);
    match spec_scan(src, cap) {
        Ok(st) => Ok((output_text(st, tape), st.pending.len())),
        Err(e) => Err(e),
    }
}

/// The model of one pending exec stack entry.
pub open spec fn pair_view(p: LabelPair) -> (nat, nat) {
    (p.again as nat, p.skip as nat)
}

/// Translates a source program into assembly text.
///
/// On success the text is exactly what [`spec_compile`] names, and
/// `unmatched_opens` counts the loops still open at the end of the source
/// (the non-fatal warning). A `]` with no open loop, or nesting beyond the
/// default depth bound, is the error [`spec_compile`] names.
#[verifier::loop_isolation(false)]
pub fn compile(code: &str) -> (r: Result<CompileOutput, CompileError>)
    ensures
        match r {
            Ok(out) => {
                &&& spec_compile(code@, DEFAULT_MAX_DEPTH as nat) is Ok
                &&& out.assembly@ == spec_compile(code@, DEFAULT_MAX_DEPTH as nat)->Ok_0.0
                &&& out.unmatched_opens as nat == spec_compile(code@, DEFAULT_MAX_DEPTH as nat)->Ok_0.1
            },
            Err(e) => spec_compile(code@, DEFAULT_MAX_DEPTH as nat) == Err::<
                (Seq<char>, nat),
                CompileError,
            >(e),
        },
{
    let ghost src = code@;
    let ghost cap = DEFAULT_MAX_DEPTH as nat;

    // resolve the tape size before the scan
    let control = parse_directives(code);
    let tape_size = resolve_tape_size(control, code);
    let ghost tape = tape_size as nat;

    let v = chars_of(code);
    let map = get_token_map(tape_size);

    let mut b = builder_new();
    append_prologue(&mut b, tape_size);

    let mut alloc = LabelAllocator::new();
    let mut print_used = false;
    let mut input_used = false;
    let mut closed_any = false;

    let n = v.len();
    let mut i: usize = 0;
    while i < n
        invariant
            0 <= i <= n,
            spec_scan_prefix(src, cap, i as int) is Ok,
            ({
                let st = spec_scan_prefix(src, cap, i as int)->Ok_0;
                &&& alloc.next_label as nat == st.next_id
                &&& st.next_id <= 2 * i
                &&& alloc.pairs@.map_values(|p: LabelPair| pair_view(p)) == st.pending
                &&& print_used == st.print_used
                &&& input_used == st.input_used
                &&& closed_any == st.closed_any
                &&& builder_wf(b)
                &&& builder_text(b) == prologue_text(tape) + frags_text(st.frags, tape)
            }),
            alloc.wf(),
            alloc.pairs.capacity() == cap,
        decreases n - i,
    {
        let ghost st = spec_scan_prefix(src, cap, i as int)->Ok_0;
        proof {
            assert(spec_scan_prefix(src, cap, i + 1) == scan_step(st, src[i as int], i as int, cap));
            assert(alloc.pairs@.map_values(|p: LabelPair| pair_view(p)).len() == alloc.pairs@.len());
        }
        let c = v[i];
        if c == '+' {
            let frag = map.inc_cell.instantiate("");
            builder_append(&mut b, frag.as_str());
            proof {
                lemma_frags_text_push(st.frags, Frag::CellInc, tape);
                assert(builder_text(b) =~= prologue_text(tape) + frags_text(
                    st.frags.push(Frag::CellInc),
                    tape,
                ));
            }
        } else if c == '-' {
            let frag = map.dec_cell.instantiate("");
            builder_append(&mut b, frag.as_str());
            proof {
                lemma_frags_text_push(st.frags, Frag::CellDec, tape);
                assert(builder_text(b) =~= prologue_text(tape) + frags_text(
                    st.frags.push(Frag::CellDec),
                    tape,
                ));
            }
        } else if c == '>' {
            let id = alloc.allocate();
            let digits = format_u128(id);
            let frag = map.move_right.instantiate(digits.as_str());
            builder_append(&mut b, frag.as_str());
            proof {
                lemma_frags_text_push(st.frags, Frag::MoveRight { id: id as nat }, tape);
                assert(builder_text(b) =~= prologue_text(tape) + frags_text(
                    st.frags.push(Frag::MoveRight { id: id as nat }),
                    tape,
                ));
            }
        } else if c == '<' {
            let id = alloc.allocate();
            let digits = format_u128(id);
            let frag = map.move_left.instantiate(digits.as_str());
            builder_append(&mut b, frag.as_str());
            proof {
                lemma_frags_text_push(st.frags, Frag::MoveLeft { id: id as nat }, tape);
                assert(builder_text(b) =~= prologue_text(tape) + frags_text(
                    st.frags.push(Frag::MoveLeft { id: id as nat }),
                    tape,
                ));
            }
        } else if c == '.' {
            let frag = map.print.instantiate("");
            builder_append(&mut b, frag.as_str());
            print_used = true;
            proof {
                lemma_frags_text_push(st.frags, Frag::Print, tape);
                assert(builder_text(b) =~= prologue_text(tape) + frags_text(
                    st.frags.push(Frag::Print),
                    tape,
                ));
            }
        } else if c == ',' {
            let frag = map.input.instantiate("");
            builder_append(&mut b, frag.as_str());
            input_used = true;
            proof {
                lemma_frags_text_push(st.frags, Frag::Input, tape);
                assert(builder_text(b) =~= prologue_text(tape) + frags_text(
                    st.frags.push(Frag::Input),
                    tape,
                ));
            }
        } else if c == '[' {
            let again = alloc.allocate();
            let skip = alloc.allocate();
            let ok = alloc.pairs.push(LabelPair { again, skip });
            if !ok {
                proof {
                    assert(spec_scan_prefix(src, cap, i + 1) == Err::<ScanState, CompileError>(
                        CompileError::LabelStackOverflow,
                    ));
                    lemma_scan_error_persists(src, cap, i + 1, src.len() as int);
                }
                return Err(CompileError::LabelStackOverflow);
            }
            let again_digits = format_u128(again);
            append_again_label(&mut b, again_digits.as_str());
            let skip_digits = format_u128(skip);
            let frag = map.loop_open.instantiate(skip_digits.as_str());
            builder_append(&mut b, frag.as_str());
            proof {
                let f = Frag::LoopOpen { again: again as nat, skip: skip as nat };
                lemma_frags_text_push(st.frags, f, tape);
                assert(builder_text(b) =~= prologue_text(tape) + frags_text(
                    st.frags.push(f),
                    tape,
                ));
                assert(alloc.pairs@.map_values(|p: LabelPair| pair_view(p)) =~= st.pending.push(
                    (again as nat, skip as nat),
                ));
            }
        } else if c == ']' {
            let popped = alloc.pairs.pop();
            match popped {
                None => {
                    proof {
                        assert(spec_scan_prefix(src, cap, i + 1) == Err::<ScanState, CompileError>(
                            CompileError::UnmatchedLoopClose { pos: i },
                        ));
                        lemma_scan_error_persists(src, cap, i + 1, src.len() as int);
                    }
                    return Err(CompileError::UnmatchedLoopClose { pos: i });
                },
                Some(p) => {
                    proof {
                        assert(st.pending.last() == pair_view(p));
                    }
                    closed_any = true;
                    let again_digits = format_u128(p.again);
                    let frag = map.loop_close.instantiate(again_digits.as_str());
                    builder_append(&mut b, frag.as_str());
                    let skip_digits = format_u128(p.skip);
                    append_skip_label(&mut b, skip_digits.as_str());
                    proof {
                        let f = Frag::LoopClose { again: p.again as nat, skip: p.skip as nat };
                        lemma_frags_text_push(st.frags, f, tape);
                        assert(builder_text(b) =~= prologue_text(tape) + frags_text(
                            st.frags.push(f),
                            tape,
                        ));
                        assert(alloc.pairs@.map_values(|p: LabelPair| pair_view(p))
                            =~= st.pending.drop_last());
                    }
                },
            }
        } else {
            // not an instruction symbol: a comment character, skipped
        }
        i = i + 1;
    }

    let ghost st = spec_scan(src, cap)->Ok_0;
    proof {
        assert(spec_scan(src, cap) == spec_scan_prefix(src, cap, i as int));
    }

    let unmatched_opens = alloc.pairs.len();

    // keep a dangling forward reference resolvable when no close ever ran
    if !closed_any {
        let digits = format_u128(alloc.next_label);
        append_synthetic_label(&mut b, digits.as_str());
        proof {
            lemma_frags_text_push(st.frags, Frag::Synthetic { id: st.next_id }, tape);
        }
    }
    proof {
        assert(builder_text(b) =~= prologue_text(tape) + frags_text(final_frags(st), tape));
    }

    append_epilogue(&mut b);
    append_routines(&mut b, print_used, input_used);
    let assembly = builder_string(b);
    proof {
        assert(assembly@ =~= output_text(st, tape));
    }
    Ok(CompileOutput { assembly, unmatched_opens })
}

} // verus!
