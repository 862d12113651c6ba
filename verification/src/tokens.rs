//! The token mapper: the fixed mapping from each of the eight instruction
//! symbols to an assembly template.
//!
//! A template is a list of pieces; a piece is either literal text or a slot
//! for a branch-label id. Pointer-move templates carry one label slot (their
//! wraparound branch target, written twice) and the resolved tape size as
//! literal text; loop-open and loop-close templates carry one slot each
//! (their other label is emitted by the generator as a label definition);
//! the remaining templates are fixed text.

use crate::decimal::dec_digits;
use crate::decimal::format_u128;
use vstd::prelude::*;

verus! {

/// One piece of a template: literal text, or the slot where the label id of
/// the instruction being generated is written.
pub enum Piece {
    Lit(String),
    Label,
}

/// The text a piece contributes once the label id is rendered as `d`.
pub open spec fn piece_text(p: Piece, d: Seq<char>) -> Seq<char> {
    match p {
        Piece::Lit(s) => s@,
        Piece::Label => d,
    }
}

/// The text a list of pieces contributes, in order.
pub open spec fn pieces_text(ps: Seq<Piece>, d: Seq<char>) -> Seq<char>
    decreases ps.len(),
{
    if ps.len() == 0 {
        Seq::empty()
    } else {
        pieces_text(ps.drop_last(), d) + piece_text(ps.last(), d)
    }
}

/// An assembly template for one instruction symbol.
pub struct Template {
    pub pieces: Vec<Piece>,
}

impl Template {
    /// The text of this template once the label id is rendered as `d`.
    pub open spec fn text(&self, d: Seq<char>) -> Seq<char> {
        pieces_text(self.pieces@, d)
    }

    /// The empty template.
    pub fn empty() -> (t: Template)
        ensures
            forall|d: Seq<char>| #[trigger] t.text(d) == Seq::<char>::empty(),
    {
        Template { pieces: Vec::new() }
    }

    /// Extends this template with literal text.
    pub fn lit(self, s: &str) -> (t: Template)
        ensures
            forall|d: Seq<char>| #[trigger] t.text(d) == self.text(d) + s@,
    {
        let ghost before = self.pieces@;
        let mut pieces = self.pieces;
        pieces.push(Piece::Lit(String::from_str(s)));
        let t = Template { pieces };
        proof {
            assert forall|d: Seq<char>| #[trigger] t.text(d) == pieces_text(before, d) + s@ by {
                assert(t.pieces@.drop_last() =~= before);
            }
        }
        t
    }

    /// Extends this template with a label slot.
    pub fn label(self) -> (t: Template)
        ensures
            forall|d: Seq<char>| #[trigger] t.text(d) == self.text(d) + d,
    {
        let ghost before = self.pieces@;
        let mut pieces = self.pieces;
        pieces.push(Piece::Label);
        let t = Template { pieces };
        proof {
            assert forall|d: Seq<char>| #[trigger] t.text(d) == pieces_text(before, d) + d by {
                assert(t.pieces@.drop_last() =~= before);
            }
        }
        t
    }

    /// Writes this template onto `out` with `label_digits` in every label slot.
    pub fn append_to(&self, out: &mut String, label_digits: &str)
        ensures
            final(out)@ == old(out)@ + self.text(label_digits@),
    {
        let n = self.pieces.len();
        let ghost start = old(out)@;
        for i in 0..n
            invariant
                n == self.pieces@.len(),
                out@ == start + pieces_text(self.pieces@.take(i as int), label_digits@),
        {
            proof {
                assert(self.pieces@.take(i + 1).drop_last() =~= self.pieces@.take(i as int));
                assert(self.pieces@.take(i + 1).last() == self.pieces@[i as int]);
            }
            match &self.pieces[i] {
                Piece::Lit(s) => out.append(s.as_str()),
                Piece::Label => out.append(label_digits),
            }
        }
        proof {
            assert(self.pieces@.take(n as int) =~= self.pieces@);
        }
    }

    /// The text of this template with `label_digits` in every label slot.
    pub fn instantiate(&self, label_digits: &str) -> (r: String)
        ensures
            r@ == self.text(label_digits@),
    {
        let mut r = String::new();
        self.append_to(&mut r, label_digits);
        proof {
            assert(Seq::<char>::empty() + self.text(label_digits@) =~= self.text(label_digits@));
        }
        r
    }
}

/// Template text for the cell-increment instruction.
pub open spec fn inc_text() -> Seq<char> {
    "    inc byte tape[rbx]\n"@
}

/// Template text for the cell-decrement instruction.
pub open spec fn dec_text() -> Seq<char> {
    "    dec byte tape[rbx]\n"@
}

/// Template text for the pointer-increment instruction: wraps to cell 0 at
/// the tape's upper bound, branching over the wrap via its `skip` label.
pub open spec fn move_right_text(tape: nat, d: Seq<char>) -> Seq<char> {
    "    cmp rbx, "@ + dec_digits(tape) + "\n    jne skip"@ + d + "\n    mov rbx, 0\n    skip"@
        + d + ": \n    inc rbx\n"@
}

/// Template text for the pointer-decrement instruction: wraps to the tape's
/// upper bound at cell 0, branching over the wrap via its `skip` label.
pub open spec fn move_left_text(tape: nat, d: Seq<char>) -> Seq<char> {
    "    cmp rbx, 0\n    jne skip"@ + d + "\n    mov rbx, "@ + dec_digits(tape) + "\n    skip"@
        + d + ": \n    dec rbx\n"@
}

/// Template text for the print instruction: a fixed runtime-routine call.
pub open spec fn print_text() -> Seq<char> {
    "    call _print\n"@
}

/// Template text for the input instruction: a fixed runtime-routine call.
pub open spec fn input_text() -> Seq<char> {
    "    call _input\n"@
}

/// Template text for loop-open: branch to its `skip` label when the current
/// cell is zero. (The generator emits the `again` label definition before it.)
pub open spec fn loop_open_text(d: Seq<char>) -> Seq<char> {
    "    cmp byte tape[rbx], 0\n    je skip"@ + d + "\n"@
}

/// Template text for loop-close: branch back to the matching `again` label
/// while the current cell is non-zero. (The generator emits the `skip` label
/// definition after it.)
pub open spec fn loop_close_text(d: Seq<char>) -> Seq<char> {
    "    cmp byte tape[rbx], 0\n    jne again"@ + d + "\n"@
}

/// The mapping from instruction symbols to templates, fixed for one
/// translation once the tape size is resolved.
pub struct TokenMap {
    pub inc_cell: Template,
    pub dec_cell: Template,
    pub move_right: Template,
    pub move_left: Template,
    pub print: Template,
    pub input: Template,
    pub loop_open: Template,
    pub loop_close: Template,
}

impl TokenMap {
    /// Each template renders as the text its symbol stands for, with the
    /// resolved tape size `tape` in the wraparound comparisons.
    pub open spec fn wf(&self, tape: nat) -> bool {
        &&& forall|d: Seq<char>| #[trigger] self.inc_cell.text(d) == inc_text()
        &&& forall|d: Seq<char>| #[trigger] self.dec_cell.text(d) == dec_text()
        &&& forall|d: Seq<char>| #[trigger] self.move_right.text(d) == move_right_text(tape, d)
        &&& forall|d: Seq<char>| #[trigger] self.move_left.text(d) == move_left_text(tape, d)
        &&& forall|d: Seq<char>| #[trigger] self.print.text(d) == print_text()
        &&& forall|d: Seq<char>| #[trigger] self.input.text(d) == input_text()
        &&& forall|d: Seq<char>| #[trigger] self.loop_open.text(d) == loop_open_text(d)
        &&& forall|d: Seq<char>| #[trigger] self.loop_close.text(d) == loop_close_text(d)
    }

    /// The template for an instruction symbol; `None` for every other
    /// character, which the generator treats as a no-op.
    pub fn get(&self, c: char) -> (r: Option<&Template>)
        ensures
            c == '+' ==> r == Some(&self.inc_cell),
            c == '-' ==> r == Some(&self.dec_cell),
            c == '>' ==> r == Some(&self.move_right),
            c == '<' ==> r == Some(&self.move_left),
            c == '.' ==> r == Some(&self.print),
            c == ',' ==> r == Some(&self.input),
            c == '[' ==> r == Some(&self.loop_open),
            c == ']' ==> r == Some(&self.loop_close),
            !(c == '+' || c == '-' || c == '>' || c == '<' || c == '.' || c == ',' || c == '['
                || c == ']') ==> r is None,
    {
        if c == '+' {
            Some(&self.inc_cell)
        } else if c == '-' {
            Some(&self.dec_cell)
        } else if c == '>' {
            Some(&self.move_right)
        } else if c == '<' {
            Some(&self.move_left)
        } else if c == '.' {
            Some(&self.print)
        } else if c == ',' {
            Some(&self.input)
        } else if c == '[' {
            Some(&self.loop_open)
        } else if c == ']' {
            Some(&self.loop_close)
        } else {
            None
        }
    }
}

/// Builds the token map for a translation whose resolved tape size is
/// `tape_size` cells.
pub fn get_token_map(tape_size: u128) -> (m: TokenMap)
    ensures
        m.wf(tape_size as nat),
{
    let tape_digits = format_u128(tape_size);

    let move_right = Template::empty().lit("    cmp rbx, ").lit(tape_digits.as_str()).lit(
        "\n    jne skip",
    ).label().lit("\n    mov rbx, 0\n    skip").label().lit(": \n    inc rbx\n");

    let move_left = Template::empty().lit("    cmp rbx, 0\n    jne skip").label().lit(
        "\n    mov rbx, ",
    ).lit(tape_digits.as_str()).lit("\n    skip").label().lit(": \n    dec rbx\n");

    let loop_open = Template::empty().lit("    cmp byte tape[rbx], 0\n    je skip").label().lit(
        "\n",
    );

    let loop_close = Template::empty().lit("    cmp byte tape[rbx], 0\n    jne again").label().lit(
        "\n",
    );

    let m = TokenMap {
        inc_cell: Template::empty().lit("    inc byte tape[rbx]\n"),
        dec_cell: Template::empty().lit("    dec byte tape[rbx]\n"),
        move_right,
        move_left,
        print: Template::empty().lit("    call _print\n"),
        input: Template::empty().lit("    call _input\n"),
        loop_open,
        loop_close,
    };
    proof {
        let tape = tape_size as nat;
        assert forall|d: Seq<char>| #[trigger] m.inc_cell.text(d) == inc_text() by {
            assert(m.inc_cell.text(d) =~= inc_text());
        }
        assert forall|d: Seq<char>| #[trigger] m.dec_cell.text(d) == dec_text() by {
            assert(m.dec_cell.text(d) =~= dec_text());
        }
        assert forall|d: Seq<char>| #[trigger] m.move_right.text(d) == move_right_text(tape, d) by {
            assert(m.move_right.text(d) =~= move_right_text(tape, d));
        }
        assert forall|d: Seq<char>| #[trigger] m.move_left.text(d) == move_left_text(tape, d) by {
            assert(m.move_left.text(d) =~= move_left_text(tape, d));
        }
        assert forall|d: Seq<char>| #[trigger] m.print.text(d) == print_text() by {
            assert(m.print.text(d) =~= print_text());
        }
        assert forall|d: Seq<char>| #[trigger] m.input.text(d) == input_text() by {
            assert(m.input.text(d) =~= input_text());
        }
        assert forall|d: Seq<char>| #[trigger] m.loop_open.text(d) == loop_open_text(d) by {
            assert(m.loop_open.text(d) =~= loop_open_text(d));
        }
        assert forall|d: Seq<char>| #[trigger] m.loop_close.text(d) == loop_close_text(d) by {
            assert(m.loop_close.text(d) =~= loop_close_text(d));
        }
    }
    m
}

} // verus!
