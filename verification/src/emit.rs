//! The assembly emitter: the program prologue and epilogue, the optional
//! runtime routine bodies, and the label definitions the generator writes
//! around loop templates.

use crate::builder::builder_append;
use crate::builder::builder_text;
use crate::builder::builder_wf;
use crate::decimal::dec_digits;
use crate::decimal::format_u128;
use vstd::prelude::*;

verus! {

/// The program prologue: the tape storage, sized by the resolved tape
/// length, and the entry point with the pointer register initialized to 0.
pub open spec fn prologue_text(tape: nat) -> Seq<char> {
    "section .bss\n   tape resb "@ + dec_digits(tape)
        + "\nsection .text\n    global _start\n_start:\n    mov rbx, 0\n"@
}

/// The program epilogue: a clean process exit.
pub open spec fn epilogue_text() -> Seq<char> {
    "\n_end:\n    mov rax, 60\n    mov rdi, 0\n    syscall\n"@
}

/// The print runtime routine: writes the byte at the current cell through a
/// raw system call.
pub open spec fn print_routine_text() -> Seq<char> {
    "_print:\n    mov rax, 1\n    mov rdi, 1\n    lea rsi, [tape+rbx]\n    mov rdx, 1\n    syscall\n    ret\n"@
}

/// The input runtime routine: reads one byte into the current cell through a
/// raw system call.
pub open spec fn input_routine_text() -> Seq<char> {
    "_input:\n    mov rax, 0\n    mov rdi, 0\n    lea rsi, [tape+rbx]\n    mov rdx, 1\n    syscall\n    ret\n"@
}

/// The `again` label definition a loop-open emits before its template.
pub open spec fn again_label_text(d: Seq<char>) -> Seq<char> {
    "again"@ + d + ": \n"@
}

/// The `skip` label definition a loop-close emits after its template.
pub open spec fn skip_label_text(d: Seq<char>) -> Seq<char> {
    "skip"@ + d + ": \n"@
}

/// The synthetic fallback label appended when no loop-close was ever
/// processed, so a dangling forward reference stays resolvable.
pub open spec fn synthetic_label_text(d: Seq<char>) -> Seq<char> {
    "skip"@ + d + ":\n"@
}

/// The routine bodies a translation requires, each at most once: print
/// first, then input.
pub open spec fn routines_text(print_used: bool, input_used: bool) -> Seq<char> {
    (if print_used {
        print_routine_text()
    } else {
        Seq::<char>::empty()
    }) + (if input_used {
        input_routine_text()
    } else {
        Seq::<char>::empty()
    })
}

/// Writes the program prologue for a tape of `tape_size` cells.
pub fn append_prologue(b: &mut string_builder::Builder, tape_size: u128)
    requires
        builder_wf(*old(b)),
    ensures
        builder_wf(*final(b)),
        builder_text(*final(b)) == builder_text(*old(b)) + prologue_text(tape_size as nat),
{
    let digits = format_u128(tape_size);
    builder_append(b, "section .bss\n   tape resb ");
    builder_append(b, digits.as_str());
    builder_append(b, "\nsection .text\n    global _start\n_start:\n    mov rbx, 0\n");
    proof {
        assert(builder_text(*b) =~= builder_text(*old(b)) + prologue_text(tape_size as nat));
    }
}

/// Writes the program epilogue.
pub fn append_epilogue(b: &mut string_builder::Builder)
    requires
        builder_wf(*old(b)),
    ensures
        builder_wf(*final(b)),
        builder_text(*final(b)) == builder_text(*old(b)) + epilogue_text(),
{
    builder_append(b, "\n_end:\n    mov rax, 60\n    mov rdi, 0\n    syscall\n");
}

/// Writes the required runtime routine bodies, each at most once.
pub fn append_routines(b: &mut string_builder::Builder, print_used: bool, input_used: bool)
    requires
        builder_wf(*old(b)),
    ensures
        builder_wf(*final(b)),
        builder_text(*final(b)) == builder_text(*old(b)) + routines_text(print_used, input_used),
{
    if print_used {
        builder_append(
            b,
            "_print:\n    mov rax, 1\n    mov rdi, 1\n    lea rsi, [tape+rbx]\n    mov rdx, 1\n    syscall\n    ret\n",
        );
    }
    if input_used {
        builder_append(
            b,
            "_input:\n    mov rax, 0\n    mov rdi, 0\n    lea rsi, [tape+rbx]\n    mov rdx, 1\n    syscall\n    ret\n",
        );
    }
    proof {
        assert(builder_text(*b) =~= builder_text(*old(b)) + routines_text(print_used, input_used));
    }
}

/// Writes the `again` label definition for a loop-open.
pub fn append_again_label(b: &mut string_builder::Builder, digits: &str)
    requires
        builder_wf(*old(b)),
    ensures
        builder_wf(*final(b)),
        builder_text(*final(b)) == builder_text(*old(b)) + again_label_text(digits@),
{
    builder_append(b, "again");
    builder_append(b, digits);
    builder_append(b, ": \n");
    proof {
        assert(builder_text(*b) =~= builder_text(*old(b)) + again_label_text(digits@));
    }
}

/// Writes the `skip` label definition for a loop-close.
pub fn append_skip_label(b: &mut string_builder::Builder, digits: &str)
    requires
        builder_wf(*old(b)),
    ensures
        builder_wf(*final(b)),
        builder_text(*final(b)) == builder_text(*old(b)) + skip_label_text(digits@),
{
    builder_append(b, "skip");
    builder_append(b, digits);
    builder_append(b, ": \n");
    proof {
        assert(builder_text(*b) =~= builder_text(*old(b)) + skip_label_text(digits@));
    }
}

/// Writes the synthetic fallback label.
pub fn append_synthetic_label(b: &mut string_builder::Builder, digits: &str)
    requires
        builder_wf(*old(b)),
    ensures
        builder_wf(*final(b)),
        builder_text(*final(b)) == builder_text(*old(b)) + synthetic_label_text(digits@),
{
    builder_append(b, "skip");
    builder_append(b, digits);
    builder_append(b, ":\n");
    proof {
        assert(builder_text(*b) =~= builder_text(*old(b)) + synthetic_label_text(digits@));
    }
}

} // verus!
