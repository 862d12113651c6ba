use bfasm::codegen::compile;
use bfasm::codegen::CompileError;

const PROLOGUE_30000: &str =
    "section .bss\n   tape resb 30000\nsection .text\n    global _start\n_start:\n    mov rbx, 0\n";
const EPILOGUE: &str = "\n_end:\n    mov rax, 60\n    mov rdi, 0\n    syscall\n";
const PRINT_ROUTINE: &str =
    "_print:\n    mov rax, 1\n    mov rdi, 1\n    lea rsi, [tape+rbx]\n    mov rdx, 1\n    syscall\n    ret\n";
const INPUT_ROUTINE: &str =
    "_input:\n    mov rax, 0\n    mov rdi, 0\n    lea rsi, [tape+rbx]\n    mov rdx, 1\n    syscall\n    ret\n";

fn count_occurrences(haystack: &str, needle: &str) -> usize {
    haystack.matches(needle).count()
}

#[test]
fn empty_source_exact_output() {
    let out = compile("").unwrap();
    let expected = format!("{}skip0:\n{}", PROLOGUE_30000, EPILOGUE);
    assert_eq!(out.assembly, expected);
    assert_eq!(out.unmatched_opens, 0);
}

#[test]
fn single_increment_exact_output() {
    let out = compile("+").unwrap();
    let expected = format!(
        "{}    inc byte tape[rbx]\nskip0:\n{}",
        PROLOGUE_30000, EPILOGUE
    );
    assert_eq!(out.assembly, expected);
    assert_eq!(out.unmatched_opens, 0);
}

#[test]
fn pointer_moves_allocate_wraparound_labels() {
    let out = compile("><").unwrap();
    let expected = format!(
        "{}    cmp rbx, 30000\n    jne skip0\n    mov rbx, 0\n    skip0: \n    inc rbx\n    cmp rbx, 0\n    jne skip1\n    mov rbx, 30000\n    skip1: \n    dec rbx\nskip2:\n{}",
        PROLOGUE_30000, EPILOGUE
    );
    assert_eq!(out.assembly, expected);
}

#[test]
fn balanced_loop_one_label_pair_no_routines() {
    // one loop-open/close pair, zero warnings, no print or input routines
    let out = compile("+++[>+<-]").unwrap();
    let text = out.assembly;
    assert_eq!(out.unmatched_opens, 0);
    assert_eq!(count_occurrences(&text, "again0: "), 1);
    assert_eq!(count_occurrences(&text, "jne again0"), 1);
    assert_eq!(count_occurrences(&text, "je skip1"), 1);
    assert_eq!(count_occurrences(&text, "skip1: "), 1);
    assert_eq!(count_occurrences(&text, "again"), 2);
    assert!(!text.contains("_print"));
    assert!(!text.contains("_input"));
}

#[test]
fn balanced_loop_exact_output() {
    let out = compile("[-]").unwrap();
    let expected = format!(
        "{}again0: \n    cmp byte tape[rbx], 0\n    je skip1\n    dec byte tape[rbx]\n    cmp byte tape[rbx], 0\n    jne again0\nskip1: \n{}",
        PROLOGUE_30000, EPILOGUE
    );
    assert_eq!(out.assembly, expected);
}

#[test]
fn print_and_input_routines_appear_once() {
    let out = compile(".,").unwrap();
    let text = out.assembly;
    assert_eq!(count_occurrences(&text, PRINT_ROUTINE), 1);
    assert_eq!(count_occurrences(&text, INPUT_ROUTINE), 1);
    assert_eq!(count_occurrences(&text, "    call _print\n"), 1);
    assert_eq!(count_occurrences(&text, "    call _input\n"), 1);
}

#[test]
fn repeated_print_input_still_one_routine_body_each() {
    let out = compile("..,,..,").unwrap();
    let text = out.assembly;
    assert_eq!(count_occurrences(&text, PRINT_ROUTINE), 1);
    assert_eq!(count_occurrences(&text, INPUT_ROUTINE), 1);
    assert_eq!(count_occurrences(&text, "    call _print\n"), 4);
    assert_eq!(count_occurrences(&text, "    call _input\n"), 3);
}

#[test]
fn print_only_no_input_routine() {
    let out = compile(".").unwrap();
    assert!(out.assembly.contains(PRINT_ROUTINE));
    assert!(!out.assembly.contains("_input"));
}

#[test]
fn unmatched_close_fails_with_exact_position() {
    let r = compile("]");
    assert_eq!(r.err().unwrap(), CompileError::UnmatchedLoopClose { pos: 0 });
}

#[test]
fn unmatched_close_position_counts_all_characters() {
    let r = compile("+x[]]");
    assert_eq!(r.err().unwrap(), CompileError::UnmatchedLoopClose { pos: 4 });
}

#[test]
fn unmatched_open_warns_exactly_one() {
    let out = compile("[").unwrap();
    assert_eq!(out.unmatched_opens, 1);
}

#[test]
fn two_unmatched_opens_warn_two() {
    let out = compile("[[]").unwrap();
    assert_eq!(out.unmatched_opens, 1);
    let out = compile("[[").unwrap();
    assert_eq!(out.unmatched_opens, 2);
}

#[test]
fn unmatched_open_output_still_complete() {
    // translation succeeds: prologue, loop open, synthetic label, epilogue
    let out = compile("[").unwrap();
    let expected = format!(
        "{}again0: \n    cmp byte tape[rbx], 0\n    je skip1\nskip2:\n{}",
        PROLOGUE_30000, EPILOGUE
    );
    assert_eq!(out.assembly, expected);
}

#[test]
fn synthetic_label_absent_once_a_loop_closed() {
    let out = compile("[]").unwrap();
    assert!(!out.assembly.contains("skip2"));
    assert_eq!(count_occurrences(&out.assembly, "skip1: "), 1);
}

#[test]
fn nesting_beyond_stack_bound_is_reported() {
    let src = "[".repeat(129);
    let r = compile(&src);
    assert_eq!(r.err().unwrap(), CompileError::LabelStackOverflow);
}

#[test]
fn nesting_at_stack_bound_succeeds() {
    let src = "[".repeat(128);
    let out = compile(&src).unwrap();
    assert_eq!(out.unmatched_opens, 128);
}

#[test]
fn deep_balanced_nesting_succeeds() {
    let mut src = "[".repeat(128);
    src.push_str(&"]".repeat(128));
    let out = compile(&src).unwrap();
    assert_eq!(out.unmatched_opens, 0);
}

#[test]
fn translation_is_deterministic() {
    let src = "#@size=77\n+++[>+<-].,[[]]++";
    let a = compile(src).unwrap();
    let b = compile(src).unwrap();
    assert_eq!(a.assembly, b.assembly);
    assert_eq!(a.unmatched_opens, b.unmatched_opens);
}

#[test]
fn comment_characters_emit_nothing() {
    let plain = compile("+").unwrap();
    let commented = compile("hello +world").unwrap();
    assert_eq!(plain.assembly, commented.assembly);
}

#[test]
fn size_directive_sets_tape_length() {
    let out = compile("#@size=100\n+").unwrap();
    assert!(out.assembly.contains("tape resb 100\n"));
    assert!(!out.assembly.contains("30000"));
}

#[test]
fn no_directive_uses_default_tape_length() {
    let out = compile("+").unwrap();
    assert!(out.assembly.contains("tape resb 30000\n"));
}

#[test]
fn non_numeric_size_directive_auto_computes() {
    // auto-compute: pointer increments minus decrements plus one
    let out = compile("#@size=zzz\n>>>").unwrap();
    assert!(out.assembly.contains("tape resb 4\n"));
}

#[test]
fn directive_size_appears_in_wraparound_comparisons() {
    let out = compile("#@size=9\n><").unwrap();
    assert!(out.assembly.contains("    cmp rbx, 9\n"));
    assert!(out.assembly.contains("    mov rbx, 9\n"));
    assert!(out.assembly.contains("tape resb 9\n"));
}

#[test]
fn auto_compute_clamps_to_one_cell() {
    let out = compile("#@size=-1\n<<<").unwrap();
    assert!(out.assembly.contains("tape resb 1\n"));
}
