use bfasm::config::get_target_config;
use bfasm::decimal::format_u128;
use bfasm::labels::LabelAllocator;
use bfasm::labels::LabelPair;
use bfasm::labels::Stack;
use bfasm::tape::parse_directives;
use bfasm::tape::resolve_tape_size;
use bfasm::tokens::get_token_map;

#[test]
fn format_renders_decimal() {
    assert_eq!(format_u128(0), "0");
    assert_eq!(format_u128(7), "7");
    assert_eq!(format_u128(30000), "30000");
    assert_eq!(format_u128(1234567890123), "1234567890123");
}

#[test]
fn stack_pushes_and_pops_in_lifo_order() {
    let mut s = Stack::new();
    assert!(s.is_empty());
    assert_eq!(s.len(), 0);
    assert!(s.push(LabelPair { again: 0, skip: 1 }));
    assert!(s.push(LabelPair { again: 2, skip: 3 }));
    assert!(!s.is_empty());
    assert_eq!(s.len(), 2);
    assert_eq!(s.top(), Some(LabelPair { again: 2, skip: 3 }));
    assert_eq!(s.pop(), Some(LabelPair { again: 2, skip: 3 }));
    assert_eq!(s.pop(), Some(LabelPair { again: 0, skip: 1 }));
    assert_eq!(s.pop(), None);
    assert!(s.is_empty());
}

#[test]
fn stack_reports_overflow_instead_of_growing() {
    let mut s = Stack::with_capacity(2);
    assert!(s.push(LabelPair { again: 0, skip: 1 }));
    assert!(s.push(LabelPair { again: 2, skip: 3 }));
    assert!(!s.push(LabelPair { again: 4, skip: 5 }));
    assert_eq!(s.len(), 2);
}

#[test]
fn allocator_hands_out_increasing_ids() {
    let mut a = LabelAllocator::new();
    assert_eq!(a.allocate(), 0);
    assert_eq!(a.allocate(), 1);
    assert_eq!(a.allocate(), 2);
    assert_eq!(a.next_label, 3);
}

#[test]
fn token_map_templates_render() {
    let m = get_token_map(30000);
    assert_eq!(
        m.get('+').unwrap().instantiate(""),
        "    inc byte tape[rbx]\n"
    );
    assert_eq!(
        m.get('-').unwrap().instantiate(""),
        "    dec byte tape[rbx]\n"
    );
    assert_eq!(
        m.get('>').unwrap().instantiate("7"),
        "    cmp rbx, 30000\n    jne skip7\n    mov rbx, 0\n    skip7: \n    inc rbx\n"
    );
    assert_eq!(
        m.get('<').unwrap().instantiate("8"),
        "    cmp rbx, 0\n    jne skip8\n    mov rbx, 30000\n    skip8: \n    dec rbx\n"
    );
    assert_eq!(m.get('.').unwrap().instantiate(""), "    call _print\n");
    assert_eq!(m.get(',').unwrap().instantiate(""), "    call _input\n");
    assert_eq!(
        m.get('[').unwrap().instantiate("4"),
        "    cmp byte tape[rbx], 0\n    je skip4\n"
    );
    assert_eq!(
        m.get(']').unwrap().instantiate("3"),
        "    cmp byte tape[rbx], 0\n    jne again3\n"
    );
    assert!(m.get('x').is_none());
    assert!(m.get(' ').is_none());
}

#[test]
fn token_map_carries_the_resolved_tape_size() {
    let m = get_token_map(64);
    assert_eq!(
        m.get('>').unwrap().instantiate("0"),
        "    cmp rbx, 64\n    jne skip0\n    mov rbx, 0\n    skip0: \n    inc rbx\n"
    );
}

#[test]
fn directive_parses_size_value() {
    assert_eq!(parse_directives("#@size=100\n+++"), 100);
    assert_eq!(parse_directives("#@size=0\n"), 0);
    assert_eq!(parse_directives("#@size=-7\n"), -7);
}

#[test]
fn no_directive_means_default_control() {
    assert_eq!(parse_directives(""), 0);
    assert_eq!(parse_directives("+++"), 0);
    assert_eq!(parse_directives("size=100\n"), 0);
}

#[test]
fn non_numeric_directive_value_is_the_sentinel() {
    assert_eq!(parse_directives("#@size=abc\n"), -1);
    assert_eq!(parse_directives("#@size=\n"), -1);
    assert_eq!(parse_directives("#@size=-\n"), -1);
    assert_eq!(parse_directives("#@size=12x\n"), -1);
}

#[test]
fn oversized_directive_value_is_the_sentinel() {
    assert_eq!(parse_directives("#@size=9223372036854775807\n"), i64::MAX);
    assert_eq!(parse_directives("#@size=9223372036854775808\n"), -1);
    assert_eq!(parse_directives("#@size=-9223372036854775808\n"), i64::MIN);
    assert_eq!(parse_directives("#@size=-9223372036854775809\n"), -1);
    assert_eq!(parse_directives("#@size=99999999999999999999999\n"), -1);
}

#[test]
fn directive_run_stops_at_first_plain_line() {
    assert_eq!(parse_directives("+++\n#@size=100\n"), 0);
    assert_eq!(parse_directives("#@depth=4\n#@size=100\n"), 100);
}

#[test]
fn repeated_size_directive_last_wins() {
    assert_eq!(parse_directives("#@size=5\n#@size=7\n"), 7);
}

#[test]
fn other_directive_keys_are_ignored() {
    assert_eq!(parse_directives("#@tape=100\n"), 0);
}

#[test]
fn resolver_modes() {
    // explicit
    assert_eq!(resolve_tape_size(100, ""), 100);
    // default
    assert_eq!(resolve_tape_size(0, ">>>"), 30000);
    // auto-compute: increments minus decrements plus one
    assert_eq!(resolve_tape_size(-1, ">>><"), 3);
    assert_eq!(resolve_tape_size(-1, ""), 1);
    // auto-compute clamps below one
    assert_eq!(resolve_tape_size(-1, "<<<"), 1);
}

#[test]
fn target_config_per_platform() {
    let linux = get_target_config("linux").unwrap();
    assert_eq!(linux.nasm_format, "elf64");
    assert_eq!(linux.object_ext, ".o");
    assert_eq!(linux.exec_ext, "");
    assert_eq!(linux.linker, "ld");

    let macos = get_target_config("macos").unwrap();
    assert_eq!(macos.nasm_format, "macho64");
    assert_eq!(macos.linker, "ld");

    let windows = get_target_config("windows").unwrap();
    assert_eq!(windows.nasm_format, "win64");
    assert_eq!(windows.object_ext, ".obj");
    assert_eq!(windows.linker, "lld-link");
}

#[test]
fn target_config_rejects_unknown_platform() {
    let err = get_target_config("plan9").err().unwrap();
    assert_eq!(err, "unsupported OS: plan9");
}
