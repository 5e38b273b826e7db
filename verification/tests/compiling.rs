//! The compiler: constant-pool interning, the emitted opcode shapes,
//! the sticky single-error policy, and running the result.

use sylt::ast::{Module, Prog, Statement, StatementKind};
use sylt::compiler::{compile, Op};
use sylt::error::Error;
use sylt::parser::parse_module;
use sylt::token::{Token, T};
use sylt::value::{value_eq, Value};
use sylt::compiler::Block;
use sylt::vm::{StepOutcome, VM};
use sylt::{run, run_collect, Args, Span};

fn toks(kinds: Vec<T>) -> Vec<Token> {
    let mut out: Vec<Token> = Vec::new();
    for kind in kinds {
        out.push(Token {
            kind,
            span: Span { line: 1 },
        });
    }
    out.push(Token {
        kind: T::EOF,
        span: Span { line: 1 },
    });
    out
}

fn module_of(kinds: Vec<T>) -> Module {
    let tokens = toks(kinds);
    let file = String::from("main.sy");
    let (module, errors) = parse_module(&tokens, &file);
    assert!(errors.is_empty(), "the program should parse");
    module
}

fn define_two_globals() -> Vec<T> {
    vec![
        T::Identifier(String::from("f")),
        T::ColonEqual,
        T::Int(1),
        T::Newline,
        T::Identifier(String::from("x")),
        T::ColonEqual,
        T::Int(2),
        T::Newline,
    ]
}

fn prog_of(kinds: Vec<T>) -> Prog {
    Prog {
        modules: vec![(String::from("main.sy"), module_of(kinds))],
    }
}

#[test]
fn equal_literals_share_one_pool_slot() {
    // `1 + 1`: both literals intern to the same constant-pool slot.
    let prog = compile(prog_of(vec![T::Int(1), T::Plus, T::Int(1)])).expect("should compile");
    let slots: Vec<usize> = prog.blocks[0]
        .ops
        .iter()
        .filter_map(|op| match op {
            Op::Constant(s) => Some(*s),
            _ => None,
        })
        .collect();
    // The reserved-slot `Nil`, the two `1` literals, then the
    // implicit final `Nil`.
    assert_eq!(slots.len(), 4);
    assert_eq!(slots[1], slots[2]);
    assert_eq!(slots[0], slots[3]);
    assert_ne!(slots[0], slots[1]);
    // The pool holds each constant once.
    assert_eq!(prog.constants.len(), 2);
    assert!(value_eq(&prog.constants[slots[1]], &Value::Int(1)));
    assert!(value_eq(&prog.constants[slots[0]], &Value::Nil));
}

#[test]
fn equal_strings_share_one_pool_slot() {
    // The same string literal from two statements interns once.
    let prog = compile(prog_of(vec![
        T::Print,
        T::String(String::from("hi")),
        T::Newline,
        T::Print,
        T::String(String::from("hi")),
        T::Newline,
    ]))
    .expect("should compile");
    let slots: Vec<usize> = prog.blocks[0]
        .ops
        .iter()
        .filter_map(|op| match op {
            Op::Constant(s) => Some(*s),
            _ => None,
        })
        .collect();
    assert_eq!(slots[1], slots[2]);
    assert_eq!(prog.constants.len(), 2);
}

#[test]
fn arithmetic_compiles_to_the_fixed_sequence() {
    // `print 1 + 2` lowers to the reserved-slot fill, the two pushes,
    // the add, the print, and the implicit final return.
    let prog = compile(prog_of(vec![T::Print, T::Int(1), T::Plus, T::Int(2)]))
        .expect("should compile");
    let ops = &prog.blocks[0].ops;
    assert_eq!(ops.len(), 7);
    assert!(matches!(ops[0], Op::Constant(_)));
    assert!(matches!(ops[1], Op::Constant(_)));
    assert!(matches!(ops[2], Op::Constant(_)));
    assert!(matches!(ops[3], Op::Add));
    assert!(matches!(ops[4], Op::Print));
    assert!(matches!(ops[5], Op::Constant(_)));
    assert!(matches!(ops[6], Op::Return));
}

#[test]
fn synthesized_comparisons_use_the_opposite_primitive() {
    // `1 != 2` compiles to `Equal` then `Not`; `1 >= 2` to `Less` then
    // `Not`.
    let prog = compile(prog_of(vec![T::Int(1), T::NotEqual, T::Int(2)])).expect("should compile");
    let ops = &prog.blocks[0].ops;
    assert!(matches!(ops[3], Op::Equal));
    assert!(matches!(ops[4], Op::Not));

    let prog = compile(prog_of(vec![T::Int(1), T::GreaterEqual, T::Int(2)]))
        .expect("should compile");
    let ops = &prog.blocks[0].ops;
    assert!(matches!(ops[3], Op::Less));
    assert!(matches!(ops[4], Op::Not));
}

#[test]
fn arrow_call_compiles_identically_to_the_plain_call() {
    // `f := 1` defines a global, then `x -> f(2)` and `f(x, 2)` lower
    // to the same opcodes.
    let mut arrow = define_two_globals();
    arrow.extend(vec![
        T::Identifier(String::from("x")),
        T::Arrow,
        T::Identifier(String::from("f")),
        T::LeftParen,
        T::Int(2),
        T::RightParen,
        T::Newline,
    ]);
    let mut plain = define_two_globals();
    plain.extend(vec![
        T::Identifier(String::from("f")),
        T::LeftParen,
        T::Identifier(String::from("x")),
        T::Comma,
        T::Int(2),
        T::RightParen,
        T::Newline,
    ]);
    let p1 = compile(prog_of(arrow)).expect("should compile");
    let p2 = compile(prog_of(plain)).expect("should compile");
    assert_eq!(p1.blocks[0].ops, p2.blocks[0].ops);
    assert_eq!(p1.constants.len(), p2.constants.len());
}

#[test]
fn only_the_first_of_two_independent_errors_surfaces() {
    // Two duplicate top-level names are two independent compile
    // errors, but the panic flag is sticky: only the first surfaces.
    let errs = compile(prog_of(vec![
        T::Identifier(String::from("a")),
        T::ColonEqual,
        T::Int(1),
        T::Newline,
        T::Identifier(String::from("a")),
        T::ColonEqual,
        T::Int(2),
        T::Newline,
        T::Identifier(String::from("b")),
        T::ColonEqual,
        T::Int(3),
        T::Newline,
        T::Identifier(String::from("b")),
        T::ColonEqual,
        T::Int(4),
        T::Newline,
    ]))
    .expect_err("duplicate names should not compile");
    assert_eq!(errs.len(), 1);
    match &errs[0] {
        Error::CompileError { message, .. } => {
            let m = message.as_ref().expect("the error should carry a message");
            assert!(m.contains("'a'"), "the first error should name 'a', got: {}", m);
        }
        _ => panic!("expected a compile error"),
    }
}

#[test]
fn reading_an_undefined_name_is_a_compile_error() {
    let errs = compile(prog_of(vec![
        T::Print,
        T::Identifier(String::from("nowhere")),
    ]))
    .expect_err("an unresolved name should not compile");
    assert_eq!(errs.len(), 1);
    assert!(matches!(errs[0], Error::CompileError { .. }));
}

#[test]
fn empty_module_compiles_to_the_implicit_return() {
    let prog = Prog {
        modules: vec![(
            String::from("main.sy"),
            Module {
                span: Span { line: 1 },
                statements: vec![Statement {
                    span: Span { line: 1 },
                    kind: StatementKind::EmptyStatement,
                }],
            },
        )],
    };
    let compiled = compile(prog).expect("should compile");
    assert_eq!(compiled.blocks.len(), 1);
    let ops = &compiled.blocks[0].ops;
    assert_eq!(ops.len(), 3);
    assert!(matches!(ops[0], Op::Constant(_)));
    assert!(matches!(ops[1], Op::Constant(_)));
    assert!(matches!(ops[2], Op::Return));
    assert_eq!(compiled.blocks[0].name, "/preamble/");
    assert_eq!(compiled.blocks[0].file, "main.sy");
}

#[test]
fn running_prints_the_computed_value() {
    // `print 1 + 2` prints the integer 3.
    let prog = compile(prog_of(vec![T::Print, T::Int(1), T::Plus, T::Int(2)]))
        .expect("should compile");
    let out = run_collect(&prog, &Args::default()).expect("should run");
    assert_eq!(out.len(), 1);
    assert!(value_eq(&out[0], &Value::Int(3)));
}

#[test]
fn running_builds_and_prints_collections() {
    // `print (1, 2)` prints the two-element tuple.
    let prog = compile(prog_of(vec![
        T::Print,
        T::LeftParen,
        T::Int(1),
        T::Comma,
        T::Int(2),
        T::RightParen,
    ]))
    .expect("should compile");
    let out = run_collect(&prog, &Args::default()).expect("should run");
    assert_eq!(out.len(), 1);
    assert!(value_eq(
        &out[0],
        &Value::Tuple(vec![Value::Int(1), Value::Int(2)])
    ));
}

#[test]
fn assert_equal_holds_and_fails() {
    // `1 <=> 1` runs; `1 <=> 2` fails the run with one runtime error.
    let ok = compile(prog_of(vec![T::Int(1), T::AssertEqual, T::Int(1)]))
        .expect("should compile");
    assert!(run(&ok, &Args::default()).is_ok());

    let bad = compile(prog_of(vec![T::Int(1), T::AssertEqual, T::Int(2)]))
        .expect("should compile");
    let errs = run(&bad, &Args::default()).expect_err("the assertion should fail");
    assert_eq!(errs.len(), 1);
    match &errs[0] {
        Error::RuntimeError { error } => {
            assert!(matches!(
                error,
                sylt::error::RuntimeError::AssertFailed { .. }
            ));
        }
        _ => panic!("expected a runtime error"),
    }
}

#[test]
fn division_by_zero_aborts_the_run() {
    let prog = compile(prog_of(vec![T::Print, T::Int(1), T::Slash, T::Int(0)]))
        .expect("should compile");
    let errs = run(&prog, &Args::default()).expect_err("division by zero should fail");
    assert_eq!(errs.len(), 1);
}

#[test]
fn comparisons_compute() {
    // `print 2 > 1` prints true; `print 1 == 2` prints false.
    let prog = compile(prog_of(vec![T::Print, T::Int(2), T::Greater, T::Int(1)]))
        .expect("should compile");
    let out = run_collect(&prog, &Args::default()).expect("should run");
    assert!(value_eq(&out[0], &Value::Bool(true)));

    let prog = compile(prog_of(vec![T::Print, T::Int(1), T::EqualEqual, T::Int(2)]))
        .expect("should compile");
    let out = run_collect(&prog, &Args::default()).expect("should run");
    assert!(value_eq(&out[0], &Value::Bool(false)));
}

#[test]
fn membership_looks_into_the_built_list() {
    // `print 2 in [1, 2]` prints true.
    let prog = compile(prog_of(vec![
        T::Print,
        T::Int(2),
        T::In,
        T::LeftBracket,
        T::Int(1),
        T::Comma,
        T::Int(2),
        T::RightBracket,
    ]))
    .expect("should compile");
    let out = run_collect(&prog, &Args::default()).expect("should run");
    assert!(value_eq(&out[0], &Value::Bool(true)));
}

#[test]
fn string_concatenation_runs() {
    // `print "ab" + "cd"` prints the joined string.
    let prog = compile(prog_of(vec![
        T::Print,
        T::String(String::from("ab")),
        T::Plus,
        T::String(String::from("cd")),
    ]))
    .expect("should compile");
    let out = run_collect(&prog, &Args::default()).expect("should run");
    assert!(value_eq(&out[0], &sylt::value::sylt_str("abcd")));
}

#[test]
fn paths_resolve_to_sibling_files() {
    assert_eq!(sylt::path_to_module("games/main.sy", "level"), "games/level.sy");
    assert_eq!(sylt::path_to_module("main.sy", "level"), "level.sy");
    assert_eq!(
        sylt::path_to_module("a/b/c.sy", "d"),
        "a/b/d.sy"
    );
}

#[test]
fn file_stems_drop_directory_and_extension() {
    assert_eq!(sylt::compiler::file_stem("games/main.sy"), "main");
    assert_eq!(sylt::compiler::file_stem("main.sy"), "main");
    assert_eq!(sylt::compiler::file_stem("a/b"), "b");
    assert_eq!(sylt::compiler::file_stem(".hidden"), ".hidden");
}

#[test]
fn unary_negation_computes() {
    // `print -5` prints the negated integer.
    let prog = compile(prog_of(vec![T::Print, T::Minus, T::Int(5)])).expect("should compile");
    let out = run_collect(&prog, &Args::default()).expect("should run");
    assert!(value_eq(&out[0], &Value::Int(-5)));
}

#[test]
fn boolean_negation_negates_truth() {
    // `print !true` prints false: `!` lowers to the logical-not
    // opcode, the same one that synthesizes `!=`, `>=` and `<=`.
    let prog = compile(prog_of(vec![T::Print, T::Bang, T::Bool(true)])).expect("should compile");
    let out = run_collect(&prog, &Args::default()).expect("should run");
    assert!(value_eq(&out[0], &Value::Bool(false)));
}

#[test]
fn boolean_connectives_compute() {
    // `print true and false` prints false; `print true or false`
    // prints true.
    let prog = compile(prog_of(vec![T::Print, T::Bool(true), T::And, T::Bool(false)]))
        .expect("should compile");
    let out = run_collect(&prog, &Args::default()).expect("should run");
    assert!(value_eq(&out[0], &Value::Bool(false)));

    let prog = compile(prog_of(vec![T::Print, T::Bool(true), T::Or, T::Bool(false)]))
        .expect("should compile");
    let out = run_collect(&prog, &Args::default()).expect("should run");
    assert!(value_eq(&out[0], &Value::Bool(true)));
}

#[test]
fn integer_division_truncates() {
    // `print 7 / 2` prints 3; `print -7 / 2` prints -3 (truncation
    // toward zero).
    let prog = compile(prog_of(vec![T::Print, T::Int(7), T::Slash, T::Int(2)]))
        .expect("should compile");
    let out = run_collect(&prog, &Args::default()).expect("should run");
    assert!(value_eq(&out[0], &Value::Int(3)));

    let prog = compile(prog_of(vec![
        T::Print,
        T::Minus,
        T::Int(7),
        T::Slash,
        T::Int(2),
    ]))
    .expect("should compile");
    let out = run_collect(&prog, &Args::default()).expect("should run");
    // `-7 / 2`: unary minus binds at factor level, so this is `-(7/2)`.
    assert!(value_eq(&out[0], &Value::Int(-3)));
}

#[test]
fn set_literal_drops_duplicates() {
    // `print 3 in {3, 3}` builds a set (duplicates removed) and finds
    // the member.
    let prog = compile(prog_of(vec![
        T::Print,
        T::Int(3),
        T::In,
        T::LeftBrace,
        T::Int(3),
        T::Comma,
        T::Int(3),
        T::RightBrace,
    ]))
    .expect("should compile");
    let out = run_collect(&prog, &Args::default()).expect("should run");
    assert!(value_eq(&out[0], &Value::Bool(true)));
}

#[test]
fn dict_membership_checks_keys() {
    // `print 1 in {1: 2}` finds the key; `print 2 in {1: 2}` does not.
    let prog = compile(prog_of(vec![
        T::Print,
        T::Int(1),
        T::In,
        T::LeftBrace,
        T::Int(1),
        T::Colon,
        T::Int(2),
        T::RightBrace,
    ]))
    .expect("should compile");
    let out = run_collect(&prog, &Args::default()).expect("should run");
    assert!(value_eq(&out[0], &Value::Bool(true)));

    let prog = compile(prog_of(vec![
        T::Print,
        T::Int(2),
        T::In,
        T::LeftBrace,
        T::Int(1),
        T::Colon,
        T::Int(2),
        T::RightBrace,
    ]))
    .expect("should compile");
    let out = run_collect(&prog, &Args::default()).expect("should run");
    assert!(value_eq(&out[0], &Value::Bool(false)));
}

#[test]
fn dict_indexing_and_assignment_on_the_machine() {
    // Hand-built bytecode: build {1: 2}, overwrite the key, read it
    // back, print it.
    let consts = vec![Value::Int(1), Value::Int(2), Value::Int(99)];
    let block = Block {
        name: String::from("by-hand"),
        file: String::from("none"),
        ops: vec![
            Op::Constant(0), // key 1
            Op::Constant(1), // value 2
            Op::Dict(2),     // build {1: 2}
            Op::Constant(0), // index: key 1
            Op::GetIndex,    // read d[1] == 2
            Op::Print,
            Op::Return,
        ],
        lines: vec![1, 1, 1, 1, 1, 1, 1],
    };
    let mut vm = VM::new(false);
    assert!(vm.run_block(&block, &consts).is_ok());
    assert!(value_eq(&vm.output[0], &Value::Int(2)));

    // Now overwrite a key through AssignIndex. The steps are driven by
    // hand: AssignIndex pops value, index and container.
    let mut vm = VM::new(false);
    let r = vm.step(&consts, Op::Constant(0), 1); // key
    assert!(matches!(r, StepOutcome::KeepGoing));
    let r = vm.step(&consts, Op::Constant(1), 1); // value
    assert!(matches!(r, StepOutcome::KeepGoing));
    let r = vm.step(&consts, Op::Dict(2), 1); // build the dict
    assert!(matches!(r, StepOutcome::KeepGoing));
    let r = vm.step(&consts, Op::Constant(0), 1); // index
    assert!(matches!(r, StepOutcome::KeepGoing));
    let r = vm.step(&consts, Op::Constant(2), 1); // new value 99
    assert!(matches!(r, StepOutcome::KeepGoing));
    let r = vm.step(&consts, Op::AssignIndex, 1);
    assert!(matches!(r, StepOutcome::KeepGoing));
    // Reading the key through the heap shows the overwritten value.
    let j = vm.heap.dict_find_key(0, &Value::Int(1)).expect("the key should be there");
    let (_, val) = vm.heap.dict_get(0, j);
    assert!(value_eq(val, &Value::Int(99)));
}

#[test]
fn reading_a_missing_dict_key_faults() {
    let consts = vec![Value::Int(1), Value::Int(2), Value::Int(3)];
    let block = Block {
        name: String::from("by-hand"),
        file: String::from("none"),
        ops: vec![
            Op::Constant(0),
            Op::Constant(1),
            Op::Dict(2),     // {1: 2}
            Op::Constant(2), // key 3: not there
            Op::GetIndex,
            Op::Return,
        ],
        lines: vec![1, 1, 1, 1, 1, 1],
    };
    let mut vm = VM::new(false);
    assert!(vm.run_block(&block, &consts).is_err());
}

#[test]
fn unknown_propagates_through_operations() {
    // In typecheck mode (and wherever it appears), the placeholder
    // propagates through arithmetic instead of failing.
    let consts = vec![Value::Unknown, Value::Int(1)];
    let mut vm = VM::new(true);
    let r = vm.step(&consts, Op::Constant(0), 1);
    assert!(matches!(r, StepOutcome::KeepGoing));
    let r = vm.step(&consts, Op::Constant(1), 1);
    assert!(matches!(r, StepOutcome::KeepGoing));
    let r = vm.step(&consts, Op::Add, 1);
    assert!(matches!(r, StepOutcome::KeepGoing));
    assert!(matches!(vm.stack[0], Value::Unknown));

    // An assertion on the placeholder passes rather than aborting the
    // check.
    let r = vm.step(&consts, Op::Assert, 1);
    assert!(matches!(r, StepOutcome::KeepGoing));
}

#[test]
fn typecheck_pass_runs_the_same_bytecode() {
    // The typecheck entry runs the same block; a concrete failing
    // assertion still surfaces there.
    let prog = compile(prog_of(vec![T::Int(1), T::AssertEqual, T::Int(1)]))
        .expect("should compile");
    assert!(sylt::typecheck(&prog, &Args::default()).is_ok());

    let prog = compile(prog_of(vec![T::Int(1), T::AssertEqual, T::Int(2)]))
        .expect("should compile");
    assert!(sylt::typecheck(&prog, &Args::default()).is_err());
}

#[test]
fn file_stem_strips_only_the_last_extension() {
    assert_eq!(sylt::compiler::file_stem("dir/a.b.c"), "a.b");
    assert_eq!(sylt::compiler::file_stem(""), "");
}

#[test]
fn definitions_store_and_read_back() {
    // `x := 41` then `print x + 1` prints 42: the definition writes
    // its global slot and the read finds it.
    let prog = compile(prog_of(vec![
        T::Identifier(String::from("x")),
        T::ColonEqual,
        T::Int(41),
        T::Newline,
        T::Print,
        T::Identifier(String::from("x")),
        T::Plus,
        T::Int(1),
        T::Newline,
    ]))
    .expect("should compile");
    let out = run_collect(&prog, &Args::default()).expect("should run");
    assert_eq!(out.len(), 1);
    assert!(value_eq(&out[0], &Value::Int(42)));
}

#[test]
fn two_globals_read_back_their_own_values() {
    // With two globals every read must hit its own slot.
    let prog = compile(prog_of(vec![
        T::Identifier(String::from("a")),
        T::ColonEqual,
        T::Int(10),
        T::Newline,
        T::Identifier(String::from("b")),
        T::ColonEqual,
        T::Int(20),
        T::Newline,
        T::Print,
        T::Identifier(String::from("a")),
        T::Newline,
        T::Print,
        T::Identifier(String::from("b")),
        T::Newline,
    ]))
    .expect("should compile");
    let out = run_collect(&prog, &Args::default()).expect("should run");
    assert_eq!(out.len(), 2);
    assert!(value_eq(&out[0], &Value::Int(10)));
    assert!(value_eq(&out[1], &Value::Int(20)));
}

#[test]
fn list_assignment_aliases_through_globals() {
    // `a := [1]` then `b := a`, mutating through `b`, is observable
    // through `a`: both hold one handle to the same backing store.
    let prog = compile(prog_of(vec![
        T::Identifier(String::from("a")),
        T::ColonEqual,
        T::LeftBracket,
        T::Int(1),
        T::RightBracket,
        T::Newline,
        T::Identifier(String::from("b")),
        T::ColonEqual,
        T::Identifier(String::from("a")),
        T::Newline,
        T::Identifier(String::from("b")),
        T::LeftBracket,
        T::Int(0),
        T::RightBracket,
        T::Equal,
        T::Int(2),
        T::Newline,
        T::Identifier(String::from("a")),
        T::LeftBracket,
        T::Int(0),
        T::RightBracket,
        T::AssertEqual,
        T::Int(2),
        T::Newline,
        T::Print,
        T::Identifier(String::from("a")),
        T::LeftBracket,
        T::Int(0),
        T::RightBracket,
        T::Newline,
    ]))
    .expect("should compile");
    let out = run_collect(&prog, &Args::default()).expect("the aliased mutation should be visible");
    assert_eq!(out.len(), 1);
    assert!(value_eq(&out[0], &Value::Int(2)));
}

#[test]
fn assignment_evaluates_its_value_once() {
    // `x := 1` then `x = 2` then `print x`: exact opcode sequence —
    // each store is preceded by exactly one evaluation of its value.
    let prog = compile(prog_of(vec![
        T::Identifier(String::from("x")),
        T::ColonEqual,
        T::Int(1),
        T::Newline,
        T::Identifier(String::from("x")),
        T::Equal,
        T::Int(2),
        T::Newline,
        T::Print,
        T::Identifier(String::from("x")),
        T::Newline,
    ]))
    .expect("should compile");
    let ops = &prog.blocks[0].ops;
    // Fill nils for the reserved slot and the one global, then the
    // two store sequences, the print, and the final return.
    assert_eq!(
        ops.as_slice(),
        &[
            Op::Constant(0),       // reserved entry slot
            Op::Constant(0),       // global slot 1
            Op::Constant(1),       // 1
            Op::AssignGlobal(1),   // x := 1
            Op::Constant(2),       // 2
            Op::AssignGlobal(1),   // x = 2
            Op::ReadGlobal(1),
            Op::Print,
            Op::Constant(0),       // implicit final Nil
            Op::Return,
        ]
    );
    let out = run_collect(&prog, &Args::default()).expect("should run");
    assert!(value_eq(&out[0], &Value::Int(2)));
}

#[test]
fn independently_built_lists_compare_by_contents() {
    // `print [1, 2] == [1, 2]` prints true: two separately built lists
    // with equal contents are structurally equal through the heap.
    let prog = compile(prog_of(vec![
        T::Print,
        T::LeftBracket,
        T::Int(1),
        T::Comma,
        T::Int(2),
        T::RightBracket,
        T::EqualEqual,
        T::LeftBracket,
        T::Int(1),
        T::Comma,
        T::Int(2),
        T::RightBracket,
    ]))
    .expect("should compile");
    let out = run_collect(&prog, &Args::default()).expect("should run");
    assert!(value_eq(&out[0], &Value::Bool(true)));

    // And different contents compare unequal.
    let prog = compile(prog_of(vec![
        T::Print,
        T::LeftBracket,
        T::Int(1),
        T::RightBracket,
        T::EqualEqual,
        T::LeftBracket,
        T::Int(2),
        T::RightBracket,
    ]))
    .expect("should compile");
    let out = run_collect(&prog, &Args::default()).expect("should run");
    assert!(value_eq(&out[0], &Value::Bool(false)));
}

#[test]
fn sets_compare_as_sets() {
    // `print {1, 2} == {2, 1}` prints true: order does not matter.
    let prog = compile(prog_of(vec![
        T::Print,
        T::LeftBrace,
        T::Int(1),
        T::Comma,
        T::Int(2),
        T::RightBrace,
        T::EqualEqual,
        T::LeftBrace,
        T::Int(2),
        T::Comma,
        T::Int(1),
        T::RightBrace,
    ]))
    .expect("should compile");
    let out = run_collect(&prog, &Args::default()).expect("should run");
    assert!(value_eq(&out[0], &Value::Bool(true)));
}

#[test]
fn dicts_compare_by_pairs() {
    // `print {1: 2} == {1: 2}` prints true; a differing value makes
    // them unequal.
    let prog = compile(prog_of(vec![
        T::Print,
        T::LeftBrace,
        T::Int(1),
        T::Colon,
        T::Int(2),
        T::RightBrace,
        T::EqualEqual,
        T::LeftBrace,
        T::Int(1),
        T::Colon,
        T::Int(2),
        T::RightBrace,
    ]))
    .expect("should compile");
    let out = run_collect(&prog, &Args::default()).expect("should run");
    assert!(value_eq(&out[0], &Value::Bool(true)));

    let prog = compile(prog_of(vec![
        T::Print,
        T::LeftBrace,
        T::Int(1),
        T::Colon,
        T::Int(2),
        T::RightBrace,
        T::EqualEqual,
        T::LeftBrace,
        T::Int(1),
        T::Colon,
        T::Int(3),
        T::RightBrace,
    ]))
    .expect("should compile");
    let out = run_collect(&prog, &Args::default()).expect("should run");
    assert!(value_eq(&out[0], &Value::Bool(false)));
}

#[test]
fn membership_compares_contents_of_nested_containers() {
    // `print [2] in [[1], [2]]` prints true: membership compares the
    // inner lists by their contents.
    let prog = compile(prog_of(vec![
        T::Print,
        T::LeftBracket,
        T::Int(2),
        T::RightBracket,
        T::In,
        T::LeftBracket,
        T::LeftBracket,
        T::Int(1),
        T::RightBracket,
        T::Comma,
        T::LeftBracket,
        T::Int(2),
        T::RightBracket,
        T::RightBracket,
    ]))
    .expect("should compile");
    let out = run_collect(&prog, &Args::default()).expect("should run");
    assert!(value_eq(&out[0], &Value::Bool(true)));
}

#[test]
fn comparing_self_referential_lists_faults() {
    // Two lists each tied to themselves: their comparison can never
    // bottom out, so the machine faults instead of recursing forever.
    let prog = compile(prog_of(vec![
        T::Identifier(String::from("a")),
        T::ColonEqual,
        T::LeftBracket,
        T::Int(1),
        T::RightBracket,
        T::Newline,
        T::Identifier(String::from("b")),
        T::ColonEqual,
        T::LeftBracket,
        T::Int(2),
        T::RightBracket,
        T::Newline,
        T::Identifier(String::from("a")),
        T::LeftBracket,
        T::Int(0),
        T::RightBracket,
        T::Equal,
        T::Identifier(String::from("a")),
        T::Newline,
        T::Identifier(String::from("b")),
        T::LeftBracket,
        T::Int(0),
        T::RightBracket,
        T::Equal,
        T::Identifier(String::from("b")),
        T::Newline,
        T::Print,
        T::Identifier(String::from("a")),
        T::EqualEqual,
        T::Identifier(String::from("b")),
        T::Newline,
    ]))
    .expect("should compile");
    let errs = run(&prog, &Args::default()).expect_err("the comparison should fault");
    assert_eq!(errs.len(), 1);
}
