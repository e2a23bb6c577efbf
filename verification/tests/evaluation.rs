use meth::ast::{Ast, ExprKind, NodeKind};
use meth::parser::parse;
use meth::runtime::{run, Env, Interpreter, Native, Report, RtValue, RunError, RuntimeError};

const DEPTH: usize = 200;

/// Runs all nodes but the last, then evaluates the last, a bare expression.
fn last_value<'a>(machine: &mut Interpreter<'a>, ast: &'a Ast, depth: usize) -> Result<RtValue<'a>, RuntimeError> {
    let (last, before) = ast.split_last().unwrap();
    for node in before {
        machine.run_node(&node.kind, depth).unwrap();
    }
    match &last.kind {
        NodeKind::Expr(expr) => machine.run_expr(expr, depth),
        NodeKind::VariableAssign { .. } => panic!("the last node is a binding"),
    }
}

fn with_succ(ast: &Ast) -> Interpreter<'_> {
    let mut machine = Interpreter::new(ast);
    machine.define("succ", RtValue::NativeFunction(Native::Succ));
    machine
}

#[test]
fn binding_then_use() {
    let ast = parse("def id λx.x (id 5)").unwrap();
    let mut machine = Interpreter::new(&ast);
    assert_eq!(last_value(&mut machine, &ast, DEPTH), Ok(RtValue::Numeral(5)));
}

#[test]
fn number_evaluates_to_itself() {
    let ast = parse("18446744073709551615").unwrap();
    let mut machine = Interpreter::new(&ast);
    assert_eq!(last_value(&mut machine, &ast, 0), Ok(RtValue::Numeral(u64::MAX)));
}

#[test]
fn closure_freezing() {
    let ast = parse("def x 1 def f λy.x def x 2 (f 0)").unwrap();
    let mut machine = Interpreter::new(&ast);
    assert_eq!(last_value(&mut machine, &ast, DEPTH), Ok(RtValue::Numeral(1)));
    // the rebinding is in force outside the closure
    assert_eq!(machine.lookup("x"), Some(RtValue::Numeral(2)));
}

#[test]
fn closure_does_not_see_a_name_bound_after_it() {
    let ast = parse("def f λy.late def late 1 (f 0)").unwrap();
    let mut machine = Interpreter::new(&ast);
    assert_eq!(last_value(&mut machine, &ast, DEPTH), Err(RuntimeError::UnknownVariable));
}

#[test]
fn closure_cannot_call_itself_by_name() {
    let ast = parse("def loop λn.(loop n) (loop 1)").unwrap();
    let mut machine = Interpreter::new(&ast);
    assert_eq!(last_value(&mut machine, &ast, DEPTH), Err(RuntimeError::UnknownVariable));
}

#[test]
fn arity_mismatch_is_fatal() {
    let ast = parse("def f λx.x (f 1 2)").unwrap();
    let mut machine = Interpreter::new(&ast);
    assert_eq!(last_value(&mut machine, &ast, DEPTH), Err(RuntimeError::ArityMismatch));
}

#[test]
fn arity_mismatch_with_too_few_arguments() {
    let ast = parse("(λx y.x 1)").unwrap();
    let mut machine = Interpreter::new(&ast);
    assert_eq!(last_value(&mut machine, &ast, DEPTH), Err(RuntimeError::ArityMismatch));
    let ast = parse("(λx.x)").unwrap();
    let mut machine = Interpreter::new(&ast);
    assert_eq!(last_value(&mut machine, &ast, DEPTH), Err(RuntimeError::ArityMismatch));
}

#[test]
fn arity_is_checked_before_depth() {
    let ast = parse("(λx.x 1 2)").unwrap();
    let mut machine = Interpreter::new(&ast);
    assert_eq!(last_value(&mut machine, &ast, 1), Err(RuntimeError::ArityMismatch));
}

#[test]
fn lambda_without_parameters_is_called_without_arguments() {
    let ast = parse("(λ.7)").unwrap();
    let mut machine = Interpreter::new(&ast);
    assert_eq!(last_value(&mut machine, &ast, DEPTH), Ok(RtValue::Numeral(7)));
}

#[test]
fn later_parameter_of_the_same_name_wins() {
    let ast = parse("(λa a.a 1 2)").unwrap();
    let mut machine = Interpreter::new(&ast);
    assert_eq!(last_value(&mut machine, &ast, DEPTH), Ok(RtValue::Numeral(2)));
}

#[test]
fn parameter_shadows_and_the_binding_comes_back() {
    let ast = parse("def x 1 def f λx.x (f 9)").unwrap();
    let mut machine = Interpreter::new(&ast);
    assert_eq!(last_value(&mut machine, &ast, DEPTH), Ok(RtValue::Numeral(9)));
    assert_eq!(machine.lookup("x"), Some(RtValue::Numeral(1)));
}

#[test]
fn bindings_are_restored_after_a_failed_call() {
    let ast = parse("def x 1 (λx.(x nope) 2)").unwrap();
    let mut machine = Interpreter::new(&ast);
    assert_eq!(last_value(&mut machine, &ast, DEPTH), Err(RuntimeError::UnknownVariable));
    assert_eq!(machine.lookup("x"), Some(RtValue::Numeral(1)));
}

#[test]
fn arguments_are_evaluated_under_the_caller() {
    let ast = parse("def x 1 def f λx y.y (f 5 x)").unwrap();
    let mut machine = Interpreter::new(&ast);
    assert_eq!(last_value(&mut machine, &ast, DEPTH), Ok(RtValue::Numeral(1)));
}

#[test]
fn numeral_iteration() {
    let ast = parse("((3 succ) 0)").unwrap();
    let mut machine = with_succ(&ast);
    assert_eq!(last_value(&mut machine, &ast, DEPTH), Ok(RtValue::Numeral(3)));
    let ast = parse("((0 succ) 9)").unwrap();
    let mut machine = with_succ(&ast);
    assert_eq!(last_value(&mut machine, &ast, DEPTH), Ok(RtValue::Numeral(9)));
}

#[test]
fn zero_iterations_need_no_function() {
    // the function is never called, so it may be anything
    let ast = parse("((0 5) 9)").unwrap();
    let mut machine = Interpreter::new(&ast);
    assert_eq!(last_value(&mut machine, &ast, DEPTH), Ok(RtValue::Numeral(9)));
}

#[test]
fn numeral_keeps_its_function_first() {
    let ast = parse("(3 succ)").unwrap();
    let mut machine = with_succ(&ast);
    let value = last_value(&mut machine, &ast, DEPTH).unwrap();
    match value {
        RtValue::PartialNumeral { function, n } => {
            assert_eq!(n, 3);
            assert_eq!(*function, RtValue::NativeFunction(Native::Succ));
        }
        other => panic!("{other:?}"),
    }
}

#[test]
fn numeral_iterates_a_closure() {
    let ast = parse("def twice λn.(succ (succ n)) ((4 twice) 1)").unwrap();
    let mut machine = with_succ(&ast);
    assert_eq!(last_value(&mut machine, &ast, DEPTH), Ok(RtValue::Numeral(9)));
}

#[test]
fn numerals_nest() {
    // (2 3) iterates the numeral 3: ((2 3) succ) is (3 (3 succ)), nine steps
    let ast = parse("(((2 3) succ) 0)").unwrap();
    let mut machine = with_succ(&ast);
    assert_eq!(last_value(&mut machine, &ast, DEPTH), Ok(RtValue::Numeral(9)));
}

#[test]
fn numeral_stages_take_one_argument() {
    for src in ["(3)", "(3 succ succ)", "((3 succ))", "((3 succ) 0 0)"] {
        let ast = parse(src).unwrap();
        let mut machine = with_succ(&ast);
        assert_eq!(last_value(&mut machine, &ast, DEPTH), Err(RuntimeError::ArityMismatch), "{src}");
    }
}

#[test]
fn unknown_variable_is_fatal() {
    let ast = parse("nope").unwrap();
    let mut machine = Interpreter::new(&ast);
    assert_eq!(last_value(&mut machine, &ast, DEPTH), Err(RuntimeError::UnknownVariable));
    let ast = parse("(print_dbg nope)").unwrap();
    assert_eq!(
        run(&ast, DEPTH),
        Report {
            output: String::new(),
            result: Err(RunError { error: RuntimeError::UnknownVariable, node: 0, span: 0..16 }),
        }
    );
}

#[test]
fn unbounded_recursion_overflows() {
    let ast = parse("(λx.(x x) λx.(x x))").unwrap();
    let mut machine = Interpreter::new(&ast);
    assert_eq!(last_value(&mut machine, &ast, 50), Err(RuntimeError::StackOverflow));
    assert_eq!(last_value(&mut machine, &ast, 0), Err(RuntimeError::StackOverflow));
}

#[test]
fn depth_counts_nested_evaluations() {
    let ast = parse("def id λx.x (id 5)").unwrap();
    let mut machine = Interpreter::new(&ast);
    assert_eq!(last_value(&mut machine, &ast, 1), Err(RuntimeError::StackOverflow));
    let mut machine = Interpreter::new(&ast);
    assert_eq!(last_value(&mut machine, &ast, 2), Ok(RtValue::Numeral(5)));
}

#[test]
fn more_depth_changes_nothing() {
    let ast = parse("def two λf.λx.(f (f x)) (print_dbg ((two succ) 40))").unwrap();
    let mut outputs = Vec::new();
    for depth in [6, 7, 50, 1000] {
        let mut machine = with_succ(&ast);
        machine.define("print_dbg", RtValue::NativeFunction(Native::PrintDbg));
        assert_eq!(machine.run(depth), Ok(()), "depth {depth}");
        outputs.push(machine.output);
    }
    assert_eq!(outputs, vec!["[42]\n"; 4]);
}

#[test]
fn successor() {
    let ast = parse("(succ 41)").unwrap();
    let mut machine = with_succ(&ast);
    assert_eq!(last_value(&mut machine, &ast, 1), Ok(RtValue::Numeral(42)));
}

#[test]
fn successor_rejects_what_it_cannot_count() {
    for src in ["(succ 18446744073709551615)", "(succ λx.x)", "(succ succ)", "(succ (3 succ))"] {
        let ast = parse(src).unwrap();
        let mut machine = with_succ(&ast);
        assert_eq!(last_value(&mut machine, &ast, DEPTH), Err(RuntimeError::InvalidArgument), "{src}");
    }
    for src in ["(succ)", "(succ 1 2)"] {
        let ast = parse(src).unwrap();
        let mut machine = with_succ(&ast);
        assert_eq!(last_value(&mut machine, &ast, DEPTH), Err(RuntimeError::ArityMismatch), "{src}");
    }
}

#[test]
fn flatten_turns_a_church_numeral_into_a_number() {
    let ast = parse("def two λf.λx.(f (f x)) (print_dbg (flatten two))").unwrap();
    assert_eq!(run(&ast, DEPTH), Report { output: "[2]\n".to_string(), result: Ok(()) });
    let ast = parse("(print_dbg (flatten 5) (flatten λf.λx.x))").unwrap();
    assert_eq!(run(&ast, DEPTH), Report { output: "[5, 0]\n".to_string(), result: Ok(()) });
}

#[test]
fn flatten_takes_one_argument() {
    let ast = parse("(flatten 1 2)").unwrap();
    assert_eq!(run(&ast, DEPTH).result.unwrap_err().error, RuntimeError::ArityMismatch);
    let ast = parse("(flatten)").unwrap();
    assert_eq!(run(&ast, DEPTH).result.unwrap_err().error, RuntimeError::ArityMismatch);
}

#[test]
fn print_dbg_writes_its_arguments_as_a_list() {
    let ast = parse("(print_dbg 5)").unwrap();
    assert_eq!(run(&ast, DEPTH).output, "[5]\n");
    let ast = parse("(print_dbg)").unwrap();
    assert_eq!(run(&ast, DEPTH).output, "[]\n");
    let ast = parse("(print_dbg 1 λx.x print_dbg (2 print_dbg) ((3 4) 5))").unwrap();
    assert_eq!(
        run(&ast, DEPTH).output,
        "[1, <lambda>, <interpreter builtin>, <interpreter builtin> * 2, 5 * 4 * 4 * 4]\n"
    );
}

#[test]
fn print_dbg_returns_zero() {
    let ast = parse("(print_dbg (print_dbg 7))").unwrap();
    assert_eq!(run(&ast, DEPTH), Report { output: "[7]\n[0]\n".to_string(), result: Ok(()) });
}

#[test]
fn print_char_writes_code_points() {
    let ast = parse("(print_char 72 105 955 128512)").unwrap();
    assert_eq!(run(&ast, DEPTH), Report { output: "Hiλ😀".to_string(), result: Ok(()) });
    let ast = parse("(print_char)").unwrap();
    assert_eq!(run(&ast, DEPTH).output, "");
    let ast = parse("(print_dbg (print_char 10))").unwrap();
    assert_eq!(run(&ast, DEPTH).output, "\n[0]\n");
}

#[test]
fn print_char_reads_the_count_of_a_partial_numeral() {
    let ast = parse("(print_char (65 print_dbg))").unwrap();
    assert_eq!(run(&ast, DEPTH).output, "A");
}

#[test]
fn print_char_replaces_what_is_no_code_point() {
    for src in [
        "(print_char 55296)",
        "(print_char 57343)",
        "(print_char 1114112)",
        "(print_char 4294967361)",
        "(print_char 18446744073709551615)",
    ] {
        let ast = parse(src).unwrap();
        assert_eq!(run(&ast, DEPTH).output, "\u{FFFD}", "{src}");
    }
    let ast = parse("(print_char 55295 57344 1114111)").unwrap();
    assert_eq!(run(&ast, DEPTH).output, "\u{D7FF}\u{E000}\u{10FFFF}");
}

#[test]
fn print_char_marks_other_values() {
    let ast = parse("(print_char 65 λx.x flatten 66)").unwrap();
    assert_eq!(
        run(&ast, DEPTH).output,
        "A<char <lambda>>\n<char <interpreter builtin>>\nB"
    );
}

#[test]
fn output_comes_in_evaluation_order() {
    // callee first, then the arguments from left to right, then the call
    let ast = parse("((print_char 49) (print_char 50) (print_char 51))").unwrap();
    let report = run(&ast, DEPTH);
    assert_eq!(report.output, "123");
    assert_eq!(report.result.unwrap_err().error, RuntimeError::ArityMismatch);
    let ast = parse("def f λa b.(print_char 51) (f (print_char 49) (print_char 50))").unwrap();
    assert_eq!(run(&ast, DEPTH), Report { output: "123".to_string(), result: Ok(()) });
    // a failing argument stops the evaluation before the later ones
    let ast = parse("(print_char (print_char 49) nope (print_char 50))").unwrap();
    let report = run(&ast, DEPTH);
    assert_eq!(report.output, "1");
    assert_eq!(report.result.unwrap_err().error, RuntimeError::UnknownVariable);
}

#[test]
fn run_stops_at_the_first_failure_and_keeps_what_was_written() {
    let ast = parse("(print_char 97) def x 1\n(x 1 2) (print_char 98)").unwrap();
    let mut machine = Interpreter::standard(&ast);
    assert_eq!(
        machine.run(DEPTH),
        Err(RunError { error: RuntimeError::ArityMismatch, node: 2, span: 24..31 })
    );
    assert_eq!(machine.output, "a");
    assert_eq!(machine.lookup("x"), Some(RtValue::Numeral(1)));
}

#[test]
fn run_reports_overflow_with_the_node() {
    let ast = parse("1 (λx.(x x) λx.(x x))").unwrap();
    assert_eq!(
        run(&ast, 30),
        Report {
            output: String::new(),
            result: Err(RunError { error: RuntimeError::StackOverflow, node: 1, span: 2..23 }),
        }
    );
}

#[test]
fn empty_program_runs() {
    let ast = parse("").unwrap();
    assert_eq!(run(&ast, 0), Report { output: String::new(), result: Ok(()) });
}

#[test]
fn standard_names() {
    let ast = parse("").unwrap();
    let machine = Interpreter::standard(&ast);
    assert_eq!(machine.lookup("print_dbg"), Some(RtValue::NativeFunction(Native::PrintDbg)));
    assert_eq!(machine.lookup("print_char"), Some(RtValue::NativeFunction(Native::PrintChar)));
    assert_eq!(machine.lookup("flatten"), Some(RtValue::NativeFunction(Native::Flatten)));
    assert_eq!(machine.lookup("succ"), None);
    assert_eq!(Interpreter::new(&ast).lookup("print_dbg"), None);
}

#[test]
fn a_program_can_rebind_a_standard_name() {
    let ast = parse("def print_dbg λx.x (print_char (print_dbg 65))").unwrap();
    assert_eq!(run(&ast, DEPTH).output, "A");
}

#[test]
fn round_trip_determinism() {
    let src = "def two λf.λx.(f (f x)) def n (flatten (two two)) (print_dbg n two) (print_char 10 n) (n)";
    let ast = parse(src).unwrap();
    let mut first = Interpreter::standard(&ast);
    let mut second = Interpreter::standard(&ast);
    let first_result = first.run(DEPTH);
    let second_result = second.run(DEPTH);
    assert_eq!(first_result, second_result);
    assert_eq!(first_result.unwrap_err().error, RuntimeError::ArityMismatch);
    assert_eq!(first.output, second.output);
    assert_eq!(first.output, "[4, <lambda>]\n\n\u{4}");
    for name in ["two", "n", "print_dbg", "print_char", "flatten", "missing"] {
        assert_eq!(first.lookup(name), second.lookup(name), "{name}");
    }
    assert_eq!(first.lookup("n"), Some(RtValue::Numeral(4)));
    assert_eq!(run(&ast, DEPTH), run(&ast, DEPTH));
}

#[test]
fn values_render() {
    assert_eq!(RtValue::Numeral(0).render(), "0");
    assert_eq!(RtValue::Numeral(10).render(), "10");
    assert_eq!(RtValue::Numeral(1234567890).render(), "1234567890");
    assert_eq!(RtValue::Numeral(u64::MAX).render(), "18446744073709551615");
    assert_eq!(RtValue::NativeFunction(Native::Succ).render(), "<interpreter builtin>");
    let partial = RtValue::PartialNumeral {
        function: std::rc::Rc::new(RtValue::PartialNumeral {
            function: std::rc::Rc::new(RtValue::Numeral(7)),
            n: 8,
        }),
        n: 9,
    };
    assert_eq!(partial.render(), "7 * 8 * 9");
    let ast = parse("λx.x").unwrap();
    let mut machine = Interpreter::new(&ast);
    assert_eq!(last_value(&mut machine, &ast, 0).unwrap().render(), "<lambda>");
}

#[test]
fn duplicates_are_equal_and_share() {
    let ast = parse("def a 1 λx.a").unwrap();
    let mut machine = Interpreter::new(&ast);
    let closure = last_value(&mut machine, &ast, 0).unwrap();
    let copy = closure.duplicate();
    assert_eq!(copy, closure);
    let shared = std::rc::Rc::new(RtValue::Numeral(3));
    let partial = RtValue::PartialNumeral { function: shared.clone(), n: 2 };
    let copy = partial.duplicate();
    assert_eq!(copy, partial);
    // the handle made here, the value and its copy
    assert_eq!(std::rc::Rc::strong_count(&shared), 3);
}

#[test]
fn environment_binds_and_finds() {
    let mut env = Env::new();
    assert_eq!(env.get(&"x".to_string()), None);
    env.insert("x".to_string(), RtValue::Numeral(1));
    env.insert("y".to_string(), RtValue::Numeral(2));
    let snapshot = env.duplicate();
    env.insert("x".to_string(), RtValue::Numeral(3));
    assert_eq!(env.get(&"x".to_string()), Some(&RtValue::Numeral(3)));
    assert_eq!(env.get(&"y".to_string()), Some(&RtValue::Numeral(2)));
    assert_eq!(env.get(&"z".to_string()), None);
    // the snapshot is untouched
    assert_eq!(snapshot.get(&"x".to_string()), Some(&RtValue::Numeral(1)));
    assert_eq!(snapshot.get(&"y".to_string()), Some(&RtValue::Numeral(2)));
}

#[test]
fn call_fn_is_the_dispatch() {
    let ast = parse("λx y.y").unwrap();
    let mut machine = Interpreter::new(&ast);
    let second = last_value(&mut machine, &ast, 0).unwrap();
    let args = vec![RtValue::Numeral(1), RtValue::Numeral(2)];
    assert_eq!(machine.call_fn(&second, args, 1), Ok(RtValue::Numeral(2)));
    assert_eq!(machine.call_fn(&second, vec![], 1), Err(RuntimeError::ArityMismatch));
    assert_eq!(
        machine.call_fn(&second, vec![RtValue::Numeral(1), RtValue::Numeral(2)], 0),
        Err(RuntimeError::StackOverflow)
    );
    let native = RtValue::NativeFunction(Native::PrintChar);
    assert_eq!(machine.call_fn(&native, vec![RtValue::Numeral(33)], 0), Ok(RtValue::Numeral(0)));
    assert_eq!(machine.output, "!");
    match &ast[0].kind {
        NodeKind::Expr(ExprKind::Lambda(params, _)) => assert_eq!(params.len(), 2),
        other => panic!("{other:?}"),
    }
}
