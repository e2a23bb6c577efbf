//! Laws of evaluation, proved from the definitions in `semantics` and from
//! the interpreter's contracts.

use vstd::prelude::*;
use crate::ast::{ExprKindView, ExprView, NodeKindView, NodeView};
use crate::lexer::Span;
use crate::runtime::interp::{Interpreter, RunError, ran};
use crate::runtime::semantics::RuntimeError;
use crate::runtime::semantics::{apply, bind, call_native, done, eval, eval_all, fail, iterate, run_from, step};
use crate::runtime::value::{Bindings, Native, Value};

verus! {

/// Whether an evaluation ran out of depth.
pub open spec fn overflowed<T>(r: Result<T, RuntimeError>) -> bool {
    r == Err::<T, RuntimeError>(RuntimeError::StackOverflow)
}

/// An identifier without a binding fails with `UnknownVariable`, at any
/// depth, and nothing is emitted.
pub proof fn lemma_unknown_variable_fails(depth: nat, env: Bindings, name: Seq<char>)
    requires
        !env.contains_key(name),
    ensures
        eval(depth, env, ExprKindView::Ident(name)) == fail(RuntimeError::UnknownVariable),
{
}

/// A closure called with more or fewer arguments than it has parameters
/// fails with `ArityMismatch`, at any depth, and nothing is emitted: no
/// argument is dropped and none is made up.
pub proof fn lemma_closure_arity_is_checked(
    depth: nat,
    captured: Bindings,
    params: Seq<Seq<char>>,
    body: ExprView,
    args: Seq<Value>,
)
    requires
        args.len() != params.len(),
    ensures
        apply(depth, Value::Closure { captured, params, body }, args) == fail(
            RuntimeError::ArityMismatch,
        ),
{
}

/// A numeral, at either stage, called with more or fewer than one argument
/// fails with `ArityMismatch`.
pub proof fn lemma_numeral_arity_is_checked(depth: nat, f: Value, args: Seq<Value>)
    requires
        f is Numeral || f is PartialNumeral,
        args.len() != 1,
    ensures
        apply(depth, f, args) == fail(RuntimeError::ArityMismatch),
{
}

/// A closure is frozen: calling it evaluates its body under the bindings it
/// captured, extended by its arguments. The bindings that are current at
/// the call play no part.
pub proof fn lemma_closure_is_frozen(
    depth: nat,
    captured: Bindings,
    params: Seq<Seq<char>>,
    body: ExprView,
    args: Seq<Value>,
)
    requires
        args.len() == params.len(),
        depth > 0,
    ensures
        apply(depth, Value::Closure { captured, params, body }, args) == eval(
            (depth - 1) as nat,
            bind(captured, params, args),
            body.kind,
        ),
{
}

/// Evaluating a lambda captures exactly the bindings it is evaluated under,
/// so binding a name afterwards cannot reach the closure.
pub proof fn lemma_lambda_captures_current_bindings(
    depth: nat,
    env: Bindings,
    params: Seq<Seq<char>>,
    body: ExprView,
)
    ensures
        eval(depth, env, ExprKindView::Lambda(params, Box::new(body))) == done(
            Value::Closure { captured: env, params, body },
        ),
{
}

/// Rebinding a name is invisible to a closure made before: where `f` is
/// bound to a closure, binding another name `x` afterwards does not change
/// what a call of `f` gives, as long as the arguments themselves evaluate
/// alike.
pub proof fn lemma_rebinding_is_invisible(
    depth: nat,
    env: Bindings,
    f: Seq<char>,
    closure: Value,
    x: Seq<char>,
    v: Value,
    args: Seq<ExprView>,
    span: Span,
)
    requires
        closure is Closure,
        x != f,
        depth > 0,
        eval_all((depth - 1) as nat, env.insert(f, closure).insert(x, v), args, 0) == eval_all(
            (depth - 1) as nat,
            env.insert(f, closure),
            args,
            0,
        ),
    ensures
        eval(
            depth,
            env.insert(f, closure).insert(x, v),
            ExprKindView::Call(
                Box::new(ExprView { kind: ExprKindView::Ident(f), span }),
                args,
            ),
        ) == eval(
            depth,
            env.insert(f, closure),
            ExprKindView::Call(
                Box::new(ExprView { kind: ExprKindView::Ident(f), span }),
                args,
            ),
        ),
{
    let before = env.insert(f, closure);
    let after = before.insert(x, v);
    let callee = ExprKindView::Ident(f);
    assert(eval((depth - 1) as nat, after, callee) == eval((depth - 1) as nat, before, callee));
}

/// Applying a numeral takes two calls: the first keeps the function, the
/// second iterates it on the starting value.
pub proof fn lemma_numeral_application(depth: nat, n: u64, f: Value, x: Value)
    ensures
        apply(depth, Value::Numeral(n), seq![f]) == done(
            Value::PartialNumeral { function: Box::new(f), n },
        ),
        apply(depth, Value::PartialNumeral { function: Box::new(f), n }, seq![x]) == iterate(
            depth,
            f,
            n as nat,
            x,
        ),
{
}

/// Zero iterations are the identity: the starting value comes back, nothing
/// is emitted, and no depth is needed.
pub proof fn lemma_zero_iterations(depth: nat, f: Value, x: Value)
    ensures
        iterate(depth, f, 0, x) == done(x),
        apply(depth, Value::PartialNumeral { function: Box::new(f), n: 0 }, seq![x]) == done(x),
{
}

/// `Succ` iterated `n` times from `m` gives `m + n`.
pub proof fn lemma_iterated_successor(depth: nat, n: nat, m: u64)
    requires
        m + n <= u64::MAX,
        n > 0 ==> depth > 0,
    ensures
        iterate(depth, Value::NativeFunction(Native::Succ), n, Value::Numeral(m)) == done(
            Value::Numeral((m + n) as u64),
        ),
    decreases n,
{
    if n > 0 {
        let next = (m + 1) as u64;
        lemma_iterated_successor(depth, (n - 1) as nat, next);
        let once = apply(
            (depth - 1) as nat,
            Value::NativeFunction(Native::Succ),
            seq![Value::Numeral(m)],
        );
        assert(once == done(Value::Numeral(next)));
        let rest = iterate(
            depth,
            Value::NativeFunction(Native::Succ),
            (n - 1) as nat,
            Value::Numeral(next),
        );
        assert(once.emitted + rest.emitted =~= rest.emitted);
    }
}

/// More depth changes nothing: an evaluation that did not run out of depth
/// gives the same value and emits the same text at any greater depth.
pub proof fn lemma_eval_depth_is_enough(d1: nat, d2: nat, env: Bindings, e: ExprKindView)
    requires
        d1 <= d2,
        !overflowed(eval(d1, env, e).result),
    ensures
        eval(d2, env, e) == eval(d1, env, e),
    decreases d1, 0nat, 0nat,
{
    match e {
        ExprKindView::Call(callee, args) => {
            let low = (d1 - 1) as nat;
            let high = (d2 - 1) as nat;
            let f = eval(low, env, callee.kind);
            lemma_eval_depth_is_enough(low, high, env, callee.kind);
            match f.result {
                Ok(function) => {
                    let a = eval_all(low, env, args, 0);
                    lemma_eval_all_depth_is_enough(low, high, env, args, 0);
                    match a.result {
                        Ok(values) => {
                            lemma_apply_depth_is_enough(low, high, function, values);
                        },
                        Err(_) => {},
                    }
                },
                Err(_) => {},
            }
        },
        _ => {},
    }
}

/// More depth changes nothing for a list of expressions.
pub proof fn lemma_eval_all_depth_is_enough(
    d1: nat,
    d2: nat,
    env: Bindings,
    es: Seq<ExprView>,
    from: nat,
)
    requires
        d1 <= d2,
        !overflowed(eval_all(d1, env, es, from).result),
    ensures
        eval_all(d2, env, es, from) == eval_all(d1, env, es, from),
    decreases d1, 1nat, es.len() - from,
{
    if from < es.len() {
        let first = eval(d1, env, es[from as int].kind);
        lemma_eval_depth_is_enough(d1, d2, env, es[from as int].kind);
        if first.result is Ok {
            lemma_eval_all_depth_is_enough(d1, d2, env, es, from + 1);
        }
    }
}

/// More depth changes nothing for a call.
pub proof fn lemma_apply_depth_is_enough(d1: nat, d2: nat, f: Value, args: Seq<Value>)
    requires
        d1 <= d2,
        !overflowed(apply(d1, f, args).result),
    ensures
        apply(d2, f, args) == apply(d1, f, args),
    decreases d1, 1nat, 0nat,
{
    match f {
        Value::Closure { captured, params, body } => {
            if args.len() == params.len() {
                lemma_eval_depth_is_enough(
                    (d1 - 1) as nat,
                    (d2 - 1) as nat,
                    bind(captured, params, args),
                    body.kind,
                );
            }
        },
        Value::Numeral(_) => {},
        Value::PartialNumeral { function, n } => {
            if args.len() == 1 {
                lemma_iterate_depth_is_enough(d1, d2, *function, n as nat, args[0]);
            }
        },
        Value::NativeFunction(native) => {
            lemma_native_depth_is_enough(d1, d2, native, args);
        },
    }
}

/// More depth changes nothing for an iteration.
pub proof fn lemma_iterate_depth_is_enough(d1: nat, d2: nat, f: Value, n: nat, acc: Value)
    requires
        d1 <= d2,
        !overflowed(iterate(d1, f, n, acc).result),
    ensures
        iterate(d2, f, n, acc) == iterate(d1, f, n, acc),
    decreases d1, 0nat, n,
{
    if n > 0 {
        let once = apply((d1 - 1) as nat, f, seq![acc]);
        lemma_apply_depth_is_enough((d1 - 1) as nat, (d2 - 1) as nat, f, seq![acc]);
        match once.result {
            Ok(v) => {
                lemma_iterate_depth_is_enough(d1, d2, f, (n - 1) as nat, v);
            },
            Err(_) => {},
        }
    }
}

/// More depth changes nothing for a host function.
pub proof fn lemma_native_depth_is_enough(d1: nat, d2: nat, native: Native, args: Seq<Value>)
    requires
        d1 <= d2,
        !overflowed(call_native(d1, native, args).result),
    ensures
        call_native(d2, native, args) == call_native(d1, native, args),
    decreases d1, 0nat, 0nat,
{
    match native {
        Native::Flatten => {
            if args.len() == 1 {
                let low = (d1 - 1) as nat;
                let high = (d2 - 1) as nat;
                let succ = seq![Value::NativeFunction(Native::Succ)];
                let partial = apply(low, args[0], succ);
                lemma_apply_depth_is_enough(low, high, args[0], succ);
                match partial.result {
                    Ok(p) => {
                        lemma_apply_depth_is_enough(low, high, p, seq![Value::Numeral(0)]);
                    },
                    Err(_) => {},
                }
            }
        },
        _ => {},
    }
}

/// More depth changes nothing for a program: a run in which no node ran out
/// of depth emits the same text and ends with the same bindings at any
/// greater depth.
pub proof fn lemma_run_depth_is_enough(
    d1: nat,
    d2: nat,
    env: Bindings,
    nodes: Seq<NodeView>,
    from: nat,
)
    requires
        d1 <= d2,
        !(run_from(d1, env, nodes, from).failure matches Some(f) && f.0
            == RuntimeError::StackOverflow),
    ensures
        run_from(d2, env, nodes, from) == run_from(d1, env, nodes, from),
    decreases nodes.len() - from,
{
    if from < nodes.len() {
        let s = step(d1, env, nodes[from as int].kind);
        match nodes[from as int].kind {
            NodeKindView::VariableAssign { var, expr } => {
                lemma_eval_depth_is_enough(d1, d2, env, expr.kind);
            },
            NodeKindView::Expr(kind) => {
                lemma_eval_depth_is_enough(d1, d2, env, kind);
            },
        }
        match s.result {
            Ok(next) => {
                lemma_run_depth_is_enough(d1, d2, next, nodes, from + 1);
            },
            Err(_) => {},
        }
    }
}

/// Running is deterministic: two interpreters that hold the same program,
/// the same bindings and the same output, run at the same depth, end with
/// the same output, the same bindings and the same report.
pub proof fn lemma_run_is_deterministic(
    first: Interpreter,
    second: Interpreter,
    depth: usize,
    first_after: Interpreter,
    first_result: Result<(), RunError>,
    second_after: Interpreter,
    second_result: Result<(), RunError>,
)
    requires
        first.ast == second.ast,
        first.defs.view() == second.defs.view(),
        first.output@ == second.output@,
        ran(first, depth, first_after, first_result),
        ran(second, depth, second_after, second_result),
    ensures
        first_after.output@ == second_after.output@,
        first_after.defs.view() == second_after.defs.view(),
        first_result == second_result,
{
    match (first_result, second_result) {
        (Err(a), Err(b)) => {
            assert(a.error == b.error && a.node == b.node && a.span == b.span);
            assert(a == b);
        },
        (Ok(a), Ok(b)) => {
            assert(a == b);
        },
        _ => {},
    }
}

} // verus!
