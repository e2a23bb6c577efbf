//! What evaluation means, as functions on models.
//!
//! The functions take a `depth`: how far calls may nest. Every nested
//! evaluation gets one less, and an evaluation that would need to nest
//! further at depth 0 fails with `StackOverflow`. Output is modelled as the
//! text an evaluation emits, in order.

use vstd::prelude::*;
use vstd::string::StringExecFns;
use crate::ast::{ExprKindView, ExprView, NodeKindView, NodeView};
use crate::runtime::render::{render, render_list};
use crate::text::code_point_char;
use crate::runtime::value::{Bindings, Native, Value};

verus! {

/// Why a run stopped. Each is fatal: the language has no way to recover.
#[derive(Debug, Clone, Copy, PartialEq, Eq)]
pub enum RuntimeError {
    /// An identifier with no binding.
    UnknownVariable,
    /// A call with the wrong number of arguments.
    ArityMismatch,
    /// Calls nested deeper than the depth allowed.
    StackOverflow,
    /// A host function was given a value that it cannot work on.
    InvalidArgument,
}

impl RuntimeError {
    /// What the failure is called in a message.
    pub open spec fn title(self) -> Seq<char> {
        match self {
            RuntimeError::UnknownVariable => "unknown variable"@,
            RuntimeError::ArityMismatch => "arity mismatch"@,
            RuntimeError::StackOverflow => "stack overflow"@,
            RuntimeError::InvalidArgument => "invalid argument"@,
        }
    }

    /// What the failure is called in a message, as text.
    pub fn describe(&self) -> (r: String)
        ensures
            r@ == self.title(),
    {
        match self {
            RuntimeError::UnknownVariable => String::from_str("unknown variable"),
            RuntimeError::ArityMismatch => String::from_str("arity mismatch"),
            RuntimeError::StackOverflow => String::from_str("stack overflow"),
            RuntimeError::InvalidArgument => String::from_str("invalid argument"),
        }
    }
}

/// What evaluating one expression gives: the text emitted, and the value
/// or the failure.
pub ghost struct Outcome {
    pub emitted: Seq<char>,
    pub result: Result<Value, RuntimeError>,
}

/// What evaluating a list of expressions gives.
pub ghost struct Outcomes {
    pub emitted: Seq<char>,
    pub result: Result<Seq<Value>, RuntimeError>,
}

/// A value, with nothing emitted.
pub open spec fn done(v: Value) -> Outcome {
    Outcome { emitted: Seq::empty(), result: Ok(v) }
}

/// A failure, with nothing emitted.
pub open spec fn fail(e: RuntimeError) -> Outcome {
    Outcome { emitted: Seq::empty(), result: Err(e) }
}

/// `o`, after `prefix` was emitted.
pub open spec fn after(prefix: Seq<char>, o: Outcome) -> Outcome {
    Outcome { emitted: prefix + o.emitted, result: o.result }
}

/// `env` with each parameter bound to its argument, in order, so that a
/// later parameter of the same name wins.
pub open spec fn bind(env: Bindings, params: Seq<Seq<char>>, args: Seq<Value>) -> Bindings
    recommends
        params.len() == args.len(),
    decreases params.len(),
{
    if params.len() == 0 || args.len() == 0 {
        env
    } else {
        bind(env, params.drop_last(), args.drop_last()).insert(params.last(), args.last())
    }
}

/// The text that `print_char` emits for one argument.
pub open spec fn char_text(v: Value) -> Seq<char> {
    match v {
        Value::Numeral(n) => seq![code_point_char(n)],
        Value::PartialNumeral { n, .. } => seq![code_point_char(n)],
        _ => "<char "@ + render(v) + ">\n"@,
    }
}

/// The text that `print_char` emits for its arguments.
pub open spec fn chars_text(vs: Seq<Value>) -> Seq<char>
    decreases vs.len(),
{
    if vs.len() == 0 {
        Seq::empty()
    } else {
        chars_text(vs.drop_last()) + char_text(vs.last())
    }
}

/// The value of the expression `e` under `env`.
pub open spec fn eval(depth: nat, env: Bindings, e: ExprKindView) -> Outcome
    decreases depth, 0nat, 0nat,
{
    match e {
        ExprKindView::Ident(name) => if env.contains_key(name) {
            done(env[name])
        } else {
            fail(RuntimeError::UnknownVariable)
        },
        ExprKindView::Number(n) => done(Value::Numeral(n)),
        ExprKindView::Lambda(params, body) => done(
            Value::Closure { captured: env, params, body: *body },
        ),
        ExprKindView::Call(callee, args) => if depth == 0 {
            fail(RuntimeError::StackOverflow)
        } else {
            let f = eval((depth - 1) as nat, env, callee.kind);
            match f.result {
                Err(_) => f,
                Ok(function) => {
                    let a = eval_all((depth - 1) as nat, env, args, 0);
                    match a.result {
                        Err(e) => Outcome { emitted: f.emitted + a.emitted, result: Err(e) },
                        Ok(values) => after(
                            f.emitted + a.emitted,
                            apply((depth - 1) as nat, function, values),
                        ),
                    }
                },
            }
        },
    }
}

/// The values of the expressions `es[from..]` under `env`, evaluated from
/// left to right up to the first failure.
pub open spec fn eval_all(depth: nat, env: Bindings, es: Seq<ExprView>, from: nat) -> Outcomes
    decreases depth, 1nat, es.len() - from,
{
    if from >= es.len() {
        Outcomes { emitted: Seq::empty(), result: Ok(Seq::empty()) }
    } else {
        let first = eval(depth, env, es[from as int].kind);
        match first.result {
            Err(e) => Outcomes { emitted: first.emitted, result: Err(e) },
            Ok(v) => {
                let rest = eval_all(depth, env, es, from + 1);
                Outcomes {
                    emitted: first.emitted + rest.emitted,
                    result: match rest.result {
                        Err(e) => Err(e),
                        Ok(vs) => Ok(seq![v] + vs),
                    },
                }
            },
        }
    }
}

/// What calling the value `f` with `args` gives.
pub open spec fn apply(depth: nat, f: Value, args: Seq<Value>) -> Outcome
    decreases depth, 1nat, 0nat,
{
    match f {
        Value::Closure { captured, params, body } => if args.len() != params.len() {
            fail(RuntimeError::ArityMismatch)
        } else if depth == 0 {
            fail(RuntimeError::StackOverflow)
        } else {
            eval((depth - 1) as nat, bind(captured, params, args), body.kind)
        },
        Value::Numeral(n) => if args.len() != 1 {
            fail(RuntimeError::ArityMismatch)
        } else {
            done(Value::PartialNumeral { function: Box::new(args[0]), n })
        },
        Value::PartialNumeral { function, n } => if args.len() != 1 {
            fail(RuntimeError::ArityMismatch)
        } else {
            iterate(depth, *function, n as nat, args[0])
        },
        Value::NativeFunction(native) => call_native(depth, native, args),
    }
}

/// `f` applied `n` times, starting from `acc`.
pub open spec fn iterate(depth: nat, f: Value, n: nat, acc: Value) -> Outcome
    decreases depth, 0nat, n,
{
    if n == 0 {
        done(acc)
    } else if depth == 0 {
        fail(RuntimeError::StackOverflow)
    } else {
        let once = apply((depth - 1) as nat, f, seq![acc]);
        match once.result {
            Err(_) => once,
            Ok(v) => after(once.emitted, iterate(depth, f, (n - 1) as nat, v)),
        }
    }
}

/// What calling the host function `native` with `args` gives.
pub open spec fn call_native(depth: nat, native: Native, args: Seq<Value>) -> Outcome
    decreases depth, 0nat, 0nat,
{
    match native {
        Native::PrintDbg => Outcome {
            emitted: render_list(args) + "\n"@,
            result: Ok(Value::Numeral(0)),
        },
        Native::PrintChar => Outcome { emitted: chars_text(args), result: Ok(Value::Numeral(0)) },
        Native::Flatten => if args.len() != 1 {
            fail(RuntimeError::ArityMismatch)
        } else if depth == 0 {
            fail(RuntimeError::StackOverflow)
        } else {
            let partial = apply(
                (depth - 1) as nat,
                args[0],
                seq![Value::NativeFunction(Native::Succ)],
            );
            match partial.result {
                Err(_) => partial,
                Ok(p) => after(
                    partial.emitted,
                    apply((depth - 1) as nat, p, seq![Value::Numeral(0)]),
                ),
            }
        },
        Native::Succ => if args.len() != 1 {
            fail(RuntimeError::ArityMismatch)
        } else {
            match args[0] {
                Value::Numeral(n) => if n < u64::MAX {
                    done(Value::Numeral((n + 1) as u64))
                } else {
                    fail(RuntimeError::InvalidArgument)
                },
                _ => fail(RuntimeError::InvalidArgument),
            }
        },
    }
}

/// What running one top-level node gives: the text emitted, and the
/// bindings afterwards or the failure.
pub ghost struct Step {
    pub emitted: Seq<char>,
    pub result: Result<Bindings, RuntimeError>,
}

/// Runs one node: a binding adds or replaces a name, a bare expression
/// leaves the bindings as they were.
pub open spec fn step(depth: nat, env: Bindings, node: NodeKindView) -> Step {
    match node {
        NodeKindView::VariableAssign { var, expr } => {
            let o = eval(depth, env, expr.kind);
            Step {
                emitted: o.emitted,
                result: match o.result {
                    Ok(v) => Ok(env.insert(var, v)),
                    Err(e) => Err(e),
                },
            }
        },
        NodeKindView::Expr(kind) => {
            let o = eval(depth, env, kind);
            Step {
                emitted: o.emitted,
                result: match o.result {
                    Ok(_) => Ok(env),
                    Err(e) => Err(e),
                },
            }
        },
    }
}

/// What running a program gives: the text emitted, the bindings at the
/// end, and, where a node failed, the failure and the node's index.
pub ghost struct Run {
    pub emitted: Seq<char>,
    pub bindings: Bindings,
    pub failure: Option<(RuntimeError, nat)>,
}

/// Runs the nodes `nodes[from..]` in order, up to the first failure.
pub open spec fn run_from(depth: nat, env: Bindings, nodes: Seq<NodeView>, from: nat) -> Run
    decreases nodes.len() - from,
{
    if from >= nodes.len() {
        Run { emitted: Seq::empty(), bindings: env, failure: None }
    } else {
        let s = step(depth, env, nodes[from as int].kind);
        match s.result {
            Err(e) => Run { emitted: s.emitted, bindings: env, failure: Some((e, from)) },
            Ok(next) => {
                let rest = run_from(depth, next, nodes, from + 1);
                Run {
                    emitted: s.emitted + rest.emitted,
                    bindings: rest.bindings,
                    failure: rest.failure,
                }
            },
        }
    }
}

} // verus!
