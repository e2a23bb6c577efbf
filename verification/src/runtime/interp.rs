//! The interpreter: executable evaluation, proved to compute what
//! `semantics` defines.

use vstd::prelude::*;
use vstd::string::StringExecFns;
use std::rc::Rc;
use crate::ast::{Ast, ExprKind, ExprKindView, Node, NodeKind};
use crate::ast::{expr_views, lemma_call_view, name_views, node_views};
use crate::lexer::Span;
use crate::runtime::render::{push_list, push_value, value_views};
use crate::text::{decimal, push_code_point, push_decimal};
use crate::runtime::semantics::{Outcomes, RuntimeError};
use crate::runtime::semantics::{after, apply, bind, call_native, chars_text, eval, eval_all, iterate, run_from, step};
use crate::runtime::value::{Bindings, Env, Native, RtValue, Value};

verus! {

/// An interpreter over one program: the bindings in force and the text
/// written so far.
#[derive(Debug)]
pub struct Interpreter<'a> {
    pub ast: &'a Ast,
    pub defs: Env<'a>,
    pub output: String,
}

/// Whether the executable result `r` is the modelled result `expected`.
pub open spec fn yields<'a>(
    r: Result<RtValue<'a>, RuntimeError>,
    expected: Result<Value, RuntimeError>,
) -> bool {
    match expected {
        Ok(v) => r matches Ok(x) && x.view() == v,
        Err(e) => r == Err::<RtValue<'a>, RuntimeError>(e),
    }
}

/// The values `vs`, followed by what `o` holds, after `prefix` was emitted.
pub open spec fn prepend(prefix: Seq<char>, vs: Seq<Value>, o: Outcomes) -> Outcomes {
    Outcomes {
        emitted: prefix + o.emitted,
        result: match o.result {
            Ok(rest) => Ok(vs + rest),
            Err(e) => Err(e),
        },
    }
}

/// The bindings that a standard run starts from: the three host functions
/// under their names.
pub open spec fn standard_bindings() -> Bindings {
    Map::<Seq<char>, Value>::empty().insert(
        "print_dbg"@,
        Value::NativeFunction(Native::PrintDbg),
    ).insert("print_char"@, Value::NativeFunction(Native::PrintChar)).insert(
        "flatten"@,
        Value::NativeFunction(Native::Flatten),
    )
}

impl<'a> Interpreter<'a> {
    /// An interpreter over `ast` with no bindings and no output.
    pub fn new(ast: &'a Ast) -> (r: Self)
        ensures
            r.ast == ast,
            r.defs.view() == Map::<Seq<char>, Value>::empty(),
            r.output@ == Seq::<char>::empty(),
    {
        Interpreter { ast, defs: Env::new(), output: String::new() }
    }

    /// An interpreter over `ast` that starts from the standard bindings.
    pub fn standard(ast: &'a Ast) -> (r: Self)
        ensures
            r.ast == ast,
            r.defs.view() == standard_bindings(),
            r.output@ == Seq::<char>::empty(),
    {
        let mut machine = Interpreter::new(ast);
        machine.define("print_dbg", RtValue::NativeFunction(Native::PrintDbg));
        machine.define("print_char", RtValue::NativeFunction(Native::PrintChar));
        machine.define("flatten", RtValue::NativeFunction(Native::Flatten));
        machine
    }

    /// Binds `name` to `value`, in place of what `name` was bound to.
    pub fn define(&mut self, name: &str, value: RtValue<'a>)
        ensures
            final(self).ast == old(self).ast,
            final(self).output == old(self).output,
            final(self).defs.view() == old(self).defs.view().insert(name@, value.view()),
    {
        self.defs.insert(String::from_str(name), value);
    }

    /// A copy of the value bound to `name`, if there is one.
    pub fn lookup(&self, name: &str) -> (r: Option<RtValue<'a>>)
        ensures
            match r {
                Some(v) => self.defs.view().contains_key(name@) && v.view() == self.defs.view()[name@],
                None => !self.defs.view().contains_key(name@),
            },
    {
        let name = String::from_str(name);
        match self.defs.get(&name) {
            Some(v) => Some(v.duplicate()),
            None => None,
        }
    }

    /// Evaluates `expr` under the current bindings, nesting calls at most
    /// `depth` deep. The bindings are left as they were; what the
    /// evaluation writes is appended to the output.
    pub fn run_expr(&mut self, expr: &'a ExprKind, depth: usize) -> (r: Result<
        RtValue<'a>,
        RuntimeError,
    >)
        ensures
            final(self).ast == old(self).ast,
            final(self).defs == old(self).defs,
            final(self).output@ == old(self).output@ + eval(
                depth as nat,
                old(self).defs.view(),
                expr.view(),
            ).emitted,
            yields(r, eval(depth as nat, old(self).defs.view(), expr.view()).result),
            expr matches ExprKind::Ident(name) && !old(self).defs.view().contains_key(name@) ==> r
                == Err::<RtValue<'a>, RuntimeError>(RuntimeError::UnknownVariable),
        decreases depth, 0nat,
    {
        let ghost env = self.defs.view();
        let ghost out0 = self.output@;
        match expr {
            ExprKind::Ident(id) => {
                match self.defs.get(id) {
                    Some(v) => Ok(v.duplicate()),
                    None => Err(RuntimeError::UnknownVariable),
                }
            },
            ExprKind::Number(n) => {
                Ok(RtValue::Numeral(*n))
            },
            ExprKind::Lambda(args, body) => {
                Ok(RtValue::Closure { captured: self.defs.duplicate(), params: args, body: &**body })
            },
            ExprKind::Call(id, args) => {
                proof {
                    lemma_call_view(*expr);
                }
                if depth == 0 {
                    return Err(RuntimeError::StackOverflow);
                }
                let ghost es = expr_views(args@);
                let ghost d = (depth - 1) as nat;
                let ghost callee = id.view();
                let ghost f = eval(d, env, callee.kind);
                let id = match self.run_expr(&id.kind, depth - 1) {
                    Ok(id) => id,
                    Err(e) => { return Err(e); },
                };
                let mut values: Vec<RtValue<'a>> = Vec::new();
                let ghost mut emitted: Seq<char> = Seq::empty();
                let mut i: usize = 0;
                proof {
                    let all = eval_all(d, env, es, 0);
                    if all.result is Ok {
                    }
                }
                while i < args.len()
                    invariant
                        self.ast == old(self).ast,
                        self.defs == old(self).defs,
                        env == old(self).defs.view(),
                        out0 == old(self).output@,
                        expr.view() == ExprKindView::Call(Box::new(callee), es),
                        f == eval(d, env, callee.kind),
                        f.result is Ok,
                        es == expr_views(args@),
                        d == depth - 1,
                        depth > 0,
                        i <= args.len(),
                        self.output@ == out0 + f.emitted + emitted,
                        eval_all(d, env, es, 0) == prepend(
                            emitted,
                            value_views(values@),
                            eval_all(d, env, es, i as nat),
                        ),
                    decreases args.len() - i,
                {
                    let ghost first = eval(d, env, es[i as int].kind);
                    let ghost rest = eval_all(d, env, es, (i + 1) as nat);
                    let ghost before = value_views(values@);
                    let v = match self.run_expr(&args[i].kind, depth - 1) {
                        Ok(v) => v,
                        Err(e) => {
                            return Err(e);
                        },
                    };
                    values.push(v);
                    proof {
                        let value = first.result.unwrap();
                        assert(value_views(values@) =~= before.push(value));
                        assert(emitted + (first.emitted + rest.emitted) =~= emitted + first.emitted
                            + rest.emitted);
                        if rest.result is Ok {
                            assert(before + (seq![value] + rest.result.unwrap()) =~= before.push(
                                value,
                            ) + rest.result.unwrap());
                        }
                        emitted = emitted + first.emitted;
                    }
                    i = i + 1;
                }
                self.call_fn(&id, values, depth - 1)
            },
        }
    }

    /// Calls the value `id` with `args`.
    pub fn call_fn(&mut self, id: &RtValue<'a>, args: Vec<RtValue<'a>>, depth: usize) -> (r: Result<
        RtValue<'a>,
        RuntimeError,
    >)
        ensures
            final(self).ast == old(self).ast,
            final(self).defs == old(self).defs,
            final(self).output@ == old(self).output@ + apply(
                depth as nat,
                id.view(),
                value_views(args@),
            ).emitted,
            yields(r, apply(depth as nat, id.view(), value_views(args@)).result),
            id matches RtValue::Closure { params, .. } && params.len() != args.len() ==> r == Err::<
                RtValue<'a>,
                RuntimeError,
            >(RuntimeError::ArityMismatch),
            (id is Numeral || id is PartialNumeral) && args.len() != 1 ==> r == Err::<
                RtValue<'a>,
                RuntimeError,
            >(RuntimeError::ArityMismatch),
        decreases depth, 2nat,
    {
        let ghost out0 = self.output@;
        match id {
            RtValue::Closure { captured, params, body } => {
                if params.len() != args.len() {
                    return Err(RuntimeError::ArityMismatch);
                }
                if depth == 0 {
                    return Err(RuntimeError::StackOverflow);
                }
                let mut ns = captured.duplicate();
                let mut i: usize = 0;
                while i < params.len()
                    invariant
                        i <= params.len(),
                        params.len() == args.len(),
                        ns.view() == bind(
                            captured.view(),
                            name_views(params@).take(i as int),
                            value_views(args@).take(i as int),
                        ),
                    decreases params.len() - i,
                {
                    ns.insert(params[i].clone(), args[i].duplicate());
                    proof {
                        let ps = name_views(params@);
                        let vs = value_views(args@);
                        assert(ps.take(i + 1).drop_last() =~= ps.take(i as int));
                        assert(vs.take(i + 1).drop_last() =~= vs.take(i as int));
                    }
                    i = i + 1;
                }
                proof {
                    assert(name_views(params@).take(i as int) =~= name_views(params@));
                    assert(value_views(args@).take(i as int) =~= value_views(args@));
                }
                core::mem::swap(&mut self.defs, &mut ns);
                let ret = self.run_expr(&body.kind, depth - 1);
                core::mem::swap(&mut self.defs, &mut ns);
                ret
            },
            RtValue::Numeral(n) => {
                if args.len() != 1 {
                    return Err(RuntimeError::ArityMismatch);
                }
                Ok(RtValue::PartialNumeral { function: Rc::new(args[0].duplicate()), n: *n })
            },
            RtValue::PartialNumeral { function, n } => {
                if args.len() != 1 {
                    return Err(RuntimeError::ArityMismatch);
                }
                self.iterate(function, *n, args[0].duplicate(), depth)
            },
            RtValue::NativeFunction(native) => self.call_native(*native, args, depth),
        }
    }

    /// Applies `f` to `start`, then to what that gives, `n` times in all.
    fn iterate(&mut self, f: &RtValue<'a>, n: u64, start: RtValue<'a>, depth: usize) -> (r: Result<
        RtValue<'a>,
        RuntimeError,
    >)
        ensures
            final(self).ast == old(self).ast,
            final(self).defs == old(self).defs,
            final(self).output@ == old(self).output@ + iterate(
                depth as nat,
                f.view(),
                n as nat,
                start.view(),
            ).emitted,
            yields(r, iterate(depth as nat, f.view(), n as nat, start.view()).result),
        decreases depth, 1nat,
    {
        let ghost out0 = self.output@;
        let ghost first = start.view();
        let ghost whole = iterate(depth as nat, f.view(), n as nat, first);
        let ghost mut emitted: Seq<char> = Seq::empty();
        let mut acc = start;
        let mut k: u64 = 0;
        while k < n
            invariant
                self.ast == old(self).ast,
                self.defs == old(self).defs,
                k <= n,
                out0 == old(self).output@,
                first == start.view(),
                whole == iterate(depth as nat, f.view(), n as nat, first),
                self.output@ == out0 + emitted,
                whole == after(emitted, iterate(depth as nat, f.view(), (n - k) as nat, acc.view())),
            decreases n - k,
        {
            if depth == 0 {
                return Err(RuntimeError::StackOverflow);
            }
            let ghost once = apply((depth - 1) as nat, f.view(), seq![acc.view()]);
            let ghost rest = match once.result {
                Ok(v) => iterate(depth as nat, f.view(), (n - k - 1) as nat, v),
                Err(_) => once,
            };
            let mut single: Vec<RtValue<'a>> = Vec::new();
            single.push(acc);
            assert(value_views(single@) =~= seq![acc.view()]);
            acc = match self.call_fn(f, single, depth - 1) {
                Ok(v) => v,
                Err(e) => {
                    return Err(e);
                },
            };
            proof {
                assert(emitted + (once.emitted + rest.emitted) =~= emitted + once.emitted
                    + rest.emitted);
                emitted = emitted + once.emitted;
            }
            k = k + 1;
        }
        Ok(acc)
    }

    /// Calls the host function `native` with `args`.
    fn call_native(&mut self, native: Native, args: Vec<RtValue<'a>>, depth: usize) -> (r: Result<
        RtValue<'a>,
        RuntimeError,
    >)
        ensures
            final(self).ast == old(self).ast,
            final(self).defs == old(self).defs,
            final(self).output@ == old(self).output@ + call_native(
                depth as nat,
                native,
                value_views(args@),
            ).emitted,
            yields(r, call_native(depth as nat, native, value_views(args@)).result),
        decreases depth, 1nat,
    {
        let ghost out0 = self.output@;
        let ghost vs = value_views(args@);
        match native {
            Native::PrintDbg => {
                push_list(&mut self.output, &args);
                self.output.append("\n");
                Ok(RtValue::Numeral(0))
            },
            Native::PrintChar => {
                let mut i: usize = 0;
                while i < args.len()
                    invariant
                        self.ast == old(self).ast,
                        self.defs == old(self).defs,
                        vs == value_views(args@),
                        i <= args.len(),
                        self.output@ == out0 + chars_text(vs.take(i as int)),
                    decreases args.len() - i,
                {
                    match &args[i] {
                        RtValue::Numeral(n) => push_code_point(&mut self.output, *n),
                        RtValue::PartialNumeral { n, .. } => push_code_point(&mut self.output, *n),
                        c => {
                            self.output.append("<char ");
                            push_value(&mut self.output, c);
                            self.output.append(">\n");
                        },
                    }
                    proof {
                        assert(vs.take(i + 1).drop_last() =~= vs.take(i as int));
                    }
                    i = i + 1;
                }
                proof {
                    assert(vs.take(i as int) =~= vs);
                }
                Ok(RtValue::Numeral(0))
            },
            Native::Flatten => {
                if args.len() != 1 {
                    return Err(RuntimeError::ArityMismatch);
                }
                if depth == 0 {
                    return Err(RuntimeError::StackOverflow);
                }
                let mut succ: Vec<RtValue<'a>> = Vec::new();
                succ.push(RtValue::NativeFunction(Native::Succ));
                assert(value_views(succ@) =~= seq![Value::NativeFunction(Native::Succ)]);
                let a = match self.call_fn(&args[0], succ, depth - 1) {
                    Ok(a) => a,
                    Err(e) => { return Err(e); },
                };
                let mut zero: Vec<RtValue<'a>> = Vec::new();
                zero.push(RtValue::Numeral(0));
                assert(value_views(zero@) =~= seq![Value::Numeral(0)]);
                self.call_fn(&a, zero, depth - 1)
            },
            Native::Succ => {
                if args.len() != 1 {
                    return Err(RuntimeError::ArityMismatch);
                }
                match &args[0] {
                    RtValue::Numeral(n) => if *n < u64::MAX {
                        Ok(RtValue::Numeral(*n + 1))
                    } else {
                        Err(RuntimeError::InvalidArgument)
                    },
                    _ => Err(RuntimeError::InvalidArgument),
                }
            },
        }
    }

    /// Runs one top-level node: a binding adds or replaces a name, a bare
    /// expression is evaluated for what it writes.
    pub fn run_node(&mut self, n: &'a NodeKind, depth: usize) -> (r: Result<(), RuntimeError>)
        ensures
            final(self).ast == old(self).ast,
            final(self).output@ == old(self).output@ + step(
                depth as nat,
                old(self).defs.view(),
                n.view(),
            ).emitted,
            match step(depth as nat, old(self).defs.view(), n.view()).result {
                Ok(bindings) => r is Ok && final(self).defs.view() == bindings,
                Err(e) => r == Err::<(), RuntimeError>(e) && final(self).defs == old(self).defs,
            },
    {
        match n {
            NodeKind::VariableAssign { var, expr } => {
                let val = match self.run_expr(&expr.kind, depth) {
                    Ok(val) => val,
                    Err(e) => { return Err(e); },
                };
                self.defs.insert(var.clone(), val);
                Ok(())
            },
            NodeKind::Expr(expr) => {
                match self.run_expr(expr, depth) {
                    Ok(_) => Ok(()),
                    Err(e) => Err(e),
                }
            },
        }
    }

    /// Runs the program: every node in order, up to the first failure.
    pub fn run(&mut self, depth: usize) -> (r: Result<(), RunError>)
        ensures
            ran(*old(self), depth, *final(self), r),
    {
        let ast: &'a Ast = self.ast;
        let ghost nodes = node_views(ast@);
        let ghost out0 = self.output@;
        let ghost env0 = self.defs.view();
        let ghost whole = run_from(depth as nat, env0, nodes, 0);
        let ghost mut emitted: Seq<char> = Seq::empty();
        let mut i: usize = 0;
        while i < ast.len()
            invariant
                self.ast == old(self).ast,
                ast == self.ast,
                nodes == node_views(ast@),
                out0 == old(self).output@,
                env0 == old(self).defs.view(),
                whole == run_from(depth as nat, env0, nodes, 0),
                i <= ast.len(),
                self.output@ == out0 + emitted,
                whole.emitted == emitted + run_from(
                    depth as nat,
                    self.defs.view(),
                    nodes,
                    i as nat,
                ).emitted,
                whole.bindings == run_from(depth as nat, self.defs.view(), nodes, i as nat).bindings,
                whole.failure == run_from(depth as nat, self.defs.view(), nodes, i as nat).failure,
            decreases ast.len() - i,
        {
            let node = &ast[i];
            let ghost s = step(depth as nat, self.defs.view(), node.kind.view());
            match self.run_node(&node.kind, depth) {
                Ok(()) => {},
                Err(e) => {
                    proof {
                        assert(out0 + emitted + s.emitted =~= out0 + (emitted + s.emitted));
                    }
                    return Err(
                        RunError {
                            error: e,
                            node: i,
                            span: Span { start: node.span.start, end: node.span.end },
                        },
                    );
                },
            }
            proof {
                emitted = emitted + s.emitted;
            }
            i = i + 1;
        }
        Ok(())
    }
}

/// A failed run: what went wrong, in which top-level node, and where that
/// node stands in the source.
#[derive(Debug, PartialEq, Eq)]
pub struct RunError {
    pub error: RuntimeError,
    pub node: usize,
    pub span: Span,
}

impl RunError {
    /// The message for the failure: its kind, the index of the node, and
    /// the node's span.
    pub open spec fn message(self) -> Seq<char> {
        self.error.title() + " in node "@ + decimal(self.node as nat) + " at "@ + decimal(
            self.span.start as nat,
        ) + ".."@ + decimal(self.span.end as nat)
    }

    /// The message for the failure, as text.
    pub fn describe(&self) -> (r: String)
        ensures
            r@ == self.message(),
    {
        let mut out = self.error.describe();
        out.append(" in node ");
        push_decimal(&mut out, self.node as u64);
        out.append(" at ");
        push_decimal(&mut out, self.span.start as u64);
        out.append("..");
        push_decimal(&mut out, self.span.end as u64);
        out
    }
}

/// Whether the interpreter `after` and the result `r` are what a run of
/// `before` at `depth` leaves: the program is the same, the output has
/// grown by what the run emits, the bindings are those at its end, and `r`
/// reports its failure.
pub open spec fn ran(
    before: Interpreter,
    depth: usize,
    after: Interpreter,
    r: Result<(), RunError>,
) -> bool {
    let whole = run_from(depth as nat, before.defs.view(), node_views(before.ast@), 0);
    &&& after.ast == before.ast
    &&& after.output@ == before.output@ + whole.emitted
    &&& after.defs.view() == whole.bindings
    &&& reports(r, whole.failure, before.ast@)
}

/// What a run leaves behind: the text it wrote, and how it ended.
#[derive(Debug, PartialEq, Eq)]
pub struct Report {
    pub output: String,
    pub result: Result<(), RunError>,
}

/// Runs `ast` from the standard bindings, nesting calls at most `depth`
/// deep, and reports what it wrote and how it ended.
pub fn run(ast: &Ast, depth: usize) -> (report: Report)
    ensures
        report.output@ == run_from(
            depth as nat,
            standard_bindings(),
            node_views(ast@),
            0,
        ).emitted,
        reports(
            report.result,
            run_from(depth as nat, standard_bindings(), node_views(ast@), 0).failure,
            ast@,
        ),
{
    let mut machine = Interpreter::standard(ast);
    let result = machine.run(depth);
    Report { output: machine.output, result }
}

/// Whether `r` reports the modelled `failure` of a run over `ast`.
pub open spec fn reports(
    r: Result<(), RunError>,
    failure: Option<(RuntimeError, nat)>,
    ast: Seq<Node>,
) -> bool {
    match failure {
        None => r is Ok,
        Some((e, at)) => r matches Err(x) && x.error == e && x.node == at && at < ast.len()
            && x.span == ast[at as int].span,
    }
}

} // verus!
