//! How values are written out: the text that `print_dbg` and `print_char`
//! produce.

use vstd::prelude::*;
use vstd::string::StringExecFns;
use crate::runtime::value::{RtValue, Value};
use crate::text::{decimal, push_decimal};

verus! {

/// The text that stands for a value.
pub open spec fn render(v: Value) -> Seq<char>
    decreases v,
{
    match v {
        Value::Numeral(n) => decimal(n as nat),
        Value::PartialNumeral { function, n } => render(*function) + " * "@ + decimal(n as nat),
        Value::Closure { .. } => "<lambda>"@,
        Value::NativeFunction(_) => "<interpreter builtin>"@,
    }
}

/// The texts of a run of values, separated by a comma and a space.
pub open spec fn render_items(vs: Seq<Value>) -> Seq<char>
    decreases vs.len(),
{
    if vs.len() == 0 {
        Seq::empty()
    } else if vs.len() == 1 {
        render(vs[0])
    } else {
        render_items(vs.drop_last()) + ", "@ + render(vs.last())
    }
}

/// The text that stands for a list of values: the items between brackets.
pub open spec fn render_list(vs: Seq<Value>) -> Seq<char> {
    "["@ + render_items(vs) + "]"@
}

/// Appends the text that stands for `v`.
pub fn push_value(out: &mut String, v: &RtValue)
    ensures
        final(out)@ == old(out)@ + render(v.view()),
    decreases v,
{
    match v {
        RtValue::Numeral(n) => push_decimal(out, *n),
        RtValue::PartialNumeral { function, n } => {
            push_value(out, function);
            out.append(" * ");
            push_decimal(out, *n);
        },
        RtValue::Closure { .. } => out.append("<lambda>"),
        RtValue::NativeFunction(_) => out.append("<interpreter builtin>"),
    }
}

/// Appends the text that stands for the list `vs`.
pub fn push_list(out: &mut String, vs: &Vec<RtValue>)
    ensures
        final(out)@ == old(out)@ + render_list(value_views(vs@)),
{
    out.append("[");
    let ghost opened = out@;
    let mut i: usize = 0;
    while i < vs.len()
        invariant
            i <= vs.len(),
            out@ == opened + render_items(value_views(vs@).take(i as int)),
        decreases vs.len() - i,
    {
        if i > 0 {
            out.append(", ");
        }
        push_value(out, &vs[i]);
        proof {
            let all = value_views(vs@);
            assert(all.take(i + 1).drop_last() =~= all.take(i as int));
        }
        i = i + 1;
    }
    out.append("]");
    proof {
        let all = value_views(vs@);
        assert(all.take(vs.len() as int) =~= all);
    }
}

/// The models of a run of values, in order.
pub open spec fn value_views(vs: Seq<RtValue>) -> Seq<Value> {
    Seq::new(vs.len(), |i: int| vs[i].view())
}

impl<'a> RtValue<'a> {
    /// The text that stands for the value.
    pub fn render(&self) -> (r: String)
        ensures
            r@ == render(self.view()),
    {
        let mut out = String::new();
        push_value(&mut out, self);
        out
    }
}

} // verus!
