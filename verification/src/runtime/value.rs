//! Runtime values, environments and their mathematical models.

use vstd::prelude::*;
use std::rc::Rc;
use crate::ast::{Expr, ExprView, name_views};

verus! {

/// The host functions that a program can be given under a name.
#[derive(Debug, Clone, Copy, PartialEq, Eq)]
pub enum Native {
    /// Writes its arguments as a list and a line break; returns 0.
    PrintDbg,
    /// Writes each numeral argument as the character with that code point;
    /// returns 0.
    PrintChar,
    /// Turns a Church-style numeral into a plain one: applies its argument
    /// to `Succ` and the result to 0.
    Flatten,
    /// Returns its numeral argument plus one.
    Succ,
}

/// Model of a runtime value.
pub ghost enum Value {
    /// A plain integer.
    Numeral(u64),
    /// A numeral that has been given the function to iterate, but not yet
    /// the value to start from.
    PartialNumeral { function: Box<Value>, n: u64 },
    /// A lambda with the bindings that were current when it was evaluated.
    Closure { captured: Map<Seq<char>, Value>, params: Seq<Seq<char>>, body: ExprView },
    /// A host function.
    NativeFunction(Native),
}

/// Model of an environment: a map from names to values.
pub type Bindings = Map<Seq<char>, Value>;

/// A runtime value. Copies share what they hold, so `duplicate` takes
/// constant time.
#[derive(Debug, PartialEq, Eq)]
pub enum RtValue<'a> {
    Numeral(u64),
    PartialNumeral { function: Rc<RtValue<'a>>, n: u64 },
    Closure { captured: Env<'a>, params: &'a Vec<String>, body: &'a Expr },
    NativeFunction(Native),
}

/// An environment: a persistent list of bindings in which the newest
/// binding of a name is the one in force. A snapshot shares the list.
#[derive(Debug, PartialEq, Eq)]
pub struct Env<'a> {
    head: Option<Rc<Frame<'a>>>,
}

/// One binding and the bindings made before it.
#[derive(Debug, PartialEq, Eq)]
struct Frame<'a> {
    name: String,
    value: RtValue<'a>,
    rest: Env<'a>,
}

/// `Rc::clone`: a second handle to the same allocation. The contract says
/// that the new handle holds the value that the old one holds.
#[verifier::external_body]
fn share<T>(rc: &Rc<T>) -> (res: Rc<T>)
    ensures
        res == *rc,
{
    Rc::clone(rc)
}

impl<'a> RtValue<'a> {
    /// The model of the value.
    pub open spec fn view(&self) -> Value
        decreases self,
    {
        match self {
            RtValue::Numeral(n) => Value::Numeral(*n),
            RtValue::PartialNumeral { function, n } => Value::PartialNumeral {
                function: Box::new(function.view()),
                n: *n,
            },
            RtValue::Closure { captured, params, body } => Value::Closure {
                captured: captured.view(),
                params: name_views(params@),
                body: body.view(),
            },
            RtValue::NativeFunction(native) => Value::NativeFunction(*native),
        }
    }

    /// A copy of the value.
    pub fn duplicate(&self) -> (r: Self)
        ensures
            r == *self,
    {
        match self {
            RtValue::Numeral(n) => RtValue::Numeral(*n),
            RtValue::PartialNumeral { function, n } => RtValue::PartialNumeral {
                function: share(function),
                n: *n,
            },
            RtValue::Closure { captured, params, body } => RtValue::Closure {
                captured: captured.duplicate(),
                params: *params,
                body: *body,
            },
            RtValue::NativeFunction(native) => RtValue::NativeFunction(*native),
        }
    }
}

impl<'a> Env<'a> {
    /// The model of the environment: each name with the value that its
    /// newest binding gives it.
    pub closed spec fn view(&self) -> Bindings
        decreases self,
    {
        match self.head {
            None => Map::empty(),
            Some(frame) => frame.rest.view().insert(frame.name@, frame.value.view()),
        }
    }

    /// The environment without bindings.
    pub fn new() -> (r: Self)
        ensures
            r.view() == Map::<Seq<char>, Value>::empty(),
    {
        Env { head: None }
    }

    /// A snapshot of the environment.
    pub fn duplicate(&self) -> (r: Self)
        ensures
            r == *self,
    {
        match &self.head {
            None => Env { head: None },
            Some(frame) => Env { head: Some(share(frame)) },
        }
    }

    /// The value bound to `name`, if there is one.
    pub fn get(&self, name: &String) -> (r: Option<&RtValue<'a>>)
        ensures
            r is Some <==> self.view().contains_key(name@),
            r matches Some(v) ==> v.view() == self.view()[name@],
        decreases self,
    {
        match &self.head {
            None => None,
            Some(frame) => {
                if frame.name == *name {
                    Some(&frame.value)
                } else {
                    frame.rest.get(name)
                }
            },
        }
    }

    /// Binds `name` to `value`, in place of what `name` was bound to.
    pub fn insert(&mut self, name: String, value: RtValue<'a>)
        ensures
            final(self).view() == old(self).view().insert(name@, value.view()),
    {
        let rest = self.duplicate();
        *self = Env { head: Some(Rc::new(Frame { name, value, rest })) };
    }
}

} // verus!
