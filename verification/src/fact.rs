//! Facts: what a probe has found out, each under a key.

use vstd::prelude::*;
use crate::numeral::{decimal, to_decimal};

verus! {

/// The value of a fact: a text or a count.
#[derive(Debug, PartialEq, Eq)]
pub enum Value {
    Text(String),
    Integer(usize),
}

/// A value as contracts see it.
pub enum Datum {
    Text(Seq<char>),
    Integer(nat),
}

impl Datum {
    /// The value written out as text: a text is itself, a count is its
    /// decimal numeral.
    pub open spec fn text(self) -> Seq<char> {
        match self {
            Datum::Text(s) => s,
            Datum::Integer(n) => decimal(n),
        }
    }
}

impl View for Value {
    type V = Datum;

    open spec fn view(&self) -> Datum {
        match self {
            Value::Text(s) => Datum::Text(s@),
            Value::Integer(n) => Datum::Integer(*n as nat),
        }
    }
}

impl Clone for Value {
    fn clone(&self) -> (copy: Self)
        ensures
            copy@ == self@,
    {
        match self {
            Value::Text(s) => Value::Text(s.clone()),
            Value::Integer(n) => Value::Integer(*n),
        }
    }
}

impl Value {
    /// The value written out as text.
    pub fn text(&self) -> (s: String)
        ensures
            s@ == self@.text(),
    {
        match self {
            Value::Text(s) => s.clone(),
            Value::Integer(n) => to_decimal(*n),
        }
    }
}

/// One fact: a value under a dotted key, such as `kernel.name`.
#[derive(Debug, PartialEq, Eq)]
pub struct Fact {
    pub key: String,
    pub value: Value,
}

impl View for Fact {
    type V = (Seq<char>, Datum);

    open spec fn view(&self) -> (Seq<char>, Datum) {
        (self.key@, self.value@)
    }
}

impl Clone for Fact {
    fn clone(&self) -> (copy: Self)
        ensures
            copy@ == self@,
    {
        Fact { key: self.key.clone(), value: self.value.clone() }
    }
}

/// The facts of a list as contracts see them, in the list's order.
pub open spec fn views(facts: Seq<Fact>) -> Seq<(Seq<char>, Datum)> {
    facts.map_values(|f: Fact| f@)
}

} // verus!
