//! The values that assertions compare and that message templates take.

use vstd::prelude::*;
use crate::text::{decimal, decimal_text};

verus! {

/// A value that an assertion can compare and print.
#[derive(Debug)]
pub enum Value {
    Bool(bool),
    Integer(i64),
    Text(String),
}

/// The mathematical value of a [`Value`].
pub enum ValueView {
    Bool(bool),
    Integer(int),
    Text(Seq<char>),
}

impl View for Value {
    type V = ValueView;

    open spec fn view(&self) -> ValueView {
        match self {
            Value::Bool(b) => ValueView::Bool(*b),
            Value::Integer(n) => ValueView::Integer(*n as int),
            Value::Text(s) => ValueView::Text(s@),
        }
    }
}

/// How a value is written in a message: a boolean as `true` or `false`, an
/// integer as its decimal numeral with a leading `-` below zero, a text as
/// it stands.
pub open spec fn formatted(value: ValueView) -> Seq<char> {
    match value {
        ValueView::Bool(b) => if b {
            "true"@
        } else {
            "false"@
        },
        ValueView::Integer(n) => if n < 0 {
            "-"@ + decimal((-n) as nat)
        } else {
            decimal(n as nat)
        },
        ValueView::Text(s) => s,
    }
}

/// Each of `values` as it is written in a message.
pub open spec fn formatted_all(values: Seq<Value>) -> Seq<Seq<char>> {
    values.map_values(|v: Value| formatted(v@))
}

impl Value {
    /// Value equality: the same kind of value, holding the same content.
    pub fn same(&self, other: &Value) -> (b: bool)
        ensures
            b == (self@ == other@),
    {
        match self {
            Value::Bool(x) => match other {
                Value::Bool(y) => *x == *y,
                _ => false,
            },
            Value::Integer(x) => match other {
                Value::Integer(y) => *x == *y,
                _ => false,
            },
            Value::Text(x) => match other {
                Value::Text(y) => *x == *y,
                _ => false,
            },
        }
    }

    /// Writes the value as it appears in a message.
    pub fn format(&self) -> (text: String)
        ensures
            text@ == formatted(self@),
    {
        match self {
            Value::Bool(b) => {
                if *b {
                    String::from_str("true")
                } else {
                    String::from_str("false")
                }
            },
            Value::Integer(n) => {
                if *n < 0 {
                    let magnitude: u64 = (-(*n + 1)) as u64 + 1;
                    let digits = decimal_text(magnitude);
                    String::from_str("-").concat(digits.as_str())
                } else {
                    decimal_text(*n as u64)
                }
            },
            Value::Text(s) => s.clone(),
        }
    }
}

/// Writes each of `values` as it appears in a message.
pub fn format_all(values: &Vec<Value>) -> (texts: Vec<String>)
    ensures
        texts@.map_values(|t: String| t@) == formatted_all(values@),
{
    let mut texts: Vec<String> = Vec::new();
    let mut i: usize = 0;
    while i < values.len()
        invariant
            i <= values.len(),
            texts.len() == i,
            forall|j: int| 0 <= j < i ==> (#[trigger] texts[j])@ == formatted(values[j]@),
        decreases values.len() - i,
    {
        texts.push(values[i].format());
        i += 1;
    }
    texts
}

} // verus!
