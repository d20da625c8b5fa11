//! Payload values carried in message bodies.

use vstd::prelude::*;

verus! {

/// A payload value of a message body: the shapes of JSON that the node logic
/// reads or writes. Any other JSON shape is carried as `Other`.
#[derive(Debug, PartialEq, Eq)]
pub enum Value {
    Null,
    /// A non-negative integer.
    Unsigned(u64),
    /// An integer; a number read from the wire is held here only when negative.
    Signed(i64),
    Text(String),
    /// An array of non-negative integers.
    List(Vec<u64>),
    /// A value of a shape that no handler reads.
    Other,
}

/// The mathematical content of a [`Value`].
pub enum ValueView {
    Null,
    Unsigned(u64),
    Signed(i64),
    Text(Seq<char>),
    List(Seq<u64>),
    Other,
}

impl View for Value {
    type V = ValueView;

    open spec fn view(&self) -> ValueView {
        match self {
            Value::Null => ValueView::Null,
            Value::Unsigned(n) => ValueView::Unsigned(*n),
            Value::Signed(n) => ValueView::Signed(*n),
            Value::Text(s) => ValueView::Text(s@),
            Value::List(v) => ValueView::List(v@),
            Value::Other => ValueView::Other,
        }
    }
}

impl DeepView for Value {
    type V = ValueView;

    open spec fn deep_view(&self) -> ValueView {
        self@
    }
}

impl ValueView {
    /// The non-negative integer that this value denotes, if it denotes one.
    pub open spec fn as_u64(self) -> Option<u64> {
        match self {
            ValueView::Unsigned(n) => Some(n),
            ValueView::Signed(n) => if n >= 0 { Some(n as u64) } else { None },
            _ => None,
        }
    }

    /// The signed integer that this value denotes, if it denotes one that fits.
    pub open spec fn as_i64(self) -> Option<i64> {
        match self {
            ValueView::Unsigned(n) => if n <= i64::MAX { Some(n as i64) } else { None },
            ValueView::Signed(n) => Some(n),
            _ => None,
        }
    }

    /// The text that this value is, if it is one.
    pub open spec fn as_text(self) -> Option<Seq<char>> {
        match self {
            ValueView::Text(s) => Some(s),
            _ => None,
        }
    }

    /// The value that stands for the integer `n` on the wire.
    pub open spec fn of_i64(n: i64) -> ValueView {
        if n >= 0 {
            ValueView::Unsigned(n as u64)
        } else {
            ValueView::Signed(n)
        }
    }
}

impl Clone for Value {
    fn clone(&self) -> (res: Self)
        ensures
            res@ == self@,
    {
        match self {
            Value::Null => Value::Null,
            Value::Unsigned(n) => Value::Unsigned(*n),
            Value::Signed(n) => Value::Signed(*n),
            Value::Text(s) => Value::Text(s.clone()),
            Value::List(v) => Value::List(v.clone()),
            Value::Other => Value::Other,
        }
    }
}

impl Value {
    /// The non-negative integer that this value denotes, if it denotes one.
    pub fn as_u64(&self) -> (res: Option<u64>)
        ensures
            res == self@.as_u64(),
    {
        match self {
            Value::Unsigned(n) => Some(*n),
            Value::Signed(n) => if *n >= 0 { Some(*n as u64) } else { None },
            _ => None,
        }
    }

    /// The signed integer that this value denotes, if it denotes one that fits.
    pub fn as_i64(&self) -> (res: Option<i64>)
        ensures
            res == self@.as_i64(),
    {
        match self {
            Value::Unsigned(n) => if *n <= i64::MAX as u64 { Some(*n as i64) } else { None },
            Value::Signed(n) => Some(*n),
            _ => None,
        }
    }

    /// Whether this value is `null`.
    pub fn is_null(&self) -> (res: bool)
        ensures
            res == (self@ == ValueView::Null),
    {
        match self {
            Value::Null => true,
            _ => false,
        }
    }

    /// The value that stands for the integer `n` on the wire.
    pub fn from_i64(n: i64) -> (res: Value)
        ensures
            res@ == ValueView::of_i64(n),
    {
        if n >= 0 {
            Value::Unsigned(n as u64)
        } else {
            Value::Signed(n)
        }
    }
}

} // verus!
