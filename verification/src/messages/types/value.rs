//! The values that a message carries as arguments.

use vstd::prelude::*;

verus! {

/// A positional argument list.
pub type List = Vec<Value>;

/// A keyword argument list: names with their values, in the order in which
/// they were received.
pub type Dict = Vec<(String, Value)>;

/// A value inside the arguments of a message. The router hands such values
/// on and never looks inside.
#[derive(Debug, PartialEq)]
pub enum Value {
    /// Names with their values.
    Dict(Dict),
    /// A signed integer.
    Integer(i64),
    /// An unsigned integer.
    UnsignedInteger(u64),
    /// A binary64 number, held as its bit pattern.
    Float(u64),
    /// A text.
    String(String),
    /// A list of values.
    List(List),
    /// A truth value.
    Boolean(bool),
}

/// What a [`Value`] holds.
pub enum ValueView {
    Dict(Seq<(Seq<char>, ValueView)>),
    Integer(i64),
    UnsignedInteger(u64),
    Float(u64),
    String(Seq<char>),
    List(Seq<ValueView>),
    Boolean(bool),
}

/// What the values `items` hold, in order.
pub open spec fn list_view(items: Seq<Value>) -> Seq<ValueView>
    decreases items, 0nat,
{
    Seq::new(
        items.len(),
        |i: int|
            if 0 <= i < items.len() {
                items[i].view()
            } else {
                ValueView::Boolean(false)
            },
    )
}

/// What the named values `entries` hold, in order.
pub open spec fn dict_view(entries: Seq<(String, Value)>) -> Seq<(Seq<char>, ValueView)>
    decreases entries, 0nat,
{
    Seq::new(
        entries.len(),
        |i: int|
            if 0 <= i < entries.len() {
                (entries[i].0@, entries[i].1.view())
            } else {
                (Seq::empty(), ValueView::Boolean(false))
            },
    )
}

impl View for Value {
    type V = ValueView;

    open spec fn view(&self) -> ValueView
        decreases self, 1nat,
    {
        match self {
            Value::Dict(entries) => ValueView::Dict(dict_view(entries@)),
            Value::Integer(i) => ValueView::Integer(*i),
            Value::UnsignedInteger(u) => ValueView::UnsignedInteger(*u),
            Value::Float(bits) => ValueView::Float(*bits),
            Value::String(s) => ValueView::String(s@),
            Value::List(items) => ValueView::List(list_view(items@)),
            Value::Boolean(b) => ValueView::Boolean(*b),
        }
    }
}

/// A copy of `items`.
pub fn clone_list(items: &Vec<Value>) -> (r: Vec<Value>)
    ensures
        list_view(r@) == list_view(items@),
    decreases items, 0nat,
{
    let mut out: Vec<Value> = Vec::new();
    let mut i: usize = 0;
    while i < items.len()
        invariant
            i <= items.len(),
            out.len() == i,
            forall|j: int| 0 <= j < i ==> (#[trigger] out@[j]).view() == items@[j].view(),
        decreases items.len() - i,
    {
        let item = clone_value(&items[i]);
        out.push(item);
        i += 1;
    }
    assert(list_view(out@) =~= list_view(items@));
    out
}

/// A copy of `entries`.
pub fn clone_dict(entries: &Vec<(String, Value)>) -> (r: Vec<(String, Value)>)
    ensures
        dict_view(r@) == dict_view(entries@),
    decreases entries, 0nat,
{
    let mut out: Vec<(String, Value)> = Vec::new();
    let mut i: usize = 0;
    while i < entries.len()
        invariant
            i <= entries.len(),
            out.len() == i,
            forall|j: int|
                0 <= j < i ==> (#[trigger] out@[j]).0@ == entries@[j].0@ && out@[j].1.view()
                    == entries@[j].1.view(),
        decreases entries.len() - i,
    {
        let name = entries[i].0.clone();
        let value = clone_value(&entries[i].1);
        out.push((name, value));
        i += 1;
    }
    assert(dict_view(out@) =~= dict_view(entries@));
    out
}

/// A copy of `value`.
pub fn clone_value(value: &Value) -> (r: Value)
    ensures
        r@ == value@,
    decreases value, 1nat,
{
    match value {
        Value::Dict(entries) => Value::Dict(clone_dict(entries)),
        Value::Integer(i) => Value::Integer(*i),
        Value::UnsignedInteger(u) => Value::UnsignedInteger(*u),
        Value::Float(bits) => Value::Float(*bits),
        Value::String(s) => Value::String(s.clone()),
        Value::List(items) => Value::List(clone_list(items)),
        Value::Boolean(b) => Value::Boolean(*b),
    }
}

impl Clone for Value {
    fn clone(&self) -> (r: Value)
        ensures
            r@ == self@,
    {
        clone_value(self)
    }
}

} // verus!
