//! The reply carrier: the values that operations hand back.

use vstd::prelude::*;
use vstd::std_specs::convert::FromSpecImpl;

use crate::bytes::copy_bytes;
use crate::types::list_view;

verus! {

/// A reply.
#[derive(Debug, PartialEq)]
pub enum Value {
    /// Nothing there.
    Null,
    Int(i64),
    /// A byte string.
    String(Vec<u8>),
    Array(Vec<Value>),
    /// Key/value pairs.
    MapOf(Vec<(Value, Value)>),
    /// Values without order.
    SetOf(Vec<Value>),
    Bool(bool),
    /// The operation succeeded and has nothing more to say.
    Okay,
}

/// A reply as plain mathematical data.
pub enum ValueView {
    Null,
    Int(i64),
    String(Seq<u8>),
    Array(Seq<ValueView>),
    MapOf(Seq<(ValueView, ValueView)>),
    SetOf(Seq<ValueView>),
    Bool(bool),
    Okay,
}

/// The reply that `value` stands for.
pub open spec fn value_view(value: Value) -> ValueView
    decreases value,
{
    match value {
        Value::Null => ValueView::Null,
        Value::Int(n) => ValueView::Int(n),
        Value::String(bytes) => ValueView::String(bytes@),
        Value::Array(items) => ValueView::Array(
            Seq::new(
                items@.len(),
                |i: int|
                    if 0 <= i < items@.len() {
                        value_view(items@[i])
                    } else {
                        ValueView::Null
                    },
            ),
        ),
        Value::MapOf(pairs) => ValueView::MapOf(
            Seq::new(
                pairs@.len(),
                |i: int|
                    if 0 <= i < pairs@.len() {
                        (value_view(pairs@[i].0), value_view(pairs@[i].1))
                    } else {
                        (ValueView::Null, ValueView::Null)
                    },
            ),
        ),
        Value::SetOf(items) => ValueView::SetOf(
            Seq::new(
                items@.len(),
                |i: int|
                    if 0 <= i < items@.len() {
                        value_view(items@[i])
                    } else {
                        ValueView::Null
                    },
            ),
        ),
        Value::Bool(b) => ValueView::Bool(b),
        Value::Okay => ValueView::Okay,
    }
}

impl View for Value {
    type V = ValueView;

    open spec fn view(&self) -> ValueView {
        value_view(*self)
    }
}

/// The replies of a list, one by one.
pub open spec fn views_of(items: Seq<Value>) -> Seq<ValueView> {
    Seq::new(items.len(), |i: int| items[i]@)
}

/// A list of byte strings as a list of string replies.
pub open spec fn strings_of(items: Seq<Seq<u8>>) -> Seq<ValueView> {
    Seq::new(items.len(), |i: int| ValueView::String(items[i]))
}

/// An array reply is the array of its items' replies.
pub proof fn lemma_array_view(items: Vec<Value>)
    ensures
        Value::Array(items)@ == ValueView::Array(views_of(items@)),
{
    let whole = Value::Array(items);
    let seen = whole.view();
    assert(seen is Array);
    assert(seen->Array_0.len() == items@.len());
    assert forall|i: int| 0 <= i < items@.len() implies seen->Array_0[i] == views_of(items@)[i] by {
    }
    assert(seen->Array_0 =~= views_of(items@));
}

/// A set reply is the set of its items' replies.
pub proof fn lemma_set_view(items: Vec<Value>)
    ensures
        Value::SetOf(items)@ == ValueView::SetOf(views_of(items@)),
{
    let whole = Value::SetOf(items);
    let seen = whole.view();
    assert(seen->SetOf_0 =~= views_of(items@));
}

/// The replies of two lists joined are the two lists of replies joined.
pub proof fn lemma_views_of_add(a: Seq<Value>, b: Seq<Value>)
    ensures
        views_of(a + b) == views_of(a) + views_of(b),
{
    assert(views_of(a + b) =~= views_of(a) + views_of(b));
}

/// The replies of a list extended by one item.
pub proof fn lemma_views_of_push(a: Seq<Value>, item: Value)
    ensures
        views_of(a.push(item)) == views_of(a).push(item@),
{
    assert(views_of(a.push(item)) =~= views_of(a).push(item@));
}

/// A copy of each of `items`.
fn clone_items(items: &Vec<Value>) -> (copy: Vec<Value>)
    ensures
        views_of(copy@) == views_of(items@),
    decreases items,
{
    let mut copy: Vec<Value> = Vec::new();
    let mut i: usize = 0;
    while i < items.len()
        invariant
            i <= items.len(),
            copy@.len() == i,
            forall|j: int| 0 <= j < i ==> (#[trigger] copy@[j])@ == items@[j]@,
        decreases items.len() - i,
    {
        copy.push(clone_value(&items[i]));
        i += 1;
    }
    assert(views_of(copy@) =~= views_of(items@));
    copy
}

/// A copy of each of `pairs`.
fn clone_pairs(pairs: &Vec<(Value, Value)>) -> (copy: Vec<(Value, Value)>)
    ensures
        copy@.len() == pairs@.len(),
        forall|j: int|
            0 <= j < copy@.len() ==> (#[trigger] copy@[j]).0@ == pairs@[j].0@ && copy@[j].1@
                == pairs@[j].1@,
    decreases pairs,
{
    let mut copy: Vec<(Value, Value)> = Vec::new();
    let mut i: usize = 0;
    while i < pairs.len()
        invariant
            i <= pairs.len(),
            copy@.len() == i,
            forall|j: int|
                0 <= j < i ==> (#[trigger] copy@[j]).0@ == pairs@[j].0@ && copy@[j].1@
                    == pairs@[j].1@,
        decreases pairs.len() - i,
    {
        let k = clone_value(&pairs[i].0);
        let v = clone_value(&pairs[i].1);
        copy.push((k, v));
        i += 1;
    }
    copy
}

/// A copy of `value`.
fn clone_value(value: &Value) -> (copy: Value)
    ensures
        copy@ == value@,
    decreases value,
{
    match value {
        Value::Null => Value::Null,
        Value::Int(n) => Value::Int(*n),
        Value::String(bytes) => Value::String(copy_bytes(bytes.as_slice())),
        Value::Array(items) => {
            let copy = clone_items(items);
            proof {
                lemma_array_view(*items);
                lemma_array_view(copy);
            }
            Value::Array(copy)
        },
        Value::MapOf(pairs) => {
            let copy = clone_pairs(pairs);
            let made = Value::MapOf(copy);
            assert(made@->MapOf_0 =~= value@->MapOf_0);
            made
        },
        Value::SetOf(items) => {
            let copy = clone_items(items);
            proof {
                lemma_set_view(*items);
                lemma_set_view(copy);
            }
            Value::SetOf(copy)
        },
        Value::Bool(b) => Value::Bool(*b),
        Value::Okay => Value::Okay,
    }
}

impl Clone for Value {
    fn clone(&self) -> (copy: Value)
        ensures
            copy@ == self@,
    {
        clone_value(self)
    }
}

impl Value {
    /// An array reply holding `items`.
    pub fn array(items: Vec<Value>) -> (v: Value)
        ensures
            v@ == ValueView::Array(views_of(items@)),
    {
        proof {
            lemma_array_view(items);
        }
        Value::Array(items)
    }

    /// An array reply holding one string reply for each of `items`.
    pub fn strings(items: Vec<Vec<u8>>) -> (v: Value)
        ensures
            v@ == ValueView::Array(strings_of(list_view(items@))),
    {
        let ghost all = items@;
        let mut out: Vec<Value> = Vec::new();
        let mut items = items;
        while items.len() > 0
            invariant
                items@.len() + out@.len() == all.len(),
                forall|j: int| 0 <= j < out@.len() ==> (#[trigger] out@[j])@ == ValueView::String(
                    all[all.len() - 1 - j]@,
                ),
                forall|j: int| 0 <= j < items@.len() ==> #[trigger] items@[j] == all[j],
            decreases items@.len(),
        {
            let last = items.pop();
            match last {
                Some(bytes) => {
                    out.push(Value::String(bytes));
                },
                None => {},
            }
        }
        let mut ordered: Vec<Value> = Vec::new();
        while out.len() > 0
            invariant
                ordered@.len() + out@.len() == all.len(),
                forall|j: int| 0 <= j < out@.len() ==> (#[trigger] out@[j])@ == ValueView::String(
                    all[all.len() - 1 - j]@,
                ),
                forall|j: int|
                    0 <= j < ordered@.len() ==> (#[trigger] ordered@[j])@ == ValueView::String(
                        all[j]@,
                    ),
            decreases out@.len(),
        {
            let last = out.pop();
            match last {
                Some(v) => {
                    ordered.push(v);
                },
                None => {},
            }
        }
        proof {
            lemma_array_view(ordered);
            assert(views_of(ordered@) =~= strings_of(list_view(all)));
        }
        Value::Array(ordered)
    }
}

impl From<String> for Value {
    fn from(s: String) -> (v: Value)
        ensures
            v@ == ValueView::String(vstd::utf8::encode_utf8(s@)),
    {
        Value::String(copy_bytes(s.as_str().as_bytes()))
    }
}

impl FromSpecImpl<String> for Value {
    open spec fn obeys_from_spec() -> bool {
        false
    }

    open spec fn from_spec(s: String) -> Value {
        Value::Null
    }
}

impl From<&str> for Value {
    fn from(s: &str) -> (v: Value)
        ensures
            v@ == ValueView::String(vstd::utf8::encode_utf8(s@)),
    {
        Value::String(copy_bytes(s.as_bytes()))
    }
}

impl FromSpecImpl<&str> for Value {
    open spec fn obeys_from_spec() -> bool {
        false
    }

    open spec fn from_spec(s: &str) -> Value {
        Value::Null
    }
}

impl From<Vec<u8>> for Value {
    fn from(b: Vec<u8>) -> (v: Value)
        ensures
            v@ == ValueView::String(b@),
    {
        Value::String(b)
    }
}

impl FromSpecImpl<Vec<u8>> for Value {
    open spec fn obeys_from_spec() -> bool {
        true
    }

    open spec fn from_spec(b: Vec<u8>) -> Value {
        Value::String(b)
    }
}

impl From<i64> for Value {
    fn from(n: i64) -> (v: Value)
        ensures
            v@ == ValueView::Int(n),
    {
        Value::Int(n)
    }
}

impl FromSpecImpl<i64> for Value {
    open spec fn obeys_from_spec() -> bool {
        true
    }

    open spec fn from_spec(n: i64) -> Value {
        Value::Int(n)
    }
}

impl From<u64> for Value {
    /// The same 64 bits read as a signed integer.
    fn from(n: u64) -> (v: Value)
        ensures
            v@ == ValueView::Int(n as i64),
    {
        Value::Int(n as i64)
    }
}

impl FromSpecImpl<u64> for Value {
    open spec fn obeys_from_spec() -> bool {
        true
    }

    open spec fn from_spec(n: u64) -> Value {
        Value::Int(n as i64)
    }
}

impl From<bool> for Value {
    fn from(b: bool) -> (v: Value)
        ensures
            v@ == ValueView::Bool(b),
    {
        Value::Bool(b)
    }
}

impl FromSpecImpl<bool> for Value {
    open spec fn obeys_from_spec() -> bool {
        true
    }

    open spec fn from_spec(b: bool) -> Value {
        Value::Bool(b)
    }
}

impl From<()> for Value {
    fn from(unit: ()) -> (v: Value)
        ensures
            v@ == ValueView::Null,
    {
        Value::Null
    }
}

impl FromSpecImpl<()> for Value {
    open spec fn obeys_from_spec() -> bool {
        true
    }

    open spec fn from_spec(unit: ()) -> Value {
        Value::Null
    }
}

impl From<Vec<Value>> for Value {
    fn from(items: Vec<Value>) -> (v: Value)
        ensures
            v@ == ValueView::Array(views_of(items@)),
    {
        proof {
            lemma_array_view(items);
        }
        Value::Array(items)
    }
}

impl FromSpecImpl<Vec<Value>> for Value {
    open spec fn obeys_from_spec() -> bool {
        true
    }

    open spec fn from_spec(items: Vec<Value>) -> Value {
        Value::Array(items)
    }
}

} // verus!
