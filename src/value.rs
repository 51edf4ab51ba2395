//! The portable value model that crosses the boundary.
use vstd::prelude::*;

verus! {

/// A value that can cross the boundary between the host and the engine.
///
/// Floating-point numbers are carried as their IEEE-754 binary64 bit
/// pattern; object entries are kept in the order the engine enumerated
/// them. A value is valid when every object in it has unique keys
/// (`v.model().wf()`): decoding yields only valid values, and encoding a
/// valid value round-trips.
#[derive(Debug, PartialEq)]
pub enum MyJSValue {
    /// The script `undefined` value
    Undefined,
    /// The script `null` value
    Null,
    /// A boolean
    Bool(bool),
    /// A number the engine holds as a 32-bit integer
    Int(i32),
    /// Any other number, as the bit pattern of an IEEE-754 binary64 value
    Float(u64),
    /// A text string
    String(String),
    /// An ordered sequence of values
    Array(Vec<MyJSValue>),
    /// An opaque buffer of bytes
    ArrayBuffer(Vec<u8>),
    /// A mapping from text keys to values; valid when no key repeats
    Object(Vec<(String, MyJSValue)>),
}

/// The mathematical meaning of a `MyJSValue`.
pub enum ScriptValue {
    Undefined,
    Null,
    Bool(bool),
    Int(i32),
    Float(u64),
    Text(Seq<char>),
    Array(Seq<ScriptValue>),
    Bytes(Seq<u8>),
    Object(Seq<(Seq<char>, ScriptValue)>),
}

impl MyJSValue {
    pub open spec fn model(self) -> ScriptValue
        decreases self,
    {
        match self {
            MyJSValue::Undefined => ScriptValue::Undefined,
            MyJSValue::Null => ScriptValue::Null,
            MyJSValue::Bool(b) => ScriptValue::Bool(b),
            MyJSValue::Int(i) => ScriptValue::Int(i),
            MyJSValue::Float(bits) => ScriptValue::Float(bits),
            MyJSValue::String(s) => ScriptValue::Text(s@),
            MyJSValue::Array(items) => ScriptValue::Array(
                Seq::new(
                    items@.len(),
                    |i: int|
                        if 0 <= i < items@.len() {
                            items@[i].model()
                        } else {
                            ScriptValue::Undefined
                        },
                ),
            ),
            MyJSValue::ArrayBuffer(b) => ScriptValue::Bytes(b@),
            MyJSValue::Object(entries) => ScriptValue::Object(
                Seq::new(
                    entries@.len(),
                    |i: int|
                        if 0 <= i < entries@.len() {
                            (entries@[i].0@, entries@[i].1.model())
                        } else {
                            (Seq::empty(), ScriptValue::Undefined)
                        },
                ),
            ),
        }
    }
}

/// The models of a sequence of values, element by element.
pub open spec fn models(s: Seq<MyJSValue>) -> Seq<ScriptValue> {
    Seq::new(s.len(), |i: int| s[i].model())
}

/// No two entries of an object share a key.
pub open spec fn keys_distinct(entries: Seq<(Seq<char>, ScriptValue)>) -> bool {
    forall|i: int, j: int|
        0 <= i < entries.len() && 0 <= j < entries.len() && i != j ==> entries[i].0 != entries[j].0
}

impl ScriptValue {
    /// Every object inside the value, at any depth, has unique keys.
    pub open spec fn wf(self) -> bool
        decreases self,
    {
        match self {
            ScriptValue::Array(items) => forall|i: int| 0 <= i < items.len() ==> (#[trigger] items[i]).wf(),
            ScriptValue::Object(entries) => keys_distinct(entries) && forall|i: int|
                0 <= i < entries.len() ==> (#[trigger] entries[i]).1.wf(),
            _ => true,
        }
    }
}

} // verus!
