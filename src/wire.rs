//! The wire codec's data model, and the shape-directed mapping between it
//! and the value model.
//!
//! Encoding is total. Decoding dispatches on shape alone: null, booleans,
//! integers that fit in 32 bits, floats, text and byte strings map to the
//! scalar variants; sequences and maps with unique text keys map to arrays
//! and objects. Every other shape is refused.
use vstd::prelude::*;
use crate::value::{MyJSValue, ScriptValue, models};

verus! {

/// One data item of the wire codec.
#[derive(Debug, PartialEq)]
pub enum WireValue {
    /// The codec's `undefined` item, distinct from null
    Undefined,
    Null,
    Bool(bool),
    Integer(i128),
    /// The bit pattern of an IEEE-754 binary64 value
    Float(u64),
    Text(String),
    Bytes(Vec<u8>),
    Array(Vec<WireValue>),
    /// Key/value pairs in the order they stand on the wire
    Mapping(Vec<(WireValue, WireValue)>),
    Tag(u64, Box<WireValue>),
}

/// The mathematical meaning of a `WireValue`.
pub enum WireModel {
    Undefined,
    Null,
    Bool(bool),
    Integer(int),
    Float(u64),
    Text(Seq<char>),
    Bytes(Seq<u8>),
    Array(Seq<WireModel>),
    Mapping(Seq<(WireModel, WireModel)>),
    Tag(u64, Box<WireModel>),
}

/// Why a wire item has no counterpart in the value model.
#[derive(Debug, PartialEq)]
pub enum DecodeFault {
    /// The bytes are not a well-formed wire item
    Malformed(String),
    /// An integer outside the 32-bit signed range
    IntegerOutOfRange(i128),
    /// A map key that is not a text string
    NonTextKey,
    /// A map key that occurs twice
    DuplicateKey(String),
    /// A tagged item
    Tagged(u64),
    /// A top-level item that is not a sequence where one was expected
    NotASequence,
}

impl WireValue {
    pub open spec fn model(self) -> WireModel
        decreases self,
    {
        match self {
            WireValue::Undefined => WireModel::Undefined,
            WireValue::Null => WireModel::Null,
            WireValue::Bool(b) => WireModel::Bool(b),
            WireValue::Integer(n) => WireModel::Integer(n as int),
            WireValue::Float(bits) => WireModel::Float(bits),
            WireValue::Text(s) => WireModel::Text(s@),
            WireValue::Bytes(b) => WireModel::Bytes(b@),
            WireValue::Array(items) => WireModel::Array(
                Seq::new(
                    items@.len(),
                    |i: int|
                        if 0 <= i < items@.len() {
                            items@[i].model()
                        } else {
                            WireModel::Null
                        },
                ),
            ),
            WireValue::Mapping(entries) => WireModel::Mapping(
                Seq::new(
                    entries@.len(),
                    |i: int|
                        if 0 <= i < entries@.len() {
                            (entries@[i].0.model(), entries@[i].1.model())
                        } else {
                            (WireModel::Null, WireModel::Null)
                        },
                ),
            ),
            WireValue::Tag(t, inner) => WireModel::Tag(t, Box::new((*inner).model())),
        }
    }
}

/// The wire item that a value encodes to, shape for shape.
pub open spec fn encode_model(v: ScriptValue) -> WireModel
    decreases v,
{
    match v {
        ScriptValue::Undefined => WireModel::Undefined,
        ScriptValue::Null => WireModel::Null,
        ScriptValue::Bool(b) => WireModel::Bool(b),
        ScriptValue::Int(i) => WireModel::Integer(i as int),
        ScriptValue::Float(bits) => WireModel::Float(bits),
        ScriptValue::Text(s) => WireModel::Text(s),
        ScriptValue::Bytes(b) => WireModel::Bytes(b),
        ScriptValue::Array(items) => WireModel::Array(
            Seq::new(
                items.len(),
                |i: int|
                    if 0 <= i < items.len() {
                        encode_model(items[i])
                    } else {
                        WireModel::Null
                    },
            ),
        ),
        ScriptValue::Object(entries) => WireModel::Mapping(
            Seq::new(
                entries.len(),
                |i: int|
                    if 0 <= i < entries.len() {
                        (WireModel::Text(entries[i].0), encode_model(entries[i].1))
                    } else {
                        (WireModel::Null, WireModel::Null)
                    },
            ),
        ),
    }
}

/// The text of a map key.
pub open spec fn key_text(k: WireModel) -> Seq<char> {
    match k {
        WireModel::Text(s) => s,
        _ => Seq::empty(),
    }
}

/// The value that a wire item decodes to, or `None` where its shape has no
/// counterpart in the value model.
pub open spec fn decode_model(w: WireModel) -> Option<ScriptValue>
    decreases w,
{
    match w {
        WireModel::Undefined => Some(ScriptValue::Undefined),
        WireModel::Null => Some(ScriptValue::Null),
        WireModel::Bool(b) => Some(ScriptValue::Bool(b)),
        WireModel::Integer(n) => if i32::MIN <= n <= i32::MAX {
            Some(ScriptValue::Int(n as i32))
        } else {
            None
        },
        WireModel::Float(bits) => Some(ScriptValue::Float(bits)),
        WireModel::Text(s) => Some(ScriptValue::Text(s)),
        WireModel::Bytes(b) => Some(ScriptValue::Bytes(b)),
        WireModel::Array(items) => if forall|i: int|
            0 <= i < items.len() ==> decode_model(#[trigger] items[i]) is Some {
            Some(
                ScriptValue::Array(
                    Seq::new(
                        items.len(),
                        |i: int|
                            if 0 <= i < items.len() {
                                decode_model(items[i])->Some_0
                            } else {
                                ScriptValue::Null
                            },
                    ),
                ),
            )
        } else {
            None
        },
        WireModel::Mapping(entries) => if (forall|i: int|
            0 <= i < entries.len() ==> (#[trigger] entries[i]).0 is Text && decode_model(
                entries[i].1,
            ) is Some) && (forall|i: int, j: int|
            0 <= i < entries.len() && 0 <= j < entries.len() && i != j ==> #[trigger] entries[i].0
                != #[trigger] entries[j].0) {
            Some(
                ScriptValue::Object(
                    Seq::new(
                        entries.len(),
                        |i: int|
                            if 0 <= i < entries.len() {
                                (key_text(entries[i].0), decode_model(entries[i].1)->Some_0)
                            } else {
                                (Seq::empty(), ScriptValue::Null)
                            },
                    ),
                ),
            )
        } else {
            None
        },
        WireModel::Tag(_, _) => None,
    }
}

/// Maps a value to the wire item that carries it.
pub fn encode_value(v: &MyJSValue) -> (r: WireValue)
    ensures
        r.model() == encode_model(v.model()),
        v.model().wf() ==> decode_model(r.model()) == Some(v.model()),
    decreases v,
{
    proof {
        if v.model().wf() {
            lemma_round_trip(v.model());
        }
    }
    match v {
        MyJSValue::Undefined => WireValue::Undefined,
        MyJSValue::Null => WireValue::Null,
        MyJSValue::Bool(b) => WireValue::Bool(*b),
        MyJSValue::Int(i) => WireValue::Integer(*i as i128),
        MyJSValue::Float(bits) => WireValue::Float(*bits),
        MyJSValue::String(s) => WireValue::Text(s.clone()),
        MyJSValue::ArrayBuffer(b) => WireValue::Bytes(b.clone()),
        MyJSValue::Array(items) => {
            let mut out: Vec<WireValue> = Vec::new();
            let mut i: usize = 0;
            while i < items.len()
                invariant
                    *v == MyJSValue::Array(*items),
                    i <= items@.len(),
                    out@.len() == i,
                    forall|j: int| 0 <= j < i ==> #[trigger] out@[j].model() == encode_model(items@[j].model()),
                decreases items@.len() - i,
            {
                proof {
                    assert(decreases_to!(*v => v->Array_0));
                    assert(decreases_to!(v->Array_0 => (v->Array_0)@));
                    assert(decreases_to!((v->Array_0)@ => (v->Array_0)@[i as int]));
                }
                let w = encode_value(&items[i]);
                out.push(w);
                i += 1;
            }
            let r = WireValue::Array(out);
            assert(r.model() == encode_model(v.model())) by {
                let s = v.model()->Array_0;
                assert(s =~= models(items@));
                let e = encode_model(v.model())->Array_0;
                assert forall|j: int| 0 <= j < e.len() implies e[j] == encode_model(items@[j].model()) by {
                    assert(s[j] == items@[j].model());
                }
                assert(e.len() == out@.len());
                let m = r.model()->Array_0;
                assert forall|j: int| 0 <= j < e.len() implies m[j] == e[j] by {
                    assert(m[j] == out@[j].model());
                }
                assert(m =~= e);
            }
            r
        },
        MyJSValue::Object(entries) => {
            let mut out: Vec<(WireValue, WireValue)> = Vec::new();
            let mut i: usize = 0;
            while i < entries.len()
                invariant
                    *v == MyJSValue::Object(*entries),
                    i <= entries@.len(),
                    out@.len() == i,
                    forall|j: int| 0 <= j < i ==> (#[trigger] out@[j]).0.model() == WireModel::Text(entries@[j].0@)
                        && out@[j].1.model() == encode_model(entries@[j].1.model()),
                decreases entries@.len() - i,
            {
                let key = WireValue::Text(entries[i].0.clone());
                proof {
                    assert(decreases_to!(*v => v->Object_0));
                    assert(decreases_to!(v->Object_0 => (v->Object_0)@));
                    assert(decreases_to!((v->Object_0)@ => (v->Object_0)@[i as int]));
                    assert(decreases_to!((v->Object_0)@[i as int] => (v->Object_0)@[i as int].1));
                }
                let w = encode_value(&entries[i].1);
                out.push((key, w));
                i += 1;
            }
            let r = WireValue::Mapping(out);
            assert(r.model() == encode_model(v.model())) by {
                assert(r.model()->Mapping_0 =~= encode_model(v.model())->Mapping_0);
            }
            r
        },
    }
}

/// Whether some entry of `entries` has the key `key`.
fn has_key(entries: &Vec<(String, MyJSValue)>, key: &String) -> (r: bool)
    ensures
        r == exists|a: int| 0 <= a < entries@.len() && entries@[a].0@ == key@,
{
    let mut k: usize = 0;
    while k < entries.len()
        invariant
            k <= entries@.len(),
            forall|a: int| 0 <= a < k ==> entries@[a].0@ != key@,
        decreases entries@.len() - k,
    {
        if entries[k].0 == *key {
            return true;
        }
        k += 1;
    }
    false
}

/// Maps a wire item back to the value it carries, dispatching on its shape.
pub fn decode_value(w: &WireValue) -> (r: Result<MyJSValue, DecodeFault>)
    ensures
        match r {
            Ok(v) => decode_model(w.model()) == Some(v.model()) && v.model().wf(),
            Err(_) => decode_model(w.model()) is None,
        },
    decreases w,
{
    proof {
        if decode_model(w.model()) is Some {
            lemma_decode_encode(w.model());
        }
    }
    match w {
        WireValue::Undefined => Ok(MyJSValue::Undefined),
        WireValue::Null => Ok(MyJSValue::Null),
        WireValue::Bool(b) => Ok(MyJSValue::Bool(*b)),
        WireValue::Integer(n) => {
            if i32::MIN as i128 <= *n && *n <= i32::MAX as i128 {
                Ok(MyJSValue::Int(*n as i32))
            } else {
                Err(DecodeFault::IntegerOutOfRange(*n))
            }
        },
        WireValue::Float(bits) => Ok(MyJSValue::Float(*bits)),
        WireValue::Text(s) => Ok(MyJSValue::String(s.clone())),
        WireValue::Bytes(b) => Ok(MyJSValue::ArrayBuffer(b.clone())),
        WireValue::Tag(t, _) => Err(DecodeFault::Tagged(*t)),
        WireValue::Array(items) => {
            let ghost wm = w.model()->Array_0;
            let mut out: Vec<MyJSValue> = Vec::new();
            let mut i: usize = 0;
            while i < items.len()
                invariant
                    *w == WireValue::Array(*items),
                    wm == w.model()->Array_0,
                    i <= items@.len(),
                    out@.len() == i,
                    forall|j: int| 0 <= j < i ==> decode_model(#[trigger] wm[j]) == Some(out@[j].model()),
                decreases items@.len() - i,
            {
                proof {
                    assert(decreases_to!(*w => w->Array_0));
                    assert(decreases_to!(w->Array_0 => (w->Array_0)@));
                    assert(decreases_to!((w->Array_0)@ => (w->Array_0)@[i as int]));
                    assert(wm[i as int] == items@[i as int].model());
                }
                match decode_value(&items[i]) {
                    Ok(v) => {
                        out.push(v);
                    },
                    Err(e) => {
                        proof {
                            assert(decode_model(wm[i as int]) is None);
                        }
                        return Err(e);
                    },
                }
                i += 1;
            }
            let r = MyJSValue::Array(out);
            proof {
                let m = r.model()->Array_0;
                let d = decode_model(w.model());
                assert(d is Some);
                let e = d->Some_0->Array_0;
                assert forall|j: int| 0 <= j < e.len() implies m[j] == e[j] by {
                    assert(m[j] == out@[j].model());
                    assert(decode_model(wm[j]) == Some(out@[j].model()));
                }
                assert(m =~= e);
            }
            Ok(r)
        },
        WireValue::Mapping(entries) => {
            let ghost wm = w.model()->Mapping_0;
            let mut out: Vec<(String, MyJSValue)> = Vec::new();
            let mut i: usize = 0;
            while i < entries.len()
                invariant
                    *w == WireValue::Mapping(*entries),
                    wm == w.model()->Mapping_0,
                    i <= entries@.len(),
                    out@.len() == i,
                    forall|j: int|
                        0 <= j < i ==> (#[trigger] wm[j]).0 == WireModel::Text(out@[j].0@) && decode_model(
                            wm[j].1,
                        ) == Some(out@[j].1.model()),
                    forall|a: int, b: int| 0 <= a < i && 0 <= b < i && a != b ==> out@[a].0@ != out@[b].0@,
                decreases entries@.len() - i,
            {
                proof {
                    assert(decreases_to!(*w => w->Mapping_0));
                    assert(decreases_to!(w->Mapping_0 => (w->Mapping_0)@));
                    assert(decreases_to!((w->Mapping_0)@ => (w->Mapping_0)@[i as int]));
                    assert(decreases_to!((w->Mapping_0)@[i as int] => (w->Mapping_0)@[i as int].1));
                    assert(wm[i as int] == (entries@[i as int].0.model(), entries@[i as int].1.model()));
                }
                let key = match &entries[i].0 {
                    WireValue::Text(s) => s,
                    _ => {
                        return Err(DecodeFault::NonTextKey);
                    },
                };
                if has_key(&out, key) {
                    proof {
                        let a = choose|a: int| 0 <= a < out@.len() && out@[a].0@ == key@;
                        assert(wm[a].0 == wm[i as int].0);
                    }
                    return Err(DecodeFault::DuplicateKey(key.clone()));
                }
                match decode_value(&entries[i].1) {
                    Ok(v) => {
                        out.push((key.clone(), v));
                    },
                    Err(e) => {
                        proof {
                            assert(decode_model(wm[i as int].1) is None);
                        }
                        return Err(e);
                    },
                }
                i += 1;
            }
            let r = MyJSValue::Object(out);
            proof {
                assert forall|a: int, b: int|
                    0 <= a < wm.len() && 0 <= b < wm.len() && a != b implies #[trigger] wm[a].0
                    != #[trigger] wm[b].0 by {
                    assert(wm[a].0 == WireModel::Text(out@[a].0@));
                    assert(wm[b].0 == WireModel::Text(out@[b].0@));
                }
                let m = r.model()->Object_0;
                let d = decode_model(w.model());
                assert(d is Some);
                let e = d->Some_0->Object_0;
                assert forall|j: int| 0 <= j < e.len() implies m[j] == e[j] by {
                    assert(m[j] == (out@[j].0@, out@[j].1.model()));
                    assert(decode_model(wm[j].1) == Some(out@[j].1.model()));
                }
                assert(m =~= e);
            }
            Ok(r)
        },
    }
}

/// Round trip: decoding the wire item that a value encodes to gives back
/// that value, for every value whose objects have unique keys.
pub proof fn lemma_round_trip(v: ScriptValue)
    requires
        v.wf(),
    ensures
        decode_model(encode_model(v)) == Some(v),
    decreases v,
{
    match v {
        ScriptValue::Array(items) => {
            let w = encode_model(v)->Array_0;
            assert forall|i: int| 0 <= i < w.len() implies decode_model(#[trigger] w[i]) == Some(
                items[i],
            ) by {
                assert(items[i].wf());
                lemma_round_trip(items[i]);
            }
            let d = decode_model(encode_model(v))->Some_0->Array_0;
            assert(d =~= items);
        },
        ScriptValue::Object(entries) => {
            let w = encode_model(v)->Mapping_0;
            assert forall|i: int| 0 <= i < w.len() implies (#[trigger] w[i]).0 == WireModel::Text(
                entries[i].0,
            ) && decode_model(w[i].1) == Some(entries[i].1) by {
                assert(entries[i].1.wf());
                lemma_round_trip(entries[i].1);
            }
            assert forall|i: int, j: int|
                0 <= i < w.len() && 0 <= j < w.len() && i != j implies #[trigger] w[i].0
                != #[trigger] w[j].0 by {
                assert(entries[i].0 != entries[j].0);
            }
            let d = decode_model(encode_model(v))->Some_0->Object_0;
            assert(d =~= entries);
        },
        _ => {},
    }
}

/// Every wire item that decodes re-encodes to itself, and what it decodes
/// to has unique keys in every object.
pub proof fn lemma_decode_encode(w: WireModel)
    requires
        decode_model(w) is Some,
    ensures
        encode_model(decode_model(w)->Some_0) == w,
        decode_model(w)->Some_0.wf(),
    decreases w,
{
    match w {
        WireModel::Integer(n) => {
            assert((n as i32) as int == n);
        },
        WireModel::Array(items) => {
            let d = decode_model(w)->Some_0->Array_0;
            assert forall|i: int| 0 <= i < items.len() implies encode_model(#[trigger] d[i]) == items[i]
                && d[i].wf() by {
                lemma_decode_encode(items[i]);
            }
            let e = encode_model(decode_model(w)->Some_0)->Array_0;
            assert(e =~= items);
        },
        WireModel::Mapping(entries) => {
            let d = decode_model(w)->Some_0->Object_0;
            assert forall|i: int| 0 <= i < entries.len() implies encode_model(#[trigger] d[i].1)
                == entries[i].1 && d[i].1.wf() && WireModel::Text(d[i].0)
                == entries[i].0 by {
                lemma_decode_encode(entries[i].1);
            }
            assert forall|i: int, j: int|
                0 <= i < d.len() && 0 <= j < d.len() && i != j implies d[i].0 != d[j].0 by {
                assert(entries[i].0 != entries[j].0);
            }
            let e = encode_model(decode_model(w)->Some_0)->Mapping_0;
            assert(e =~= entries);
        },
        _ => {},
    }
}


} // verus!
