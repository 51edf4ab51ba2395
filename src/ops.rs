//! The decisions that the boundary operations take around each engine call.
//!
//! Every operation decodes its input, drives a fresh engine context, and
//! encodes what comes back. The engine work happens outside this library;
//! what is decided before and after it is here: which inputs are refused
//! before the engine runs, how arguments and results cross the wire, and
//! when a call target counts as missing.
use vstd::prelude::*;
use crate::value::{MyJSValue, ScriptValue, models};
use crate::wire::{WireValue, DecodeFault, encode_value, decode_value, encode_model, decode_model};

verus! {

/// The ways a boundary operation can fail.
#[derive(Debug, PartialEq)]
pub enum BridgeError {
    /// Bytes expected to be text are not valid UTF-8
    InputNotUtf8,
    /// Wire bytes are malformed, or carry a shape with no counterpart value
    Decode(DecodeFault),
    /// The engine refused to compile the source
    Compile(String),
    /// The engine reported an error while loading or running code
    Runtime(String),
    /// The argument at this index could not be made into an engine value
    ArgumentConversion(usize, String),
    /// The named global binding is absent or cannot be called
    FunctionNotFound(String),
    /// The result could not be written in the wire format
    Encode(String),
}

/// What the engine found under a name on the global object.
#[derive(Debug, Clone, Copy, PartialEq, Eq)]
pub enum Binding {
    Absent,
    NotCallable,
    Callable,
}

/// A request to call a global function of previously compiled code.
#[derive(Debug, PartialEq)]
pub struct CallRequest {
    /// Bytecode produced by compiling the script that defines the function
    pub bytecode: Vec<u8>,
    /// The name of the global binding to call
    pub function_name: String,
    /// The arguments, in order
    pub arguments: Vec<MyJSValue>,
}

/// The text that a byte sequence spells in UTF-8, or `None` where it is not
/// valid UTF-8.
pub uninterp spec fn utf8_text(b: Seq<u8>) -> Option<Seq<char>>;

/// Relies on `std::str::from_utf8`: it accepts exactly the valid UTF-8
/// sequences, and the text depends on the bytes alone.
#[verifier::external_body]
fn from_utf8(b: &[u8]) -> (r: Option<String>)
    ensures
        match r {
            Some(s) => utf8_text(b@) == Some(s@),
            None => utf8_text(b@) is None,
        },
        b@.len() == 0 ==> r is Some && r->Some_0@.len() == 0,
{
    match std::str::from_utf8(b) {
        Ok(s) => Some(String::from(s)),
        Err(_) => None,
    }
}

/// Reads input bytes as UTF-8 text, before any engine work is done.
pub fn decode_text(input: &[u8]) -> (r: Result<String, BridgeError>)
    ensures
        match r {
            Ok(s) => utf8_text(input@) == Some(s@),
            Err(e) => utf8_text(input@) is None && e == BridgeError::InputNotUtf8,
        },
{
    match from_utf8(input) {
        Some(s) => Ok(s),
        None => Err(BridgeError::InputNotUtf8),
    }
}

/// Encodes a sequence of values as one wire sequence.
pub fn encode_values(values: Vec<MyJSValue>) -> (r: WireValue)
    ensures
        r.model() == encode_model(ScriptValue::Array(models(values@))),
{
    let ghost s = values@;
    let v = MyJSValue::Array(values);
    assert(v.model()->Array_0 =~= models(s));
    encode_value(&v)
}

/// Decodes a wire sequence of call arguments.
pub fn decode_arguments(w: &WireValue) -> (r: Result<Vec<MyJSValue>, BridgeError>)
    ensures
        match r {
            Ok(args) => decode_model(w.model()) == Some(ScriptValue::Array(models(args@)))
                && forall|i: int| 0 <= i < args@.len() ==> (#[trigger] args@[i]).model().wf(),
            Err(e) => e is Decode && !(decode_model(w.model()) is Some && decode_model(
                w.model(),
            )->Some_0 is Array),
        },
{
    match decode_value(w) {
        Ok(MyJSValue::Array(items)) => {
            assert(MyJSValue::Array(items).model()->Array_0 =~= models(items@));
            assert forall|i: int| 0 <= i < items@.len() implies (#[trigger] items@[i]).model().wf() by {
                assert(MyJSValue::Array(items).model()->Array_0[i] == items@[i].model());
            }
            Ok(items)
        },
        Ok(_) => Err(BridgeError::Decode(DecodeFault::NotASequence)),
        Err(f) => Err(BridgeError::Decode(f)),
    }
}

/// Builds a call request from its three parts: the bytecode, the function
/// name as UTF-8 bytes, and the wire sequence of arguments. The name is
/// checked first.
pub fn decode_call(bytecode: Vec<u8>, function_name: &[u8], args: &WireValue) -> (r: Result<
    CallRequest,
    BridgeError,
>)
    ensures
        utf8_text(function_name@) is None ==> r == Err::<CallRequest, BridgeError>(
            BridgeError::InputNotUtf8,
        ),
        utf8_text(function_name@) is Some ==> match r {
            Ok(req) => req.bytecode@ == bytecode@ && utf8_text(function_name@) == Some(
                req.function_name@,
            ) && decode_model(args.model()) == Some(ScriptValue::Array(models(req.arguments@)))
                && forall|i: int|
                0 <= i < req.arguments@.len() ==> (#[trigger] req.arguments@[i]).model().wf(),
            Err(e) => e is Decode && !(decode_model(args.model()) is Some && decode_model(
                args.model(),
            )->Some_0 is Array),
        },
{
    let name = match decode_text(function_name) {
        Ok(s) => s,
        Err(e) => {
            return Err(e);
        },
    };
    let arguments = match decode_arguments(args) {
        Ok(a) => a,
        Err(e) => {
            return Err(e);
        },
    };
    Ok(CallRequest { bytecode, function_name: name, arguments })
}

/// Decides whether a call may go ahead, from what the engine found under
/// `name` on the global object.
pub fn resolve_function(name: &String, binding: Binding) -> (r: Result<(), BridgeError>)
    ensures
        binding == Binding::Callable ==> r is Ok,
        binding != Binding::Callable ==> r == Err::<(), BridgeError>(
            BridgeError::FunctionNotFound(*name),
        ),
{
    match binding {
        Binding::Callable => Ok(()),
        _ => Err(BridgeError::FunctionNotFound(name.clone())),
    }
}

/// Encodes the global keys that the engine enumerated, each as a text value,
/// in the order given.
pub fn encode_keys(keys: &Vec<String>) -> (r: WireValue)
    ensures
        r.model() == encode_model(
            ScriptValue::Array(Seq::new(keys@.len(), |i: int| ScriptValue::Text(keys@[i]@))),
        ),
{
    let mut values: Vec<MyJSValue> = Vec::new();
    let mut i: usize = 0;
    while i < keys.len()
        invariant
            i <= keys@.len(),
            values@.len() == i,
            forall|j: int| 0 <= j < i ==> (#[trigger] values@[j]).model() == ScriptValue::Text(keys@[j]@),
        decreases keys@.len() - i,
    {
        values.push(MyJSValue::String(keys[i].clone()));
        i += 1;
    }
    let ghost s = values@;
    let r = encode_values(values);
    assert(models(s) =~= Seq::new(keys@.len(), |i: int| ScriptValue::Text(keys@[i]@)));
    r
}

} // verus!
