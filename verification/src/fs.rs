//! The `fs` namespace: reading and writing files under the working directory.
//!
//! The library decides what the arguments of a call mean; the reading and writing of
//! files is left to the caller.

use vstd::prelude::*;
use vstd::slice::slice_to_vec;
use vstd::utf8::encode_utf8;
use crate::dynamic::DynamicRef;
use crate::number::{Int, Number};
use crate::text::text_eq;
use crate::value::{Value, ValueRef};

verus! {

/// The `fs` namespace.
#[derive(Debug)]
pub struct Fs;

impl Fs {
    /// The qualified name of the function that the member `name` binds: `fs.read` for
    /// `read`, `fs.write` (which gives no value back) for `write`; none for any other name.
    pub fn member(&self, name: &str) -> (r: Option<String>)
        ensures
            name@ == "read"@ ==> (r matches Some(f) && f@ == "fs.read"@),
            name@ != "read"@ && name@ == "write"@ ==> (r matches Some(f) && f@ == "fs.write"@),
            name@ != "read"@ && name@ != "write"@ ==> r is None,
    {
        if text_eq(name, "read") {
            Some("fs.read".to_owned())
        } else if text_eq(name, "write") {
            Some("fs.write".to_owned())
        } else {
            None
        }
    }

    /// The names of the members: `read` and `write`.
    pub fn members(&self) -> (r: Vec<String>)
        ensures
            r@.len() == 2,
            r@[0]@ == "read"@,
            r@[1]@ == "write"@,
    {
        let mut v: Vec<String> = Vec::new();
        v.push("read".to_owned());
        v.push("write".to_owned());
        v
    }
}

/// The arguments of `fs.read`.
pub struct ReadArgs {
    pub path: String,
}

impl ReadArgs {
    /// The arguments from the first argument of the call read as a string: an error
    /// when it is not one.
    pub fn from_args(path: Option<String>) -> (r: Result<ReadArgs, String>)
        ensures
            match path {
                Some(p) => r matches Ok(a) && a.path == p,
                None => r matches Err(m) && m@ == "path must be a string"@,
            },
    {
        match path {
            Some(p) => Ok(ReadArgs { path: p }),
            None => Err("path must be a string".to_owned()),
        }
    }
}

/// The arguments of `fs.write`.
pub struct WriteArgs {
    pub path: String,
    pub data: Vec<u8>,
}

impl WriteArgs {
    /// The arguments from the first argument of the call read as a string and the
    /// second one read as bytes: an error naming the first of the two that cannot be
    /// read.
    pub fn from_args(path: Option<String>, data: &ValueRef) -> (r: Result<WriteArgs, String>)
        ensures
            path is None ==> (r matches Err(m) && m@ == "path must be a string"@),
            path is Some ==> match r {
                Ok(a) => a.path == path->Some_0 && bytes_read(*data, Some(a.data@)),
                Err(m) => m@ == "invalid data type"@ && bytes_read(*data, None),
            },
    {
        match path {
            None => Err("path must be a string".to_owned()),
            Some(p) => match to_bytes(data) {
                Some(b) => Ok(WriteArgs { path: p, data: b }),
                None => Err("invalid data type".to_owned()),
            },
        }
    }
}

/// `r` is what `to_bytes` gives for `v`: for a string, the UTF-8 encoding of its text;
/// for a borrowed sequence, the `u8` that it gives back at each position, or none where
/// at some position it gives back something else; none for anything else.
pub open spec fn bytes_read(v: ValueRef, r: Option<Seq<u8>>) -> bool {
    if v is Str {
        r == Some(encode_utf8(v->Str_0@))
    } else if v is Dynamic && v->Dynamic_0 is Sequence {
        match r {
            Some(b) => b.len() == v->Dynamic_0->Sequence_0.spec_len() && forall|i: int|
                0 <= i < b.len() ==> #[trigger] v->Dynamic_0->Sequence_0.index_ensures(
                    i,
                    Value::Number(Number::Int(Int::U8(b[i]))),
                ),
            None => exists|i: int, x: Value|
                0 <= i < v->Dynamic_0->Sequence_0.spec_len() && #[trigger] v->Dynamic_0->Sequence_0.index_ensures(i, x)
                    && !(x matches Value::Number(Number::Int(Int::U8(_)))),
        }
    } else {
        r is None
    }
}

/// The bytes of a value: the UTF-8 encoding of a string; the elements of a borrowed
/// sequence when each is a `u8`; none for anything else.
pub fn to_bytes(value: &ValueRef) -> (r: Option<Vec<u8>>)
    ensures
        bytes_read(*value, match r {
            Some(b) => Some(b@),
            None => None,
        }),
{
    match value.as_str() {
        Some(text) => {
            return Some(slice_to_vec(text.as_bytes()));
        },
        None => {},
    }
    let d = match value.as_dynamic() {
        Some(d) => d,
        None => {
            return None;
        },
    };
    let seq = match d.as_sequence() {
        Some(s) => s,
        None => {
            return None;
        },
    };
    let n = seq.len();
    let mut bytes: Vec<u8> = Vec::new();
    let mut i: usize = 0;
    while i < n
        invariant
            n == seq.spec_len(),
            *value is Dynamic,
            value->Dynamic_0 is Sequence,
            seq == value->Dynamic_0->Sequence_0,
            i <= n,
            bytes@.len() == i,
            forall|j: int|
                0 <= j < i ==> #[trigger] seq.index_ensures(j, Value::Number(Number::Int(Int::U8(bytes@[j])))),
        decreases n - i,
    {
        let x = seq.index(i);
        match u8::try_from(x) {
            Ok(b) => {
                bytes.push(b);
            },
            Err(_) => {
                return None;
            },
        }
        i = i + 1;
    }
    Some(bytes)
}

} // verus!
