//! The `http` namespace: the arguments of a request and the reflected form of its
//! response.
//!
//! The library decides what the arguments of a call mean and what a response shows;
//! sending the request is left to the caller.

use vstd::prelude::*;
use vstd::utf8::{encode_utf8, valid_utf8};
use crate::dynamic::Object;
use crate::number::{Int, Number};
use crate::text::{concat3, text_eq, Str};
use crate::to_value::ToValue;
use crate::types::{any_map_type, MapType, Type};
use crate::value::{map_insert, Value, ValueMap};

verus! {

/// The `http` namespace.
#[derive(Debug)]
pub struct Client;

impl Client {
    /// The qualified name of the function that the member `name` binds: `http.get`,
    /// `http.post`, `http.put` or `http.patch` for `get`, `post`, `put` or `patch`; none
    /// for any other name.
    pub fn member(&self, name: &str) -> (r: Option<String>)
        ensures
            name@ == "get"@ ==> (r matches Some(f) && f@ == "http.get"@),
            name@ != "get"@ && name@ == "post"@ ==> (r matches Some(f) && f@ == "http.post"@),
            name@ != "get"@ && name@ != "post"@ && name@ == "put"@ ==> (r matches Some(f) && f@ == "http.put"@),
            name@ != "get"@ && name@ != "post"@ && name@ != "put"@ && name@ == "patch"@ ==> (r matches Some(f) && f@
                == "http.patch"@),
            name@ != "get"@ && name@ != "post"@ && name@ != "put"@ && name@ != "patch"@ ==> r is None,
    {
        if text_eq(name, "get") {
            Some("http.get".to_owned())
        } else if text_eq(name, "post") {
            Some("http.post".to_owned())
        } else if text_eq(name, "put") {
            Some("http.put".to_owned())
        } else if text_eq(name, "patch") {
            Some("http.patch".to_owned())
        } else {
            None
        }
    }

    /// The names of the members: `get`, `post`, `put` and `patch`.
    pub fn members(&self) -> (r: Vec<String>)
        ensures
            r@.len() == 4,
            r@[0]@ == "get"@,
            r@[1]@ == "post"@,
            r@[2]@ == "put"@,
            r@[3]@ == "patch"@,
    {
        let mut v: Vec<String> = Vec::new();
        v.push("get".to_owned());
        v.push("post".to_owned());
        v.push("put".to_owned());
        v.push("patch".to_owned());
        v
    }
}

/// The body of a request.
pub enum Body {
    Text(String),
    Bytes(Vec<u8>),
}

/// The arguments of a request.
pub struct RequestArgs {
    pub uri: String,
    pub body: Option<Body>,
    pub headers: Vec<(String, String)>,
}

/// The texts of pairs of strings.
pub open spec fn pairs_view(s: Seq<(String, String)>) -> Seq<(Seq<char>, Seq<char>)> {
    s.map_values(|p: (String, String)| (p.0@, p.1@))
}

/// The headers that the map entries `s` stand for: each entry's key and value as texts,
/// in order; an error at the first entry whose key, or else whose value, is not a string.
pub open spec fn headers_read(s: Seq<(Value, Value)>) -> Result<Seq<(Seq<char>, Seq<char>)>, Seq<char>>
    decreases s.len(),
{
    if s.len() == 0 {
        Ok(Seq::empty())
    } else {
        match headers_read(s.subrange(0, s.len() - 1)) {
            Err(m) => Err(m),
            Ok(h) => {
                let e = s[s.len() - 1];
                if !(e.0 is Str) {
                    Err("header name must be a string"@)
                } else if !(e.1 is Str) {
                    Err("header value must be a string"@)
                } else {
                    Ok(h.push((e.0->Str_0@, e.1->Str_0@)))
                }
            },
        }
    }
}

/// The headers a request is sent with, for the value given as its `headers`: those of
/// its entries when it is a map, else none.
pub open spec fn request_headers(v: Value) -> Result<Seq<(Seq<char>, Seq<char>)>, Seq<char>> {
    if v is Mapping {
        headers_read(v->Mapping_0@)
    } else {
        Ok(Seq::empty())
    }
}

impl RequestArgs {
    /// The arguments from the first argument of the call read as a string (the uri), the
    /// second read as a string (a text body, when it is one) and the keyword argument
    /// `headers`: an error when the uri is not a string, or at the first header whose
    /// name or value is not a string.
    pub fn from_args(uri: Option<String>, body: Option<String>, headers: &Value) -> (r: Result<RequestArgs, String>)
        ensures
            uri is None ==> (r matches Err(m) && m@ == "uri must be a string"@),
            uri is Some ==> match request_headers(*headers) {
                Err(e) => r matches Err(m) && m@ == e,
                Ok(h) => r matches Ok(a) && a.uri == uri->Some_0 && a.body == match body {
                    Some(t) => Some(Body::Text(t)),
                    None => None,
                } && pairs_view(a.headers@) == h,
            },
    {
        let uri = match uri {
            Some(u) => u,
            None => {
                return Err("uri must be a string".to_owned());
            },
        };
        let body = match body {
            Some(t) => Some(Body::Text(t)),
            None => None,
        };
        match read_headers(headers) {
            Ok(out) => Ok(RequestArgs { uri, body, headers: out }),
            Err(m) => Err(m),
        }
    }
}

/// The headers that the value given as `headers` stands for.
fn read_headers(headers: &Value) -> (r: Result<Vec<(String, String)>, String>)
    ensures
        match request_headers(*headers) {
            Err(e) => r matches Err(m) && m@ == e,
            Ok(h) => r matches Ok(out) && pairs_view(out@) == h,
        },
{
    let mut out: Vec<(String, String)> = Vec::new();
    match headers.as_map() {
        Some(map) => {
            let entries = map.iter();
            let mut i: usize = 0;
            assert(pairs_view(out@) =~= Seq::empty());
            assert(entries@.subrange(0, 0) =~= Seq::empty());
            while i < entries.len()
                invariant
                    i <= entries@.len(),
                    entries@ == map@,
                    *headers is Mapping,
                    map@ == headers->Mapping_0@,
                    headers_read(entries@.subrange(0, i as int)) == Ok::<Seq<(Seq<char>, Seq<char>)>, Seq<char>>(
                        pairs_view(out@),
                    ),
                decreases entries@.len() - i,
            {
                let ghost s1 = entries@.subrange(0, i + 1);
                assert(s1.subrange(0, s1.len() - 1) =~= entries@.subrange(0, i as int));
                let key = match entries[i].0.as_str() {
                    Some(k) => k,
                    None => {
                        proof {
                            lemma_headers_read_error(entries@, i as int);
                        }
                        return Err("header name must be a string".to_owned());
                    },
                };
                let value = match entries[i].1.as_str() {
                    Some(v) => v,
                    None => {
                        proof {
                            lemma_headers_read_error(entries@, i as int);
                        }
                        return Err("header value must be a string".to_owned());
                    },
                };
                let ghost before = out@;
                out.push((key.as_str().to_owned(), value.as_str().to_owned()));
                assert(pairs_view(out@) =~= pairs_view(before).push((key@, value@)));
                i = i + 1;
            }
            assert(entries@.subrange(0, entries@.len() as int) =~= entries@);
            Ok(out)
        },
        None => {
            assert(pairs_view(out@) =~= Seq::empty());
            Ok(out)
        },
    }
}

/// An error in reading a prefix of the entries is the error of reading them all.
proof fn lemma_headers_read_error(s: Seq<(Value, Value)>, n: int)
    requires
        0 <= n < s.len(),
        headers_read(s.subrange(0, n + 1)) is Err,
    ensures
        headers_read(s) == headers_read(s.subrange(0, n + 1)),
    decreases s.len() - n,
{
    if n + 1 < s.len() {
        let t = s.subrange(0, n + 2);
        assert(t.subrange(0, t.len() - 1) =~= s.subrange(0, n + 1));
        lemma_headers_read_error(s, n + 1);
    } else {
        assert(s.subrange(0, n + 1) =~= s);
    }
}

/// A response to a request.
#[derive(Debug)]
pub struct Response {
    pub status: u16,
    /// The headers received, by name, in the order received.
    pub headers: Vec<(String, String)>,
    pub data: Vec<u8>,
}

/// The entries of a map of `headers`: an empty map after storing, header by header in
/// order, each value under its name; a later header of a name replaces an earlier one.
pub open spec fn headers_map(headers: Seq<(String, String)>) -> Seq<(Value, Value)>
    decreases headers.len(),
{
    if headers.len() == 0 {
        Seq::empty()
    } else {
        let h = headers[headers.len() - 1];
        map_insert(
            headers_map(headers.subrange(0, headers.len() - 1)),
            Value::Str(Str(h.0)),
            Value::Str(Str(h.1)),
        )
    }
}

/// The `std::str::from_utf8` conversion, with the text copied out. Its contract states
/// what the standard library documents: the conversion succeeds exactly on valid UTF-8,
/// and the text's encoding is the bytes given.
#[verifier::external_body]
fn utf8_text(bytes: &[u8]) -> (r: Option<String>)
    ensures
        r is Some <==> valid_utf8(bytes@),
        r matches Some(s) ==> encode_utf8(s@) == bytes@,
{
    match std::str::from_utf8(bytes) {
        Ok(s) => Some(s.to_owned()),
        Err(_) => None,
    }
}

impl Response {
    /// The headers as a map of their names to their values, with keys and values of any
    /// type.
    pub fn headers_value(&self) -> (r: Value)
        ensures
            r is Mapping,
            r->Mapping_0.map_type() == any_map_type(),
            r->Mapping_0@ == headers_map(self.headers@),
    {
        let ty = MapType::new(Type::Any, Type::Any, Type::Any);
        let mut map = ValueMap::new(&ty);
        let mut i: usize = 0;
        while i < self.headers.len()
            invariant
                i <= self.headers@.len(),
                map.map_type() == any_map_type(),
                map@ == headers_map(self.headers@.subrange(0, i as int)),
            decreases self.headers@.len() - i,
        {
            let ghost s1 = self.headers@.subrange(0, i + 1);
            assert(s1.subrange(0, s1.len() - 1) =~= self.headers@.subrange(0, i as int));
            let name = self.headers[i].0.clone();
            let value = self.headers[i].1.clone();
            map.insert(Value::Str(Str(name)), Value::Str(Str(value)));
            i = i + 1;
        }
        assert(self.headers@.subrange(0, self.headers@.len() as int) =~= self.headers@);
        Value::Mapping(map)
    }
}

/// A copy of pairs of strings.
fn clone_pairs(v: &Vec<(String, String)>) -> (r: Vec<(String, String)>)
    ensures
        r@ == v@,
{
    let mut out: Vec<(String, String)> = Vec::new();
    let mut i: usize = 0;
    while i < v.len()
        invariant
            i <= v@.len(),
            out@ == v@.subrange(0, i as int),
        decreases v@.len() - i,
    {
        out.push((v[i].0.clone(), v[i].1.clone()));
        assert(out@ =~= v@.subrange(0, i + 1));
        i = i + 1;
    }
    assert(out@ =~= v@);
    out
}

impl Clone for Response {
    fn clone(&self) -> (r: Self)
        ensures
            r.status == self.status,
            r.headers@ == self.headers@,
            r.data@ == self.data@,
    {
        let data = self.data.clone();
        assert(data@ =~= self.data@);
        Response { status: self.status, headers: clone_pairs(&self.headers), data }
    }
}

impl Object for Response {
    /// A response reports the type `any`.
    open spec fn spec_type(&self) -> Type {
        Type::Any
    }

    fn to_type(&self) -> (r: Type) {
        Type::Any
    }

    /// `status` is the status code as a `u16`; `headers` the map of the headers; `data`
    /// the body's bytes as a sequence; `text` the body's text when it is valid UTF-8,
    /// else undefined; anything else is undefined.
    open spec fn field_ensures(&self, name: Seq<char>, r: Value) -> bool {
        if name == "status"@ {
            r == Value::Number(Number::Int(Int::U16(self.status)))
        } else if name == "headers"@ {
            &&& r is Mapping
            &&& r->Mapping_0.map_type() == any_map_type()
            &&& r->Mapping_0@ == headers_map(self.headers@)
        } else if name == "data"@ {
            self.data.value_ensures(r)
        } else if name == "text"@ {
            if valid_utf8(self.data@) {
                r is Str && encode_utf8(r->Str_0@) == self.data@
            } else {
                r is Undefined
            }
        } else {
            r is Undefined
        }
    }

    fn field(&self, name: &str) -> (r: Value) {
        if text_eq(name, "status") {
            Value::Number(Number::Int(Int::U16(self.status)))
        } else if text_eq(name, "headers") {
            self.headers_value()
        } else if text_eq(name, "data") {
            self.data.to_value()
        } else if text_eq(name, "text") {
            match utf8_text(self.data.as_slice()) {
                Some(t) => Value::Str(Str(t)),
                None => Value::Undefined,
            }
        } else {
            Value::Undefined
        }
    }

    /// A response is not map-like.
    open spec fn entries_ensures(&self, r: Option<ValueMap>) -> bool {
        r is None
    }

    fn entries(&self) -> (r: Option<ValueMap>) {
        None
    }

    /// A response has no methods: the error names the one asked for.
    open spec fn method_ensures(&self, name: Seq<char>, args: Seq<Value>, r: Result<Value, String>) -> bool {
        r matches Err(m) && m@ == "no method '"@ + name + "'"@
    }

    fn call(&self, name: &str, args: &[Value]) -> (r: Result<Value, String>) {
        Err(concat3("no method '", name, "'"))
    }
}

} // verus!
