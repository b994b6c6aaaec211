//! The schemas, what each accepts, and validation against them.

use vstd::prelude::*;
use crate::dynamic::{Dynamic, Sequence};
use crate::number::{int_value, Int, Number};
use crate::schema::error::{
    add_field_error, add_index_error, group, indexes_sorted, is_rule, lemma_add_index_error_last, list, Error,
    ErrorGroup, ListError, ObjectError,
};
use crate::schema::pattern::{compile, is_match, regex_matches, regex_new, Pattern};
use crate::text::{compare_text, concat3, decimal_string, decimal_text, lemma_text_order_zero, signed_string, signed_text, text_order, Str};
use crate::types::type_text;
use crate::value::{map_lookup, value_type, Value, ValueMap};

verus! {

/// Accepts a boolean, equal to `value` when that is set.
pub struct BoolSchema {
    pub value: Option<bool>,
}

/// Accepts an integer within `min` and `max` and equal to `constant`, where set; the
/// integer is read as `i64` (a `u64` above `i64::MAX` wraps).
pub struct IntegerSchema {
    pub min: Option<i64>,
    pub max: Option<i64>,
    pub constant: Option<i64>,
}

/// Accepts null and undefined.
pub struct NullSchema;

/// Accepts a string whose UTF-8 length is within `min` and `max`, equal to `constant`
/// and matching `pattern`, where set.
pub struct StringSchema {
    pub min: Option<usize>,
    pub max: Option<usize>,
    pub constant: Option<String>,
    pub pattern: Option<Pattern>,
}

/// Accepts a sequence whose length is within `min` and `max` and whose every element
/// `items` accepts, where set.
pub struct ArraySchema {
    pub min: Option<usize>,
    pub max: Option<usize>,
    pub items: Option<Box<Schema>>,
}

/// Accepts a map in which the value under each named field (undefined when absent) is
/// accepted by that field's schema. The fields are kept in name order, one per name.
pub struct ObjectSchema {
    pub fields: Vec<(String, Schema)>,
}

/// Accepts what one of its schemas accepts.
pub struct OneOf(pub Vec<Schema>);

/// A schema of any kind.
pub enum Schema {
    String(StringSchema),
    Integer(IntegerSchema),
    Bool(BoolSchema),
    Null(NullSchema),
    Array(ArraySchema),
    Object(ObjectSchema),
    OneOf { oneof: OneOf },
}

/// A validator of reflected values.
pub trait Validate {
    /// The name that `name` reports.
    spec fn spec_name(&self) -> Seq<char>;

    /// The name of the kind of schema.
    fn name(&self) -> (r: &str)
        ensures
            r@ == self.spec_name(),
    ;

    /// What the validator accepts.
    spec fn accepts(&self, v: Value) -> bool;

    /// `Ok` exactly when the validator accepts the value; else the reasons.
    fn validate(&self, value: &Value) -> (r: Result<(), Error>)
        ensures
            r is Ok <==> self.accepts(*value),
    ;
}

/// A boolean schema.
pub fn bool() -> (r: BoolSchema)
    ensures
        r.value is None,
{
    BoolSchema { value: None }
}

/// An integer schema.
pub fn integer() -> (r: IntegerSchema)
    ensures
        r.min is None && r.max is None && r.constant is None,
{
    IntegerSchema { min: None, max: None, constant: None }
}

/// The null schema.
pub fn null() -> (r: NullSchema) {
    NullSchema
}

/// A string schema.
pub fn string() -> (r: StringSchema)
    ensures
        r.min is None && r.max is None && r.constant is None && r.pattern is None,
{
    StringSchema { min: None, max: None, constant: None, pattern: None }
}

/// An array schema.
pub fn array() -> (r: ArraySchema)
    ensures
        r.min is None && r.max is None && r.items is None,
{
    ArraySchema { min: None, max: None, items: None }
}

/// An object schema with no fields.
pub fn object() -> (r: ObjectSchema)
    ensures
        r.fields@.len() == 0,
{
    ObjectSchema { fields: Vec::new() }
}

/// The text of a boolean.
pub open spec fn bool_text(b: bool) -> Seq<char> {
    if b { "true"@ } else { "false"@ }
}

fn bool_string(b: bool) -> (r: &'static str)
    ensures
        r@ == bool_text(b),
{
    if b { "true" } else { "false" }
}

/// The message of a value of the wrong kind.
pub open spec fn received_message(expected: Seq<char>, v: Value) -> Seq<char> {
    "expected "@ + expected + ", received "@ + type_text(value_type(v))
}

fn received_string(expected: &str, v: &Value) -> (r: String)
    ensures
        r@ == received_message(expected@, *v),
{
    let id = v.to_type().id();
    let mut s = concat3("expected ", expected, ", received ");
    s.append(id.as_str());
    s
}

/// The errors are the rules, in order: each the named rule broken for the given reason.
pub open spec fn rules_match(g: Seq<Error>, rules: Seq<(Seq<char>, Seq<char>)>) -> bool {
    g.len() == rules.len() && forall|i: int| 0 <= i < g.len() ==> is_rule(#[trigger] g[i], rules[i].0, rules[i].1)
}

/// The result of checking a value of the right kind against its rules: `Ok` when it
/// broke none, else a group of the broken rules in order.
pub open spec fn rules_result(r: Result<(), Error>, rules: Seq<(Seq<char>, Seq<char>)>) -> bool {
    if rules.len() == 0 {
        r is Ok
    } else {
        r matches Err(Error::Group(g)) && rules_match(g@, rules)
    }
}

fn finish(errors: ErrorGroup, Ghost(rules): Ghost<Seq<(Seq<char>, Seq<char>)>>) -> (r: Result<(), Error>)
    requires
        rules_match(errors@, rules),
    ensures
        rules_result(r, rules),
{
    errors.ok()
}

// ---------------------------------------------------------------------------------------
// bool

/// The rules a boolean `b` breaks.
pub open spec fn bool_rules(s: BoolSchema, b: bool) -> Seq<(Seq<char>, Seq<char>)> {
    match s.value {
        Some(c) => if c != b {
            seq![("constant"@, "expected "@ + bool_text(c) + ", received "@ + bool_text(b))]
        } else {
            seq![]
        },
        None => seq![],
    }
}

/// What a boolean schema accepts.
pub open spec fn bool_accepts(s: BoolSchema, v: Value) -> bool {
    v is Bool && bool_rules(s, v->Bool_0).len() == 0
}

impl BoolSchema {
    /// Requires the value `value`.
    pub fn constant(self, value: bool) -> (r: Self)
        ensures
            r.value == Some(value),
    {
        BoolSchema { value: Some(value) }
    }

    /// Validation: a non-boolean breaks the rule `type`; else the rules are checked.
    pub fn check(&self, value: &Value) -> (r: Result<(), Error>)
        ensures
            !(*value is Bool) ==> (r matches Err(e) && is_rule(e, "type"@, received_message("bool"@, *value))),
            *value is Bool ==> rules_result(r, bool_rules(*self, value->Bool_0)),
    {
        let b = match value {
            Value::Bool(b) => *b,
            _ => {
                return Err(Error::rule("type", received_string("bool", value)));
            },
        };
        let mut errors = group();
        let ghost rules = bool_rules(*self, b);
        match self.value {
            Some(c) => {
                if c != b {
                    let mut m = concat3("expected ", bool_string(c), ", received ");
                    m.append(bool_string(b));
                    errors.push(Error::rule("constant", m));
                }
            },
            None => {},
        }
        assert(rules_match(errors@, rules));
        finish(errors, Ghost(rules))
    }
}

impl Validate for BoolSchema {
    open spec fn spec_name(&self) -> Seq<char> {
        "bool"@
    }

    fn name(&self) -> (r: &str) {
        "bool"
    }

    open spec fn accepts(&self, v: Value) -> bool {
        bool_accepts(*self, v)
    }

    /// The error, when there is one, is the one `schema_error` describes.
    fn validate(&self, value: &Value) -> (r: Result<(), Error>)
        ensures
            r matches Err(e) ==> schema_error(Schema::Bool(*self), *value, e),
    {
        self.check(value)
    }
}

// ---------------------------------------------------------------------------------------
// integer

/// The integer of an integer value, read as `i64`.
pub open spec fn int_of(v: Value) -> Option<i64> {
    match v {
        Value::Number(Number::Int(i)) => Some(int_value(i) as i64),
        _ => None,
    }
}

/// The rules an integer `n` breaks, in the order `min`, `max`, `constant`.
pub open spec fn integer_rules(s: IntegerSchema, n: i64) -> Seq<(Seq<char>, Seq<char>)> {
    integer_min_rules(s, n) + integer_max_rules(s, n) + match s.constant {
        Some(c) => if c != n {
            seq![("constant"@, "expected "@ + signed_text(c as int) + ", received "@ + signed_text(n as int))]
        } else {
            seq![]
        },
        None => seq![],
    }
}

/// The rule `min` when `n` is below the minimum.
pub open spec fn integer_min_rules(s: IntegerSchema, n: i64) -> Seq<(Seq<char>, Seq<char>)> {
    match s.min {
        Some(m) => if n < m {
            seq![("min"@, "must not be less than "@ + signed_text(m as int))]
        } else {
            seq![]
        },
        None => seq![],
    }
}

/// The rule `max` when `n` is above the maximum.
pub open spec fn integer_max_rules(s: IntegerSchema, n: i64) -> Seq<(Seq<char>, Seq<char>)> {
    match s.max {
        Some(m) => if n > m {
            seq![("max"@, "must not be greater than "@ + signed_text(m as int))]
        } else {
            seq![]
        },
        None => seq![],
    }
}

/// What an integer schema accepts.
pub open spec fn integer_accepts(s: IntegerSchema, v: Value) -> bool {
    int_of(v) is Some && integer_rules(s, int_of(v)->Some_0).len() == 0
}

fn int_to_i64(i: &Int) -> (r: i64)
    ensures
        r == int_value(*i) as i64,
{
    match i {
        Int::I8(v) => *v as i64,
        Int::I16(v) => *v as i64,
        Int::I32(v) => *v as i64,
        Int::I64(v) => *v,
        Int::U8(v) => *v as i64,
        Int::U16(v) => *v as i64,
        Int::U32(v) => *v as i64,
        Int::U64(v) => *v as i64,
    }
}

impl IntegerSchema {
    /// Requires at least `value`.
    pub fn min(self, value: i64) -> (r: Self)
        ensures
            r.min == Some(value) && r.max == self.max && r.constant == self.constant,
    {
        IntegerSchema { min: Some(value), ..self }
    }

    /// Requires at most `value`.
    pub fn max(self, value: i64) -> (r: Self)
        ensures
            r.max == Some(value) && r.min == self.min && r.constant == self.constant,
    {
        IntegerSchema { max: Some(value), ..self }
    }

    /// Requires exactly `value`.
    pub fn constant(self, value: i64) -> (r: Self)
        ensures
            r.constant == Some(value) && r.min == self.min && r.max == self.max,
    {
        IntegerSchema { constant: Some(value), ..self }
    }

    /// Validation: a value that is not an integer breaks the rule `type`; else the rules
    /// are checked.
    pub fn check(&self, value: &Value) -> (r: Result<(), Error>)
        ensures
            int_of(*value) is None ==> (r matches Err(e) && is_rule(e, "type"@, received_message("integer"@, *value))),
            int_of(*value) is Some ==> rules_result(r, integer_rules(*self, int_of(*value)->Some_0)),
    {
        let n = match value {
            Value::Number(Number::Int(i)) => int_to_i64(i),
            _ => {
                return Err(Error::rule("type", received_string("integer", value)));
            },
        };
        let ghost rules = integer_rules(*self, n);
        let mut errors = group();
        let ghost r1 = integer_min_rules(*self, n);
        let ghost r2 = integer_max_rules(*self, n);
        if let Some(min) = self.min {
            if n < min {
                let t = signed_string(min as i128);
                errors.push(Error::rule("min", concat3("must not be less than ", t.as_str(), "")));
                proof {
                    reveal_strlit("");
                }
            }
        }
        assert(rules_match(errors@, r1));
        if let Some(max) = self.max {
            if n > max {
                let t = signed_string(max as i128);
                errors.push(Error::rule("max", concat3("must not be greater than ", t.as_str(), "")));
                proof {
                    reveal_strlit("");
                }
            }
        }
        assert(rules_match(errors@, r1 + r2));
        if let Some(c) = self.constant {
            if c != n {
                let tc = signed_string(c as i128);
                let tn = signed_string(n as i128);
                let mut m = concat3("expected ", tc.as_str(), ", received ");
                m.append(tn.as_str());
                errors.push(Error::rule("constant", m));
            }
        }
        assert(rules_match(errors@, rules));
        finish(errors, Ghost(rules))
    }
}

impl Validate for IntegerSchema {
    open spec fn spec_name(&self) -> Seq<char> {
        "integer"@
    }

    fn name(&self) -> (r: &str) {
        "integer"
    }

    open spec fn accepts(&self, v: Value) -> bool {
        integer_accepts(*self, v)
    }

    /// The error, when there is one, is the one `schema_error` describes.
    fn validate(&self, value: &Value) -> (r: Result<(), Error>)
        ensures
            r matches Err(e) ==> schema_error(Schema::Integer(*self), *value, e),
    {
        self.check(value)
    }
}

// ---------------------------------------------------------------------------------------
// null

impl NullSchema {
    /// Validation: anything but null or undefined breaks the rule `type`.
    pub fn check(&self, value: &Value) -> (r: Result<(), Error>)
        ensures
            (*value is Null || *value is Undefined) ==> r is Ok,
            !(*value is Null || *value is Undefined) ==> (r matches Err(e) && is_rule(
                e,
                "type"@,
                received_message("null"@, *value),
            )),
    {
        if !value.is_null() && !value.is_undefined() {
            return Err(Error::rule("type", received_string("null", value)));
        }
        Ok(())
    }
}

impl Validate for NullSchema {
    open spec fn spec_name(&self) -> Seq<char> {
        "null"@
    }

    fn name(&self) -> (r: &str) {
        "null"
    }

    open spec fn accepts(&self, v: Value) -> bool {
        v is Null || v is Undefined
    }

    /// The error, when there is one, is the one `schema_error` describes.
    fn validate(&self, value: &Value) -> (r: Result<(), Error>)
        ensures
            r matches Err(e) ==> schema_error(Schema::Null(*self), *value, e),
    {
        self.check(value)
    }
}

// ---------------------------------------------------------------------------------------
// string

/// The length of a string in UTF-8 bytes, as `len` reports it.
pub open spec fn utf8_len(x: Seq<char>) -> nat {
    (vstd::utf8::encode_utf8(x).len() as usize) as nat
}

/// The rules a string `x` breaks, in the order `min`, `max`, `constant`, `pattern`;
/// `matched` tells whether the pattern (if any) matched.
pub open spec fn string_rules(s: StringSchema, x: Seq<char>, matched: bool) -> Seq<(Seq<char>, Seq<char>)> {
    string_len_rules(s, x) + string_constant_rules(s, x) + match s.pattern {
        Some(p) => if !matched {
            seq![("pattern"@, "expected match for pattern \""@ + p@ + "\""@)]
        } else {
            seq![]
        },
        None => seq![],
    }
}

/// The rule `constant` when `x` differs from the required text.
pub open spec fn string_constant_rules(s: StringSchema, x: Seq<char>) -> Seq<(Seq<char>, Seq<char>)> {
    match s.constant {
        Some(c) => if x != c@ {
            seq![("constant"@, "expected \""@ + c@ + "\", received \""@ + x + "\""@)]
        } else {
            seq![]
        },
        None => seq![],
    }
}

/// The rules `min` and `max` that a string `x` breaks.
pub open spec fn string_len_rules(s: StringSchema, x: Seq<char>) -> Seq<(Seq<char>, Seq<char>)> {
    (match s.min {
        Some(m) => if m > utf8_len(x) {
            seq![("min"@, "length must not be less than "@ + decimal_text(m as nat))]
        } else {
            seq![]
        },
        None => seq![],
    }) + match s.max {
        Some(m) => if m < utf8_len(x) {
            seq![("max"@, "length must not be greater than "@ + decimal_text(m as nat))]
        } else {
            seq![]
        },
        None => seq![],
    }
}

/// Whether the pattern of the schema (if any) matches `x`.
pub open spec fn pattern_matches(s: StringSchema, x: Seq<char>) -> bool {
    match s.pattern {
        Some(p) => regex_matches(p@, x),
        None => true,
    }
}

/// What a string schema accepts.
pub open spec fn string_accepts(s: StringSchema, v: Value) -> bool {
    v is Str && string_rules(s, v->Str_0@, pattern_matches(s, v->Str_0@)).len() == 0
}

impl StringSchema {
    /// Requires a length of at least `value` bytes.
    pub fn min(self, value: usize) -> (r: Self)
        ensures
            r == (StringSchema { min: Some(value), ..self }),
    {
        StringSchema { min: Some(value), ..self }
    }

    /// Requires a length of at most `value` bytes.
    pub fn max(self, value: usize) -> (r: Self)
        ensures
            r == (StringSchema { max: Some(value), ..self }),
    {
        StringSchema { max: Some(value), ..self }
    }

    /// Requires exactly the text `value`.
    pub fn constant(self, value: &str) -> (r: Self)
        ensures
            r.min == self.min && r.max == self.max && r.pattern == self.pattern,
            r.constant matches Some(c) && c@ == value@,
    {
        StringSchema { constant: Some(value.to_owned()), ..self }
    }

    /// Requires a match of the regular expression `value`; an expression that does not
    /// compile is an error with the compiler's message.
    pub fn pattern(self, value: &str) -> (r: Result<Self, String>)
        ensures
            match regex_new(value@) {
                Ok(_) => r matches Ok(t) && t.min == self.min && t.max == self.max && t.constant == self.constant
                    && (t.pattern matches Some(p) && p@ == value@),
                Err(m) => r matches Err(e) && e@ == m,
            },
    {
        match compile(value) {
            Ok(p) => Ok(StringSchema { pattern: Some(p), ..self }),
            Err(e) => Err(e),
        }
    }

    /// Validation given whether the pattern matched: a non-string breaks the rule `type`;
    /// else the rules are checked.
    pub fn check(&self, value: &Value, matched: bool) -> (r: Result<(), Error>)
        ensures
            !(*value is Str) ==> (r matches Err(e) && is_rule(e, "type"@, received_message("string"@, *value))),
            *value is Str ==> rules_result(r, string_rules(*self, value->Str_0@, matched)),
    {
        let x = match value {
            Value::Str(x) => x,
            _ => {
                return Err(Error::rule("type", received_string("string", value)));
            },
        };
        let ghost rules = string_rules(*self, x@, matched);
        let len = x.len();
        let mut errors = group();
        proof {
            reveal_strlit("");
        }
        if let Some(min) = self.min {
            if min > len {
                let t = decimal_string(min as u128);
                errors.push(Error::rule("min", concat3("length must not be less than ", t.as_str(), "")));
            }
        }
        if let Some(max) = self.max {
            if max < len {
                let t = decimal_string(max as u128);
                errors.push(Error::rule("max", concat3("length must not be greater than ", t.as_str(), "")));
            }
        }
        assert(rules_match(errors@, string_len_rules(*self, x@)));
        let ghost r1 = string_len_rules(*self, x@) + string_constant_rules(*self, x@);
        if let Some(c) = &self.constant {
            if !crate::text::text_eq(x.as_str(), c.as_str()) {
                let mut m = concat3("expected \"", c.as_str(), "\", received \"");
                m.append(x.as_str());
                m.append("\"");
                errors.push(Error::rule("constant", m));
            }
        }
        assert(rules_match(errors@, r1));
        if let Some(p) = &self.pattern {
            if !matched {
                let m = concat3("expected match for pattern \"", p.as_str(), "\"");
                errors.push(Error::rule("pattern", m));
            }
        }
        assert(rules_match(errors@, rules));
        finish(errors, Ghost(rules))
    }
}

/// Validation of a string against a string schema, matching its pattern with the
/// `regex` crate.
fn validate_string(s: &StringSchema, value: &Value) -> (r: Result<(), Error>)
    ensures
        r is Ok <==> string_accepts(*s, *value),
        !(*value is Str) ==> (r matches Err(e) && is_rule(e, "type"@, received_message("string"@, *value))),
        *value is Str ==> rules_result(r, string_rules(*s, value->Str_0@, pattern_matches(*s, value->Str_0@))),
{
    let matched = match (value, &s.pattern) {
        (Value::Str(x), Some(p)) => is_match(p, x.as_str()),
        _ => true,
    };
    s.check(value, matched)
}

impl Validate for StringSchema {
    open spec fn spec_name(&self) -> Seq<char> {
        "string"@
    }

    fn name(&self) -> (r: &str) {
        "string"
    }

    open spec fn accepts(&self, v: Value) -> bool {
        string_accepts(*self, v)
    }

    /// The error, when there is one, is the one `schema_error` describes.
    fn validate(&self, value: &Value) -> (r: Result<(), Error>)
        ensures
            r matches Err(e) ==> schema_error(Schema::String(*self), *value, e),
    {
        validate_string(self, value)
    }
}

// ---------------------------------------------------------------------------------------
// array, object, oneof

/// The elements of a value that is a sequence.
pub open spec fn elements_of(v: Value) -> Option<Seq<Value>> {
    match v {
        Value::Dynamic(Dynamic::Sequence(q)) => Some(q@),
        _ => None,
    }
}

/// The rules `min` and `max` that a sequence of length `n` breaks.
pub open spec fn array_rules(a: ArraySchema, n: nat) -> Seq<(Seq<char>, Seq<char>)> {
    (match a.min {
        Some(m) => if n < m {
            seq![("min"@, "length must not be less than "@ + decimal_text(m as nat))]
        } else {
            seq![]
        },
        None => seq![],
    }) + match a.max {
        Some(m) => if n > m {
            seq![("max"@, "length must not be greater than "@ + decimal_text(m as nat))]
        } else {
            seq![]
        },
        None => seq![],
    }
}

/// The value under the field `name` of map entries; undefined when absent.
pub open spec fn field_value(m: Seq<(Value, Value)>, name: String) -> Value {
    match map_lookup(m, Value::Str(Str(name))) {
        Some(x) => x,
        None => Value::Undefined,
    }
}

/// What a schema accepts.
pub open spec fn schema_accepts(s: Schema, v: Value) -> bool
    decreases s, 1nat,
{
    match s {
        Schema::String(x) => string_accepts(x, v),
        Schema::Integer(x) => integer_accepts(x, v),
        Schema::Bool(x) => bool_accepts(x, v),
        Schema::Null(_) => v is Null || v is Undefined,
        Schema::Array(a) => match elements_of(v) {
            Some(e) => array_rules(a, e.len()).len() == 0 && match a.items {
                Some(it) => forall|i: int| 0 <= i < e.len() ==> schema_accepts(*it, #[trigger] e[i]),
                None => true,
            },
            None => false,
        },
        Schema::Object(o) => match v {
            Value::Mapping(m) => fields_accept(o.fields@, m@),
            _ => false,
        },
        Schema::OneOf { oneof } => any_accepts(oneof.0@, v),
    }
}

/// Each field's schema accepts the value under the field.
pub open spec fn fields_accept(fs: Seq<(String, Schema)>, m: Seq<(Value, Value)>) -> bool
    decreases fs, 0nat,
{
    if fs.len() == 0 {
        true
    } else {
        fields_accept(fs.subrange(0, fs.len() - 1), m) && schema_accepts(
            fs[fs.len() - 1].1,
            field_value(m, fs[fs.len() - 1].0),
        )
    }
}

/// Some schema accepts the value.
pub open spec fn any_accepts(ss: Seq<Schema>, v: Value) -> bool
    decreases ss, 0nat,
{
    if ss.len() == 0 {
        false
    } else {
        any_accepts(ss.subrange(0, ss.len() - 1), v) || schema_accepts(ss[ss.len() - 1], v)
    }
}

/// `e` is a group of the rules, in order.
pub open spec fn rules_error(e: Error, rules: Seq<(Seq<char>, Seq<char>)>) -> bool {
    e matches Error::Group(g) && rules_match(g@, rules)
}

/// `e` is the error that validating `v` against `s` gives: for a value of the wrong
/// kind the rule `type`; for a scalar of the right kind the group of the rules it breaks,
/// in order; for a sequence the group of the length rules it breaks, followed, when some
/// element is not accepted by `items`, by a list error with the error of each such
/// element under its index; for a map an object error with the error of each field
/// whose value is not accepted, under the field's name; for a choice the rule `oneof`.
pub open spec fn schema_error(s: Schema, v: Value, e: Error) -> bool
    decreases s, 2nat,
{
    match s {
        Schema::String(x) => if v is Str {
            rules_error(e, string_rules(x, v->Str_0@, pattern_matches(x, v->Str_0@)))
        } else {
            is_rule(e, "type"@, received_message("string"@, v))
        },
        Schema::Integer(x) => match int_of(v) {
            Some(n) => rules_error(e, integer_rules(x, n)),
            None => is_rule(e, "type"@, received_message("integer"@, v)),
        },
        Schema::Bool(x) => if v is Bool {
            rules_error(e, bool_rules(x, v->Bool_0))
        } else {
            is_rule(e, "type"@, received_message("bool"@, v))
        },
        Schema::Null(_) => is_rule(e, "type"@, received_message("null"@, v)),
        Schema::Array(a) => match elements_of(v) {
            Some(es) => array_error(a, es, e),
            None => is_rule(e, "type"@, received_message("array"@, v)),
        },
        Schema::Object(o) => match v {
            Value::Mapping(m) => e matches Error::Object(oe) && fields_error(o.fields@, m@, oe@),
            _ => is_rule(e, "type"@, received_message("object"@, v)),
        },
        Schema::OneOf { .. } => is_rule(e, "oneof"@, "expected value to match one or more"@),
    }
}

/// The error of a sequence `es` against an array schema: its length rules, then, when
/// some element is not accepted by `items`, the list error of those elements.
pub open spec fn array_error(a: ArraySchema, es: Seq<Value>, e: Error) -> bool
    decreases a, 3nat,
{
    let rs = array_rules(a, es.len());
    match a.items {
        Some(it) => if forall|i: int| 0 <= i < es.len() ==> schema_accepts(*it, #[trigger] es[i]) {
            rules_error(e, rs)
        } else {
            &&& e matches Error::Group(g)
            &&& g@.len() == rs.len() + 1
            &&& rules_match(g@.subrange(0, rs.len() as int), rs)
            &&& g@[rs.len() as int] matches Error::List(l) && items_error(*it, es, l@)
        },
        None => rules_error(e, rs),
    }
}

/// The entries of a list error for the elements `es` against `it`: in index order, one
/// per element that `it` does not accept, holding that element's error.
pub open spec fn items_error(it: Schema, es: Seq<Value>, lv: Seq<(nat, Seq<Error>)>) -> bool
    decreases it, 3nat,
{
    &&& indexes_sorted(lv)
    &&& forall|k: int|
        #![trigger lv[k]]
        0 <= k < lv.len() ==> {
            &&& lv[k].0 < es.len()
            &&& lv[k].1.len() == 1
            &&& !schema_accepts(it, es[lv[k].0 as int])
            &&& schema_error(it, es[lv[k].0 as int], lv[k].1[0])
        }
    &&& forall|i: int| 0 <= i < es.len() && !schema_accepts(it, #[trigger] es[i]) ==> exists|k: int|
        0 <= k < lv.len() && #[trigger] lv[k].0 == i
}

/// The entries of an object error for the fields `fs` of an object schema against the map
/// entries `m`: an empty object error after adding, field by field in order, the error
/// of each field whose value is not accepted, under the field's name.
pub open spec fn fields_error(fs: Seq<(String, Schema)>, m: Seq<(Value, Value)>, oe: Seq<(Seq<char>, Seq<Error>)>) -> bool
    decreases fs, 1nat,
{
    if fs.len() == 0 {
        oe.len() == 0
    } else {
        let f = fs[fs.len() - 1];
        if schema_accepts(f.1, field_value(m, f.0)) {
            fields_error(fs.subrange(0, fs.len() - 1), m, oe)
        } else {
            exists|before: Seq<(Seq<char>, Seq<Error>)>, err: Error|
                #![trigger add_field_error(before, f.0@, err)]
                {
                    &&& fields_error(fs.subrange(0, fs.len() - 1), m, before)
                    &&& schema_error(f.1, field_value(m, f.0), err)
                    &&& oe == add_field_error(before, f.0@, err)
                }
        }
    }
}

/// Validation against a schema of any kind.
pub fn validate_schema(s: &Schema, value: &Value) -> (r: Result<(), Error>)
    ensures
        r is Ok <==> schema_accepts(*s, *value),
        r matches Err(e) ==> schema_error(*s, *value, e),
    decreases *s, 1nat,
{
    match s {
        Schema::String(x) => validate_string(x, value),
        Schema::Integer(x) => x.check(value),
        Schema::Bool(x) => x.check(value),
        Schema::Null(x) => x.check(value),
        Schema::Array(a) => {
            proof {
                assert(decreases_to!(*s => (*s)->Array_0));
            }
            validate_array(a, value)
        },
        Schema::Object(o) => {
            proof {
                assert(decreases_to!(*s => (*s)->Object_0));
            }
            validate_object(o, value)
        },
        Schema::OneOf { oneof } => {
            proof {
                assert(decreases_to!(*s => (*s)->oneof));
            }
            validate_oneof(oneof, value)
        },
    }
}

/// Validation against an array schema: a non-sequence breaks the rule `type`; else the
/// length rules are checked and, with `items`, each element, whose errors are gathered
/// in a list error.
fn validate_array(a: &ArraySchema, value: &Value) -> (r: Result<(), Error>)
    ensures
        r is Ok <==> schema_accepts(Schema::Array(*a), *value),
        r matches Err(e) ==> schema_error(Schema::Array(*a), *value, e),
    decreases *a, 0nat,
{
    let q = match value {
        Value::Dynamic(Dynamic::Sequence(q)) => q,
        _ => {
            return Err(Error::rule("type", received_string("array", value)));
        },
    };
    let ghost e = q@;
    let len = q.len();
    let mut errors = group();
    proof {
        reveal_strlit("");
    }
    if let Some(min) = a.min {
        if len < min {
            let t = decimal_string(min as u128);
            errors.push(Error::rule("min", concat3("length must not be less than ", t.as_str(), "")));
        }
    }
    if let Some(max) = a.max {
        if len > max {
            let t = decimal_string(max as u128);
            errors.push(Error::rule("max", concat3("length must not be greater than ", t.as_str(), "")));
        }
    }
    let ghost rs = array_rules(*a, len as nat);
    assert(rules_match(errors@, rs));
    let ghost before = errors@;
    match &a.items {
        Some(items) => {
            let mut lst = list();
            let mut i: usize = 0;
            while i < len
                invariant
                    i <= len,
                    len == e.len(),
                    e == q@,
                    a.items == Some(*items),
                    lst@.len() == 0 <==> forall|j: int| 0 <= j < i ==> schema_accepts(**items, #[trigger] e[j]),
                    indexes_sorted(lst@),
                    forall|k: int|
                        #![trigger lst@[k]]
                        0 <= k < lst@.len() ==> {
                            &&& lst@[k].0 < i
                            &&& lst@[k].1.len() == 1
                            &&& !schema_accepts(**items, e[lst@[k].0 as int])
                            &&& schema_error(**items, e[lst@[k].0 as int], lst@[k].1[0])
                        },
                    forall|j: int| 0 <= j < i && !schema_accepts(**items, #[trigger] e[j]) ==> exists|k: int|
                        0 <= k < lst@.len() && #[trigger] lst@[k].0 == j,
                decreases len - i,
            {
                let x = q.index(i);
                proof {
                    assert(decreases_to!(*a => a.items));
                    assert(decreases_to!(a.items => (a.items)->Some_0));
                }
                match validate_schema(&**items, &x) {
                    Ok(()) => {},
                    Err(err) => {
                        let ghost old_l = lst@;
                        proof {
                            assert forall|j: int| 0 <= j < old_l.len() implies #[trigger] old_l[j].0 < i as nat by {
                                assert(old_l[j].0 < i);
                            }
                            lemma_add_index_error_last(old_l, i as nat, err);
                        }
                        lst = lst.index(i, err);
                        proof {
                            let n = old_l.len() as int;
                            assert(lst@[n].0 == i);
                            assert forall|j: int| 0 <= j < i + 1 && !schema_accepts(**items, #[trigger] e[j]) implies exists|k: int|
                                0 <= k < lst@.len() && #[trigger] lst@[k].0 == j by {
                                if j < i {
                                    let k = choose|k: int| 0 <= k < old_l.len() && #[trigger] old_l[k].0 == j;
                                    assert(lst@[k] == old_l[k]);
                                } else {
                                    assert(lst@[n].0 == j);
                                }
                            }
                            assert forall|k: int| #![trigger lst@[k]] 0 <= k < lst@.len() implies {
                                &&& lst@[k].0 < i + 1
                                &&& lst@[k].1.len() == 1
                                &&& !schema_accepts(**items, e[lst@[k].0 as int])
                                &&& schema_error(**items, e[lst@[k].0 as int], lst@[k].1[0])
                            } by {
                                if k < n {
                                    assert(lst@[k] == old_l[k]);
                                }
                            }
                        }
                    },
                }
                i = i + 1;
            }
            if !lst.is_empty() {
                let ghost lv = lst@;
                errors.push(Error::List(lst));
                proof {
                    assert(errors@.subrange(0, rs.len() as int) =~= before);
                    assert(items_error(**items, e, lv));
                }
            }
        },
        None => {},
    }
    errors.ok()
}

/// Validation against an object schema: a non-map breaks the rule `type`; else each
/// field's value (undefined when absent) is validated, errors gathered by field name.
fn validate_object(o: &ObjectSchema, value: &Value) -> (r: Result<(), Error>)
    ensures
        r is Ok <==> schema_accepts(Schema::Object(*o), *value),
        r matches Err(e) ==> schema_error(Schema::Object(*o), *value, e),
    decreases *o, 0nat,
{
    let m = match value {
        Value::Mapping(m) => m,
        _ => {
            return Err(Error::rule("type", received_string("object", value)));
        },
    };
    let mut errors = crate::schema::error::object();
    let mut i: usize = 0;
    assert(o.fields@.subrange(0, 0) =~= Seq::<(String, Schema)>::empty());
    while i < o.fields.len()
        invariant
            i <= o.fields@.len(),
            *value == Value::Mapping(*m),
            errors@.len() == 0 <==> fields_accept(o.fields@.subrange(0, i as int), m@),
            fields_error(o.fields@.subrange(0, i as int), m@, errors@),
        decreases o.fields@.len() - i,
    {
        let name = &o.fields[i].0;
        let key = Value::Str(Str(name.clone()));
        let fv = match m.get(&key) {
            Some(x) => x.clone(),
            None => Value::Undefined,
        };
        proof {
            assert(decreases_to!(*o => o.fields));
            assert(decreases_to!(o.fields => o.fields@));
            assert(decreases_to!(o.fields@ => o.fields@[i as int]));
            assert(decreases_to!(o.fields@[i as int] => o.fields@[i as int].1));
        }
        let res = validate_schema(&o.fields[i].1, &fv);
        proof {
            let t = o.fields@.subrange(0, i + 1);
            assert(t.subrange(0, t.len() - 1) =~= o.fields@.subrange(0, i as int));
            assert(fv == field_value(m@, o.fields@[i as int].0));
        }
        let ghost before = errors@;
        match res {
            Ok(()) => {},
            Err(err) => {
                errors = errors.field(name.as_str(), err);
                proof {
                    let t = o.fields@.subrange(0, i + 1);
                    assert(t[t.len() - 1] == o.fields@[i as int]);
                    assert(errors@ == add_field_error(before, t[t.len() - 1].0@, err));
                }
            },
        }
        i = i + 1;
    }
    assert(o.fields@.subrange(0, o.fields@.len() as int) =~= o.fields@);
    errors.ok()
}

/// Validation against a choice of schemas: `Ok` when one accepts, else the rule `oneof`.
fn validate_oneof(o: &OneOf, value: &Value) -> (r: Result<(), Error>)
    ensures
        r is Ok <==> schema_accepts(Schema::OneOf { oneof: *o }, *value),
        r matches Err(e) ==> schema_error(Schema::OneOf { oneof: *o }, *value, e),
    decreases *o, 0nat,
{
    let mut i: usize = 0;
    assert(o.0@.subrange(0, 0) =~= Seq::<Schema>::empty());
    while i < o.0.len()
        invariant
            i <= o.0@.len(),
            !any_accepts(o.0@.subrange(0, i as int), *value),
        decreases o.0@.len() - i,
    {
        proof {
            assert(decreases_to!(*o => o.0));
            assert(decreases_to!(o.0 => o.0@));
            assert(decreases_to!(o.0@ => o.0@[i as int]));
            let t = o.0@.subrange(0, i + 1);
            assert(t.subrange(0, t.len() - 1) =~= o.0@.subrange(0, i as int));
        }
        if validate_schema(&o.0[i], value).is_ok() {
            proof {
                lemma_any_accepts_prefix(o.0@, i + 1, *value);
            }
            return Ok(());
        }
        i = i + 1;
    }
    assert(o.0@.subrange(0, o.0@.len() as int) =~= o.0@);
    Err(Error::rule("oneof", "expected value to match one or more".to_owned()))
}

proof fn lemma_any_accepts_prefix(ss: Seq<Schema>, n: int, v: Value)
    requires
        0 <= n <= ss.len(),
        any_accepts(ss.subrange(0, n), v),
    ensures
        any_accepts(ss, v),
    decreases ss.len() - n,
{
    if n < ss.len() {
        let t = ss.subrange(0, n + 1);
        assert(t.subrange(0, t.len() - 1) =~= ss.subrange(0, n));
        lemma_any_accepts_prefix(ss, n + 1, v);
    } else {
        assert(ss.subrange(0, n) =~= ss);
    }
}

// ---------------------------------------------------------------------------------------
// builders and the schema enum

impl ArraySchema {
    /// Requires at least `value` elements.
    pub fn min(self, value: usize) -> (r: Self)
        ensures
            r.min == Some(value) && r.max == self.max && r.items == self.items,
    {
        ArraySchema { min: Some(value), ..self }
    }

    /// Requires at most `value` elements.
    pub fn max(self, value: usize) -> (r: Self)
        ensures
            r.max == Some(value) && r.min == self.min && r.items == self.items,
    {
        ArraySchema { max: Some(value), ..self }
    }

    /// Requires every element to be accepted by `schema`.
    pub fn items(self, schema: Schema) -> (r: Self)
        ensures
            r.items == Some(Box::new(schema)) && r.min == self.min && r.max == self.max,
    {
        ArraySchema { items: Some(Box::new(schema)), ..self }
    }
}

/// The fields of an object schema, names taken as text.
pub open spec fn fields_view(fs: Seq<(String, Schema)>) -> Seq<(Seq<char>, Schema)> {
    Seq::new(fs.len(), |i: int| (fs[i].0@, fs[i].1))
}

/// The index of the first field whose name is not below `k`.
pub open spec fn field_pos(s: Seq<(Seq<char>, Schema)>, k: Seq<char>) -> nat
    decreases s.len(),
{
    if s.len() == 0 {
        0
    } else if text_order(s[0].0, k) >= 0 {
        0
    } else {
        1 + field_pos(s.drop_first(), k)
    }
}

/// The fields after setting the schema of `k`: replacing that of a field named `k`,
/// else inserted in name order.
pub open spec fn set_field(s: Seq<(Seq<char>, Schema)>, k: Seq<char>, sch: Schema) -> Seq<(Seq<char>, Schema)> {
    let p = field_pos(s, k) as int;
    if p < s.len() && s[p].0 == k {
        s.update(p, (k, sch))
    } else {
        s.insert(p, (k, sch))
    }
}

proof fn lemma_field_pos(s: Seq<(Seq<char>, Schema)>, k: Seq<char>, p: int)
    requires
        0 <= p <= s.len(),
        forall|j: int| 0 <= j < p ==> #[trigger] text_order(s[j].0, k) < 0,
        p == s.len() || text_order(s[p].0, k) >= 0,
    ensures
        field_pos(s, k) == p,
    decreases p,
{
    if p > 0 {
        let t = s.drop_first();
        assert(text_order(s[0].0, k) < 0);
        assert forall|j: int| 0 <= j < p - 1 implies #[trigger] text_order(t[j].0, k) < 0 by {
            assert(text_order(s[j + 1].0, k) < 0);
        }
        lemma_field_pos(t, k, p - 1);
    }
}

impl ObjectSchema {
    /// Sets the schema of the field `name`.
    pub fn field(self, name: &str, schema: Schema) -> (r: Self)
        ensures
            fields_view(r.fields@) == set_field(fields_view(self.fields@), name@, schema),
    {
        let mut v = self.fields;
        let ghost s = fields_view(v@);
        let ghost sch = schema;
        let n = v.len();
        let mut p: usize = 0;
        let mut c: i8 = 1;
        while p < n
            invariant
                n == v@.len(),
                s == fields_view(v@),
                p <= n,
                forall|j: int| 0 <= j < p ==> #[trigger] text_order(s[j].0, name@) < 0,
            ensures
                p <= n,
                forall|j: int| 0 <= j < p ==> #[trigger] text_order(s[j].0, name@) < 0,
                p < n ==> c >= 0 && c as int == text_order(s[p as int].0, name@),
            decreases n - p,
        {
            c = compare_text(v[p].0.as_str(), name);
            if c >= 0 {
                break;
            }
            p = p + 1;
        }
        proof {
            lemma_field_pos(s, name@, p as int);
            if p < n {
                lemma_text_order_zero(s[p as int].0, name@);
            }
        }
        if p < n && c == 0 {
            let (k, _old) = v.remove(p);
            v.insert(p, (k, schema));
        } else {
            v.insert(p, (name.to_owned(), schema));
        }
        proof {
            assert(fields_view(v@) =~= set_field(s, name@, sch));
        }
        ObjectSchema { fields: v }
    }
}

impl OneOf {
    /// A choice of the schemas, in order.
    pub fn new(schemas: Vec<Schema>) -> (r: Self)
        ensures
            r.0@ == schemas@,
    {
        OneOf(schemas)
    }

    /// Adds `schema` to the choice.
    pub fn or(self, schema: Schema) -> (r: Self)
        ensures
            r.0@ == self.0@.push(schema),
    {
        let mut v = self.0;
        v.push(schema);
        OneOf(v)
    }
}

impl Validate for ArraySchema {
    open spec fn spec_name(&self) -> Seq<char> {
        "array"@
    }

    fn name(&self) -> (r: &str) {
        "array"
    }

    open spec fn accepts(&self, v: Value) -> bool {
        schema_accepts(Schema::Array(*self), v)
    }

    /// The error, when there is one, is the one `schema_error` describes.
    fn validate(&self, value: &Value) -> (r: Result<(), Error>)
        ensures
            r matches Err(e) ==> schema_error(Schema::Array(*self), *value, e),
    {
        validate_array(self, value)
    }
}

impl Validate for ObjectSchema {
    open spec fn spec_name(&self) -> Seq<char> {
        "object"@
    }

    fn name(&self) -> (r: &str) {
        "object"
    }

    open spec fn accepts(&self, v: Value) -> bool {
        schema_accepts(Schema::Object(*self), v)
    }

    /// The error, when there is one, is the one `schema_error` describes.
    fn validate(&self, value: &Value) -> (r: Result<(), Error>)
        ensures
            r matches Err(e) ==> schema_error(Schema::Object(*self), *value, e),
    {
        validate_object(self, value)
    }
}

impl Validate for OneOf {
    open spec fn spec_name(&self) -> Seq<char> {
        "oneof"@
    }

    fn name(&self) -> (r: &str) {
        "oneof"
    }

    open spec fn accepts(&self, v: Value) -> bool {
        schema_accepts(Schema::OneOf { oneof: *self }, v)
    }

    /// The error, when there is one, is the one `schema_error` describes.
    fn validate(&self, value: &Value) -> (r: Result<(), Error>)
        ensures
            r matches Err(e) ==> schema_error(Schema::OneOf { oneof: *self }, *value, e),
    {
        validate_oneof(self, value)
    }
}

/// The name of a schema's kind.
pub open spec fn schema_name(s: Schema) -> Seq<char> {
    match s {
        Schema::String(_) => "string"@,
        Schema::Integer(_) => "integer"@,
        Schema::Bool(_) => "bool"@,
        Schema::Null(_) => "null"@,
        Schema::Array(_) => "array"@,
        Schema::Object(_) => "object"@,
        Schema::OneOf { .. } => "oneof"@,
    }
}

impl Validate for Schema {
    open spec fn spec_name(&self) -> Seq<char> {
        schema_name(*self)
    }

    fn name(&self) -> (r: &str) {
        match self {
            Schema::String(_) => "string",
            Schema::Integer(_) => "integer",
            Schema::Bool(_) => "bool",
            Schema::Null(_) => "null",
            Schema::Array(_) => "array",
            Schema::Object(_) => "object",
            Schema::OneOf { .. } => "oneof",
        }
    }

    open spec fn accepts(&self, v: Value) -> bool {
        schema_accepts(*self, v)
    }

    /// The error, when there is one, is the one `schema_error` describes.
    fn validate(&self, value: &Value) -> (r: Result<(), Error>)
        ensures
            r matches Err(e) ==> schema_error(*self, *value, e),
    {
        validate_schema(self, value)
    }
}

impl From<StringSchema> for Schema {
    fn from(value: StringSchema) -> (r: Schema) {
        Schema::String(value)
    }
}

impl vstd::std_specs::convert::FromSpecImpl<StringSchema> for Schema {
    open spec fn obeys_from_spec() -> bool {
        true
    }

    open spec fn from_spec(v: StringSchema) -> Schema {
        Schema::String(v)
    }
}

impl From<IntegerSchema> for Schema {
    fn from(value: IntegerSchema) -> (r: Schema) {
        Schema::Integer(value)
    }
}

impl vstd::std_specs::convert::FromSpecImpl<IntegerSchema> for Schema {
    open spec fn obeys_from_spec() -> bool {
        true
    }

    open spec fn from_spec(v: IntegerSchema) -> Schema {
        Schema::Integer(v)
    }
}

impl From<BoolSchema> for Schema {
    fn from(value: BoolSchema) -> (r: Schema) {
        Schema::Bool(value)
    }
}

impl vstd::std_specs::convert::FromSpecImpl<BoolSchema> for Schema {
    open spec fn obeys_from_spec() -> bool {
        true
    }

    open spec fn from_spec(v: BoolSchema) -> Schema {
        Schema::Bool(v)
    }
}

impl From<NullSchema> for Schema {
    fn from(value: NullSchema) -> (r: Schema) {
        Schema::Null(value)
    }
}

impl vstd::std_specs::convert::FromSpecImpl<NullSchema> for Schema {
    open spec fn obeys_from_spec() -> bool {
        true
    }

    open spec fn from_spec(v: NullSchema) -> Schema {
        Schema::Null(v)
    }
}

impl From<ArraySchema> for Schema {
    fn from(value: ArraySchema) -> (r: Schema) {
        Schema::Array(value)
    }
}

impl vstd::std_specs::convert::FromSpecImpl<ArraySchema> for Schema {
    open spec fn obeys_from_spec() -> bool {
        true
    }

    open spec fn from_spec(v: ArraySchema) -> Schema {
        Schema::Array(v)
    }
}

impl From<ObjectSchema> for Schema {
    fn from(value: ObjectSchema) -> (r: Schema) {
        Schema::Object(value)
    }
}

impl vstd::std_specs::convert::FromSpecImpl<ObjectSchema> for Schema {
    open spec fn obeys_from_spec() -> bool {
        true
    }

    open spec fn from_spec(v: ObjectSchema) -> Schema {
        Schema::Object(v)
    }
}

impl From<OneOf> for Schema {
    fn from(value: OneOf) -> (r: Schema) {
        Schema::OneOf { oneof: value }
    }
}

impl vstd::std_specs::convert::FromSpecImpl<OneOf> for Schema {
    open spec fn obeys_from_spec() -> bool {
        true
    }

    open spec fn from_spec(v: OneOf) -> Schema {
        Schema::OneOf { oneof: v }
    }
}

// ---------------------------------------------------------------------------------------
// laws

/// An integer schema accepts an integer exactly when it is at least the minimum and at
/// most the maximum (both bounds inclusive) and equals the constant, each where set; it
/// accepts nothing that is not an integer.
pub proof fn law_integer_bounds(s: IntegerSchema, v: Value)
    ensures
        int_of(v) is None ==> !integer_accepts(s, v),
        int_of(v) matches Some(n) ==> (integer_accepts(s, v) <==> ((s.min matches Some(m) ==> m <= n) && (
        s.max matches Some(m) ==> n <= m) && (s.constant matches Some(c) ==> c == n))),
{
}

/// An integer schema with only a maximum `m` accepts the integer `n` exactly when
/// `n <= m`: the maximum itself is accepted, the next integer is not.
pub proof fn law_integer_max_inclusive(m: i64, n: i64)
    ensures
        integer_rules(IntegerSchema { min: None, max: Some(m), constant: None }, n).len() == 0 <==> n <= m,
        integer_rules(IntegerSchema { min: None, max: Some(m), constant: None }, m).len() == 0,
        integer_rules(IntegerSchema { min: Some(m), max: None, constant: None }, m).len() == 0,
{
}

/// An array schema's length bounds are inclusive: a sequence of `n` elements breaks no
/// length rule exactly when `min <= n <= max`, each where set.
pub proof fn law_array_bounds(a: ArraySchema, n: nat)
    ensures
        array_rules(a, n).len() == 0 <==> ((a.min matches Some(m) ==> m <= n) && (a.max matches Some(m) ==> n <= m)),
{
}

/// A string schema's length bounds are inclusive and count UTF-8 bytes: a string breaks
/// no length rule exactly when its encoded length is between them, each where set.
pub proof fn law_string_bounds(s: StringSchema, x: Seq<char>)
    ensures
        string_len_rules(s, x).len() == 0 <==> ((s.min matches Some(m) ==> m <= utf8_len(x)) && (s.max matches Some(
            m,
        ) ==> utf8_len(x) <= m)),
        string_constant_rules(s, x).len() == 0 <==> (s.constant matches Some(c) ==> c@ == x),
{
}

/// A boolean schema accepts a boolean exactly when it equals the required value, if one
/// is set, and accepts nothing else.
pub proof fn law_bool_constant(s: BoolSchema, v: Value)
    ensures
        bool_accepts(s, v) <==> (v matches Value::Bool(b) && (s.value matches Some(c) ==> c == b)),
{
}

} // verus!
