//! The document value that configuration files are read into, and the
//! parsers of the outside crates that produce it.
use vstd::prelude::*;

verus! {

/// A JSON number as serde_json stores it: a non-negative integer, a negative
/// integer, or a finite binary64 float given by its IEEE-754 bit pattern.
#[derive(Debug, Clone, Copy)]
pub enum JsonNumber {
    PosInt(u64),
    NegInt(i64),
    Float(u64),
}

/// A parsed document: JSON's data model. Object members keep the order in
/// which the parser handed them out (serde_json sorts them by key).
#[derive(Debug)]
pub enum Json {
    Null,
    Bool(bool),
    Number(JsonNumber),
    Str(String),
    Array(Vec<Json>),
    Object(Vec<(String, Json)>),
}

/// The value stored under `key`: the first member whose name is `key`.
pub open spec fn lookup(fields: Seq<(String, Json)>, key: Seq<char>) -> Option<Json>
    decreases fields.len(),
{
    if fields.len() == 0 {
        None
    } else if fields[0].0@ == key {
        Some(fields[0].1)
    } else {
        lookup(fields.drop_first(), key)
    }
}

/// The member names of an object, in order.
pub open spec fn keys_of(fields: Seq<(String, Json)>) -> Seq<Seq<char>> {
    fields.map_values(|f: (String, Json)| f.0@)
}

/// Whether the bit pattern `b` of a binary64 lies in `[0.0, 1.0]`.
///
/// Non-negative floats order like their bit patterns and `1.0` has the bits
/// `0x3ff0_0000_0000_0000`; `-0.0` (`0x8000_0000_0000_0000`) equals `0.0`.
pub open spec fn float_bits_in_unit(b: u64) -> bool {
    b == 0x8000_0000_0000_0000u64 || b <= 0x3ff0_0000_0000_0000u64
}

impl JsonNumber {
    /// `Number::as_u64`.
    pub open spec fn u64_of(self) -> Option<u64> {
        match self {
            JsonNumber::PosInt(n) => Some(n),
            _ => None,
        }
    }

    /// `Number::as_i64`.
    pub open spec fn i64_of(self) -> Option<i64> {
        match self {
            JsonNumber::PosInt(n) => if n <= i64::MAX {
                Some(n as i64)
            } else {
                None
            },
            JsonNumber::NegInt(n) => Some(n),
            JsonNumber::Float(_) => None,
        }
    }

    /// Whether `Number::as_f64` lies in `[0.0, 1.0]`.
    pub open spec fn in_unit_interval(self) -> bool {
        match self {
            JsonNumber::PosInt(n) => n <= 1,
            JsonNumber::NegInt(n) => n == 0,
            JsonNumber::Float(b) => float_bits_in_unit(b),
        }
    }

    /// `Number::as_u64`.
    pub fn as_u64(&self) -> (r: Option<u64>)
        ensures
            r == self.u64_of(),
    {
        match self {
            JsonNumber::PosInt(n) => Some(*n),
            _ => None,
        }
    }

    /// `Number::as_i64`.
    pub fn as_i64(&self) -> (r: Option<i64>)
        ensures
            r == self.i64_of(),
    {
        match self {
            JsonNumber::PosInt(n) => if *n <= 0x7fff_ffff_ffff_ffffu64 {
                Some(*n as i64)
            } else {
                None
            },
            JsonNumber::NegInt(n) => Some(*n),
            JsonNumber::Float(_) => None,
        }
    }

    /// Whether the number, read as a float, lies in `[0.0, 1.0]`.
    pub fn is_in_unit_interval(&self) -> (r: bool)
        ensures
            r == self.in_unit_interval(),
    {
        match self {
            JsonNumber::PosInt(n) => *n <= 1,
            JsonNumber::NegInt(n) => *n == 0,
            JsonNumber::Float(b) => *b == 0x8000_0000_0000_0000u64 || *b
                <= 0x3ff0_0000_0000_0000u64,
        }
    }
}

impl Json {
    /// The text of a string value.
    pub open spec fn str_of(self) -> Option<Seq<char>> {
        match self {
            Json::Str(s) => Some(s@),
            _ => None,
        }
    }

    /// The members of an object value.
    pub open spec fn object_of(self) -> Option<Seq<(String, Json)>> {
        match self {
            Json::Object(f) => Some(f@),
            _ => None,
        }
    }

    /// The items of an array value.
    pub open spec fn array_of(self) -> Option<Seq<Json>> {
        match self {
            Json::Array(v) => Some(v@),
            _ => None,
        }
    }

    /// The value of a boolean.
    pub open spec fn bool_of(self) -> Option<bool> {
        match self {
            Json::Bool(b) => Some(b),
            _ => None,
        }
    }

    /// `Value::as_u64`.
    pub open spec fn u64_of(self) -> Option<u64> {
        match self {
            Json::Number(n) => n.u64_of(),
            _ => None,
        }
    }

    /// `Value::as_i64`.
    pub open spec fn i64_of(self) -> Option<i64> {
        match self {
            Json::Number(n) => n.i64_of(),
            _ => None,
        }
    }

    /// `Value::as_str`.
    pub fn as_str(&self) -> (r: Option<&str>)
        ensures
            r is Some <==> self.str_of() is Some,
            r matches Some(s) ==> self.str_of() == Some(s@),
    {
        match self {
            Json::Str(s) => Some(s.as_str()),
            _ => None,
        }
    }

    /// `Value::as_object`.
    pub fn as_object(&self) -> (r: Option<&Vec<(String, Json)>>)
        ensures
            r is Some <==> self.object_of() is Some,
            r matches Some(f) ==> self.object_of() == Some(f@),
    {
        match self {
            Json::Object(f) => Some(f),
            _ => None,
        }
    }

    /// `Value::as_array`.
    pub fn as_array(&self) -> (r: Option<&Vec<Json>>)
        ensures
            r is Some <==> self.array_of() is Some,
            r matches Some(v) ==> self.array_of() == Some(v@),
    {
        match self {
            Json::Array(v) => Some(v),
            _ => None,
        }
    }

    /// `Value::as_bool`.
    pub fn as_bool(&self) -> (r: Option<bool>)
        ensures
            r == self.bool_of(),
    {
        match self {
            Json::Bool(b) => Some(*b),
            _ => None,
        }
    }

    /// `Value::as_u64`.
    pub fn as_u64(&self) -> (r: Option<u64>)
        ensures
            r == self.u64_of(),
    {
        match self {
            Json::Number(n) => n.as_u64(),
            _ => None,
        }
    }

    /// `Value::as_i64`.
    pub fn as_i64(&self) -> (r: Option<i64>)
        ensures
            r == self.i64_of(),
    {
        match self {
            Json::Number(n) => n.as_i64(),
            _ => None,
        }
    }

    /// `Value::is_string`.
    pub fn is_string(&self) -> (r: bool)
        ensures
            r == (self is Str),
    {
        match self {
            Json::Str(_) => true,
            _ => false,
        }
    }

    /// `Value::is_boolean`.
    pub fn is_boolean(&self) -> (r: bool)
        ensures
            r == (self is Bool),
    {
        match self {
            Json::Bool(_) => true,
            _ => false,
        }
    }
}

/// The value behind an optional reference.
pub open spec fn deref_opt(o: Option<&Json>) -> Option<Json> {
    match o {
        Some(v) => Some(*v),
        None => None,
    }
}

/// `Map::get`: the value stored under `key`.
pub fn get<'a>(fields: &'a Vec<(String, Json)>, key: &str) -> (r: Option<&'a Json>)
    ensures
        r is Some <==> lookup(fields@, key@) is Some,
        r matches Some(v) ==> lookup(fields@, key@) == Some(*v),
        deref_opt(r) == lookup(fields@, key@),
{
    let mut i: usize = 0;
    assert(fields@.skip(0) =~= fields@);
    while i < fields.len()
        invariant
            i <= fields@.len(),
            lookup(fields@, key@) == lookup(fields@.skip(i as int), key@),
        decreases fields.len() - i,
    {
        assert(fields@.skip(i as int)[0] == fields@[i as int]);
        assert(fields@.skip(i as int).drop_first() =~= fields@.skip(i + 1));
        if crate::text::str_eq(fields[i].0.as_str(), key) {
            return Some(&fields[i].1);
        }
        i += 1;
    }
    None
}

/// `Map::contains_key`.
pub fn contains_key(fields: &Vec<(String, Json)>, key: &str) -> (r: bool)
    ensures
        r == lookup(fields@, key@) is Some,
{
    get(fields, key).is_some()
}

/// The member names of an object, in order.
pub fn keys(fields: &Vec<(String, Json)>) -> (r: Vec<String>)
    ensures
        r@.map_values(|k: String| k@) == keys_of(fields@),
{
    let mut out: Vec<String> = Vec::new();
    let mut i: usize = 0;
    while i < fields.len()
        invariant
            i <= fields@.len(),
            out@.map_values(|k: String| k@) =~= keys_of(fields@).take(i as int),
        decreases fields.len() - i,
    {
        let ghost before = out@;
        let k = fields[i].0.clone();
        out.push(k);
        assert(out@.map_values(|k: String| k@) =~= before.map_values(|k: String| k@).push(
            fields@[i as int].0@,
        ));
        i += 1;
    }
    assert(keys_of(fields@).take(fields@.len() as int) =~= keys_of(fields@));
    out
}

// ---------------------------------------------------------------------------
// Parsers of the outside crates
// ---------------------------------------------------------------------------
#[verifier::external_type_specification]
#[verifier::external_body]
pub struct ExSerdeJsonValue(serde_json::Value);

/// What `serde_json::from_str::<Value>` makes of a text: the document, or the
/// error's message.
pub uninterp spec fn serde_json_document(text: Seq<char>) -> Result<Json, Seq<char>>;

/// What a serde_json `StreamDeserializer` over a text yields: the documents
/// that follow one another in it, or the message of the first error.
pub uninterp spec fn serde_json_stream(text: Seq<char>) -> Result<Seq<Json>, Seq<char>>;

/// What becomes of a YAML text: `serde_yaml::from_str::<serde_yaml::Value>`,
/// then `serde_json::to_value` of the result.
pub uninterp spec fn serde_yaml_document(text: Seq<char>) -> Converted;

/// What becomes of a TOML text: `toml::from_str::<toml::Value>`, then
/// `serde_json::to_value` of the result.
pub uninterp spec fn toml_document(text: Seq<char>) -> Converted;

/// The outcome of parsing a YAML or TOML text and converting it to JSON's
/// data model: the document, the parser's error message, or the converter's.
pub enum Converted {
    Document(Json),
    SyntaxError(Seq<char>),
    ConversionError(Seq<char>),
}

/// The result of a YAML or TOML parse, handed on to verified code.
pub enum ConvertedText {
    Document(Json),
    SyntaxError(String),
    ConversionError(String),
}

impl View for ConvertedText {
    type V = Converted;

    open spec fn view(&self) -> Converted {
        match self {
            ConvertedText::Document(j) => Converted::Document(*j),
            ConvertedText::SyntaxError(m) => Converted::SyntaxError(m@),
            ConvertedText::ConversionError(m) => Converted::ConversionError(m@),
        }
    }
}

#[verifier::external_type_specification]
#[verifier::external_body]
pub struct ExSerdeJsonNumber(serde_json::Number);

/// Turns a serde_json number into a [`JsonNumber`]: the variant that
/// `Number::as_u64`, `as_i64` or `as_f64` (as bits) reports it is stored in.
#[verifier::external_body]
fn number_of(n: &serde_json::Number) -> JsonNumber {
    match (n.as_u64(), n.as_i64()) {
        (Some(u), _) => JsonNumber::PosInt(u),
        (None, Some(i)) => JsonNumber::NegInt(i),
        (None, None) => JsonNumber::Float(n.as_f64().unwrap_or_default().to_bits()),
    }
}

/// Turns a serde_json value into the library's [`Json`], one node for one,
/// members in the order the map hands them out.
#[verifier::external_body]
fn json_of_serde(value: serde_json::Value) -> Json {
    match value {
        serde_json::Value::Null => Json::Null,
        serde_json::Value::Bool(b) => Json::Bool(b),
        serde_json::Value::Number(n) => Json::Number(number_of(&n)),
        serde_json::Value::String(s) => Json::Str(s),
        serde_json::Value::Array(v) => Json::Array(v.into_iter().map(json_of_serde).collect()),
        serde_json::Value::Object(m) => {
            Json::Object(m.into_iter().map(|(k, v)| (k, json_of_serde(v))).collect())
        },
    }
}

/// Calls `serde_json::from_str::<serde_json::Value>` on `text`; the result is
/// named [`serde_json_document`], errors by their message.
#[verifier::external_body]
pub(crate) fn parse_json_text(text: &str) -> (r: Result<Json, String>)
    ensures
        match r {
            Ok(j) => serde_json_document(text@) == Ok::<Json, Seq<char>>(j),
            Err(m) => serde_json_document(text@) == Err::<Json, Seq<char>>(m@),
        },
{
    serde_json::from_str::<serde_json::Value>(text).map(json_of_serde).map_err(|e| e.to_string())
}

/// Runs a serde_json `StreamDeserializer` over `text` and collects the
/// documents, stopping at the first error; the result is named
/// [`serde_json_stream`].
#[verifier::external_body]
pub(crate) fn parse_json_stream(text: &str) -> (r: Result<Vec<Json>, String>)
    ensures
        match r {
            Ok(v) => serde_json_stream(text@) == Ok::<Seq<Json>, Seq<char>>(v@),
            Err(m) => serde_json_stream(text@) == Err::<Seq<Json>, Seq<char>>(m@),
        },
{
    serde_json::Deserializer::from_str(text)
        .into_iter::<serde_json::Value>()
        .map(|item| item.map(json_of_serde).map_err(|e| e.to_string()))
        .collect()
}

/// Calls `serde_yaml::from_str::<serde_yaml::Value>` on `text`, then
/// `serde_json::to_value` on what it gives; the outcome is named
/// [`serde_yaml_document`].
#[verifier::external_body]
pub(crate) fn parse_yaml_text(text: &str) -> (r: ConvertedText)
    ensures
        r@ == serde_yaml_document(text@),
{
    match serde_yaml::from_str::<serde_yaml::Value>(text) {
        Err(e) => ConvertedText::SyntaxError(e.to_string()),
        Ok(v) => match serde_json::to_value(v) {
            Ok(j) => ConvertedText::Document(json_of_serde(j)),
            Err(e) => ConvertedText::ConversionError(e.to_string()),
        },
    }
}

/// Calls `toml::from_str::<toml::Value>` on `text`, then
/// `serde_json::to_value` on what it gives; the outcome is named
/// [`toml_document`].
#[verifier::external_body]
pub(crate) fn parse_toml_text(text: &str) -> (r: ConvertedText)
    ensures
        r@ == toml_document(text@),
{
    match toml::from_str::<toml::Value>(text) {
        Err(e) => ConvertedText::SyntaxError(e.to_string()),
        Ok(v) => match serde_json::to_value(v) {
            Ok(j) => ConvertedText::Document(json_of_serde(j)),
            Err(e) => ConvertedText::ConversionError(e.to_string()),
        },
    }
}

} // verus!
