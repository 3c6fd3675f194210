//! JSON values, and the reading and writing of them as text.

use crate::text::{lemma_views_push, opt_view, text_eq, views, Text};
use vstd::arithmetic::power2::*;
use vstd::prelude::*;

verus! {

/// A JSON value. An object lists its fields; where a key stands twice, the
/// later one counts.
#[derive(Debug)]
pub enum Json {
    Null,
    Bool(bool),
    PosInt(u64),
    NegInt(i64),
    /// A number that is no 64-bit integer, as it is written.
    Float(String),
    Str(String),
    Array(Vec<Json>),
    Object(Vec<(String, Json)>),
}

/// What a JSON value means: integers are integers, an object is a map.
#[verifier::ext_equal]
pub enum JsonView {
    Null,
    Bool(bool),
    Int(int),
    Float(Text),
    Str(Text),
    Array(Seq<JsonView>),
    Object(Map<Text, JsonView>),
}

pub open spec fn json_view(j: Json) -> JsonView
    decreases j,
{
    match j {
        Json::Null => JsonView::Null,
        Json::Bool(b) => JsonView::Bool(b),
        Json::PosInt(n) => JsonView::Int(n as int),
        Json::NegInt(n) => JsonView::Int(n as int),
        Json::Float(t) => JsonView::Float(t@),
        Json::Str(s) => JsonView::Str(s@),
        Json::Array(items) => JsonView::Array(
            Seq::new(
                items@.len(),
                |i: int|
                    if 0 <= i < items@.len() {
                        json_view(items@[i])
                    } else {
                        JsonView::Null
                    },
            ),
        ),
        Json::Object(fields) => JsonView::Object(fields_view(fields@)),
    }
}

/// The map that a list of fields stands for.
pub open spec fn fields_view(fields: Seq<(String, Json)>) -> Map<Text, JsonView>
    decreases fields,
{
    if fields.len() == 0 {
        Map::empty()
    } else {
        fields_view(fields.drop_last()).insert(fields.last().0@, json_view(fields.last().1))
    }
}

impl View for Json {
    type V = JsonView;

    open spec fn view(&self) -> JsonView {
        json_view(*self)
    }
}

impl Clone for Json {
    fn clone(&self) -> (r: Json)
        ensures
            r@ == self@,
        decreases self,
    {
        match self {
            Json::Null => Json::Null,
            Json::Bool(b) => Json::Bool(*b),
            Json::PosInt(n) => Json::PosInt(*n),
            Json::NegInt(n) => Json::NegInt(*n),
            Json::Float(t) => Json::Float(t.clone()),
            Json::Str(s) => Json::Str(s.clone()),
            Json::Array(items) => {
                let mut out: Vec<Json> = Vec::new();
                let mut i: usize = 0;
                while i < items.len()
                    invariant
                        i <= items@.len(),
                        *self == Json::Array(*items),
                        views(out@) == views(items@).take(i as int),
                    decreases items@.len() - i,
                {
                    let item = &items[i];
                    assert(decreases_to!(*self => self->Array_0));
                    assert(decreases_to!(self->Array_0 => self->Array_0@));
                    assert(decreases_to!(items@ => items@[i as int]));
                    let copy = item.clone();
                    assert(copy@ == items@[i as int]@);
                    let ghost before = out@;
                    out.push(copy);
                    i = i + 1;
                    proof {
                        lemma_views_push(before, copy);
                        assert(views(items@).take(i as int) =~= views(items@).take(i - 1).push(items@[i - 1]@));
                    }
                }
                let r = Json::Array(out);
                assert(r@->Array_0 =~= self@->Array_0) by {
                    assert(views(items@).take(i as int) =~= views(items@));
                    assert forall|k: int| 0 <= k < out@.len() implies out@[k]@ == items@[k]@ by {
                        assert(views(out@)[k] == views(items@)[k]);
                    }
                }
                r
            },
            Json::Object(fields) => {
                let mut out: Vec<(String, Json)> = Vec::new();
                let mut i: usize = 0;
                while i < fields.len()
                    invariant
                        i <= fields@.len(),
                        *self == Json::Object(*fields),
                        fields_view(out@) == fields_view(fields@.take(i as int)),
                    decreases fields@.len() - i,
                {
                    let field = &fields[i].1;
                    assert(decreases_to!(*self => self->Object_0));
                    assert(decreases_to!(self->Object_0 => self->Object_0@));
                    assert(decreases_to!(fields@ => fields@[i as int]));
                    assert(decreases_to!(fields@[i as int] => fields@[i as int].1));
                    let copy = field.clone();
                    let ghost before = out@;
                    out.push((fields[i].0.clone(), copy));
                    i = i + 1;
                    assert(out@.drop_last() =~= before);
                    assert(fields@.take(i as int).drop_last() =~= fields@.take(i - 1));
                }
                assert(fields@.take(i as int) =~= fields@);
                Json::Object(out)
            },
        }
    }
}

/// The field `key` of an object.
pub open spec fn field(v: JsonView, key: Text) -> Option<JsonView> {
    match v {
        JsonView::Object(m) => if m.contains_key(key) {
            Some(m[key])
        } else {
            None
        },
        _ => None,
    }
}

/// The text of a string.
pub open spec fn text_of(v: JsonView) -> Option<Text> {
    match v {
        JsonView::Str(s) => Some(s),
        _ => None,
    }
}

/// The value of an integer from 0 up to the largest of 64 bits.
pub open spec fn nat_of(v: JsonView) -> Option<u64> {
    match v {
        JsonView::Int(n) => if 0 <= n <= u64::MAX {
            Some(n as u64)
        } else {
            None
        },
        _ => None,
    }
}

/// The text of the string under `key`.
pub open spec fn text_at(v: JsonView, key: Text) -> Option<Text> {
    match field(v, key) {
        Some(f) => text_of(f),
        None => None,
    }
}

/// The integer under `key`.
pub open spec fn nat_at(v: JsonView, key: Text) -> Option<u64> {
    match field(v, key) {
        Some(f) => nat_of(f),
        None => None,
    }
}

/// The value under `key`, or `null`.
pub open spec fn field_or_null(v: JsonView, key: Text) -> JsonView {
    match field(v, key) {
        Some(f) => f,
        None => JsonView::Null,
    }
}

pub open spec fn or_empty(t: Option<Text>) -> Text {
    match t {
        Some(t) => t,
        None => Seq::empty(),
    }
}

impl Json {
    /// The field `key` of an object.
    pub fn get(&self, key: &str) -> (r: Option<&Json>)
        ensures
            match r {
                Some(j) => field(self@, key@) == Some(j@),
                None => field(self@, key@) is None,
            },
    {
        match self {
            Json::Object(fields) => {
                let mut i: usize = fields.len();
                assert(fields@.take(i as int) =~= fields@);
                while i > 0
                    invariant
                        i <= fields@.len(),
                        self@ == JsonView::Object(fields_view(fields@)),
                        fields_view(fields@).contains_key(key@) == fields_view(
                            fields@.take(i as int),
                        ).contains_key(key@),
                        fields_view(fields@.take(i as int)).contains_key(key@) ==> fields_view(
                            fields@,
                        )[key@] == fields_view(fields@.take(i as int))[key@],
                    decreases i,
                {
                    assert(fields@.take(i as int).drop_last() =~= fields@.take(i - 1));
                    if text_eq(&fields[i - 1].0, key) {
                        return Some(&fields[i - 1].1);
                    }
                    i = i - 1;
                }
                None
            },
            _ => None,
        }
    }

    /// The text of a string.
    pub fn as_str(&self) -> (r: Option<&str>)
        ensures
            match r {
                Some(s) => text_of(self@) == Some(s@),
                None => text_of(self@) is None,
            },
    {
        match self {
            Json::Str(s) => Some(s.as_str()),
            _ => None,
        }
    }

    /// The value of an integer that is not negative.
    pub fn as_u64(&self) -> (r: Option<u64>)
        ensures
            r == nat_of(self@),
    {
        match self {
            Json::PosInt(n) => Some(*n),
            Json::NegInt(n) => if *n >= 0 {
                Some(*n as u64)
            } else {
                None
            },
            _ => None,
        }
    }

    /// The items of an array.
    pub fn as_array(&self) -> (r: Option<&Vec<Json>>)
        ensures
            match r {
                Some(items) => self@ == JsonView::Array(views(items@)),
                None => !(self@ is Array),
            },
    {
        match self {
            Json::Array(items) => {
                assert(self@->Array_0 =~= views(items@));
                Some(items)
            },
            _ => None,
        }
    }

    /// The text of the string under `key`.
    pub fn str_at(&self, key: &str) -> (r: Option<&str>)
        ensures
            match r {
                Some(s) => text_at(self@, key@) == Some(s@),
                None => text_at(self@, key@) is None,
            },
    {
        match self.get(key) {
            Some(j) => j.as_str(),
            None => None,
        }
    }

    /// The text of the string under `key`, or an empty text.
    pub fn string_at(&self, key: &str) -> (r: String)
        ensures
            r@ == or_empty(text_at(self@, key@)),
    {
        match self.str_at(key) {
            Some(s) => s.to_string(),
            None => String::new(),
        }
    }

    /// The text of the string under `key`, if there is one.
    pub fn opt_string_at(&self, key: &str) -> (r: Option<String>)
        ensures
            opt_view(r) == text_at(self@, key@),
    {
        match self.str_at(key) {
            Some(s) => Some(s.to_string()),
            None => None,
        }
    }

    /// The integer under `key`.
    pub fn u64_at(&self, key: &str) -> (r: Option<u64>)
        ensures
            r == nat_at(self@, key@),
    {
        match self.get(key) {
            Some(j) => j.as_u64(),
            None => None,
        }
    }

    /// Whether the object says that it has type `t`.
    pub fn has_type(&self, t: &str) -> (r: bool)
        ensures
            r == (text_at(self@, "type"@) == Some(t@)),
    {
        match self.str_at("type") {
            Some(s) => text_eq(s, t),
            None => false,
        }
    }

    /// A copy of the value under `key`, or `null`.
    pub fn value_at(&self, key: &str) -> (r: Json)
        ensures
            r@ == field_or_null(self@, key@),
    {
        match self.get(key) {
            Some(j) => j.clone(),
            None => Json::Null,
        }
    }
}

/// A JSON string.
pub fn string(s: &str) -> (r: Json)
    ensures
        r@ == JsonView::Str(s@),
{
    Json::Str(s.to_string())
}

/// A JSON integer.
pub fn integer(n: i64) -> (r: Json)
    ensures
        r@ == JsonView::Int(n as int),
{
    if n < 0 {
        Json::NegInt(n)
    } else {
        Json::PosInt(n as u64)
    }
}

/// A JSON array.
pub fn array(items: Vec<Json>) -> (r: Json)
    ensures
        r@ == JsonView::Array(views(items@)),
{
    let r = Json::Array(items);
    assert(r@->Array_0 =~= views(items@));
    r
}

/// An object without fields.
pub fn empty_object() -> (r: Json)
    ensures
        r@ == JsonView::Object(Map::empty()),
{
    let fields: Vec<(String, Json)> = Vec::new();
    assert(fields_view(fields@) == Map::<Text, JsonView>::empty());
    Json::Object(fields)
}

/// The object with one more field, or with that field replaced.
pub fn with_field(object: Json, key: &str, value: Json) -> (r: Json)
    requires
        object@ is Object,
    ensures
        r@ == JsonView::Object(object@->Object_0.insert(key@, value@)),
{
    match object {
        Json::Object(fields) => {
            let mut fields = fields;
            let ghost before = fields@;
            fields.push((key.to_string(), value));
            assert(fields@.drop_last() =~= before);
            assert(fields_view(fields@) == fields_view(before).insert(key@, value@));
            Json::Object(fields)
        },
        other => other,
    }
}

#[verifier::external_type_specification]
#[verifier::external_body]
pub struct ExValue(serde_json::Value);

/// What `serde_json` reads in a text: a value, or the error it reports.
pub uninterp spec fn json_parse(text: Seq<char>) -> Result<JsonView, Seq<char>>;

/// The compact text that `serde_json` writes for a value.
pub uninterp spec fn json_text(value: JsonView) -> Seq<char>;

/// The indented text that `serde_json` writes for a value.
pub uninterp spec fn json_pretty(value: JsonView) -> Seq<char>;

/// The bits of the IEEE double that a decimal text stands for.
pub uninterp spec fn double_bits(text: Seq<char>) -> u64;

/// Whether `value` is what is read in `text`.
pub open spec fn reads_as(text: Text, value: JsonView) -> bool {
    json_parse(text) == Ok::<JsonView, Text>(value)
}

/// Whether a value comes back unchanged when its text is read: it holds no
/// fractional number, its integers fit in 64 bits, and arrays and objects nest
/// at most `depth` deep.
pub open spec fn readable(v: JsonView, depth: nat) -> bool
    decreases depth,
{
    match v {
        JsonView::Float(_) => false,
        JsonView::Int(n) => i64::MIN <= n <= u64::MAX,
        JsonView::Array(items) => depth > 0 && forall|i: int|
            0 <= i < items.len() ==> readable(#[trigger] items[i], (depth - 1) as nat),
        JsonView::Object(m) => depth > 0 && forall|k: Text| #[trigger]
            m.contains_key(k) ==> readable(m[k], (depth - 1) as nat),
        _ => true,
    }
}

/// Whether `v` is `w` down to some depth, but for fractional numbers, which may be
/// written otherwise or not at all.
pub open spec fn agrees(v: JsonView, w: JsonView, depth: nat) -> bool
    decreases depth,
{
    depth > 0 ==> match w {
        JsonView::Float(_) => v is Float || v is Null,
        JsonView::Array(ws) => v matches JsonView::Array(vs) && vs.len() == ws.len() && forall|i: int|
            0 <= i < ws.len() ==> agrees(#[trigger] vs[i], ws[i], (depth - 1) as nat),
        JsonView::Object(wm) => v matches JsonView::Object(vm) && vm.dom() == wm.dom()
            && forall|k: Text| #[trigger]
            wm.contains_key(k) ==> agrees(vm[k], wm[k], (depth - 1) as nat),
        _ => v == w,
    }
}

/// How deep `serde_json` lets arrays and objects nest when it reads a text.
pub const READ_DEPTH: u64 = 127;

/// A `serde_json::Value` as a `Json`, variant for variant.
#[verifier::external_body]
fn json_of(value: serde_json::Value) -> (r: Json) {
    match value {
        serde_json::Value::Null => Json::Null,
        serde_json::Value::Bool(b) => Json::Bool(b),
        serde_json::Value::Number(n) => match (n.as_u64(), n.as_i64()) {
            (Some(u), _) => Json::PosInt(u),
            (None, Some(i)) => Json::NegInt(i),
            (None, None) => Json::Float(n.to_string()),
        },
        serde_json::Value::String(s) => Json::Str(s),
        serde_json::Value::Array(items) => Json::Array(items.into_iter().map(json_of).collect()),
        serde_json::Value::Object(m) => Json::Object(m.into_iter().map(|(k, v)| (k, json_of(v))).collect()),
    }
}

/// A `Json` as a `serde_json::Value`, variant for variant.
#[verifier::external_body]
fn value_of(json: &Json) -> (r: serde_json::Value) {
    match json {
        Json::Null => serde_json::Value::Null,
        Json::Bool(b) => serde_json::Value::Bool(*b),
        Json::PosInt(n) => serde_json::Value::from(*n),
        Json::NegInt(n) => serde_json::Value::from(*n),
        Json::Float(t) => serde_json::Value::from(serde_json::Number::from_f64(t.parse().unwrap_or_default())),
        Json::Str(s) => serde_json::Value::String(s.clone()),
        Json::Array(items) => serde_json::Value::Array(items.iter().map(value_of).collect()),
        Json::Object(m) => serde_json::Value::Object(m.iter().map(|(k, v)| (k.clone(), value_of(v))).collect()),
    }
}

/// `serde_json::from_str` into a `serde_json::Value`: what comes back, value or
/// error message, depends on the text alone.
#[verifier::external_body]
fn read_value(text: &str) -> (r: Result<Json, String>)
    ensures
        match r {
            Ok(j) => json_parse(text@) matches Ok(v) && v == j@,
            Err(e) => json_parse(text@) matches Err(m) && m == e@,
        },
{
    serde_json::from_str(text).map(json_of).map_err(|e: serde_json::Error| e.to_string())
}

/// `serde_json::to_string` of a `serde_json::Value`: the text depends on the
/// value alone and is one line, since line breaks inside strings are escaped;
/// `serde_json::from_str` reads a value without fractional numbers back from it,
/// as long as the nesting stays below the reader's limit. Whatever the value, what is
/// read there is either an error or the same value but for fractional numbers. A line
/// feed behind the text is passed over.
#[verifier::external_body]
fn write_value(json: &Json) -> (r: String)
    ensures
        r@ == json_text(json@),
        !r@.contains('\n'),
        readable(json@, READ_DEPTH as nat) ==> reads_as(r@, json@),
        readable(json@, READ_DEPTH as nat) ==> reads_as(r@.push('\n'), json@),
        json_parse(r@.push('\n')) matches Ok(v) ==> agrees(v, json@, READ_DEPTH as nat),
{
    serde_json::to_string(&value_of(json)).unwrap_or_default()
}

/// `serde_json::to_string_pretty` of a `serde_json::Value`: the text depends on the
/// value alone; `serde_json::from_str` reads a value without fractional numbers back
/// from it, as long as the nesting stays below the reader's limit.
#[verifier::external_body]
fn write_pretty(json: &Json) -> (r: String)
    ensures
        r@ == json_pretty(json@),
        readable(json@, READ_DEPTH as nat) ==> reads_as(r@, json@),
{
    serde_json::to_string_pretty(&value_of(json)).unwrap_or_default()
}

/// `str::parse` to an IEEE double, held by a `serde_json::Number`, and its
/// `to_bits`: the bits depend on the text alone.
#[verifier::external_body]
fn read_double(text: &str) -> (r: u64)
    ensures
        r == double_bits(text@),
{
    serde_json::Number::from_f64(text.parse().unwrap_or_default()).and_then(|n| n.as_f64()).unwrap_or_default().to_bits()
}

/// Reads a JSON text.
pub fn parse_json(text: &str) -> (r: Result<Json, String>)
    ensures
        match r {
            Ok(j) => json_parse(text@) matches Ok(v) && v == j@,
            Err(e) => json_parse(text@) matches Err(m) && m == e@,
        },
{
    read_value(text)
}

/// Writes a JSON value as indented text.
pub fn pretty_json(json: &Json) -> (r: String)
    ensures
        r@ == json_pretty(json@),
        readable(json@, READ_DEPTH as nat) ==> reads_as(r@, json@),
{
    write_pretty(json)
}

/// Writes a JSON value as one line of text.
pub fn json_string(json: &Json) -> (r: String)
    ensures
        r@ == json_text(json@),
        !r@.contains('\n'),
        readable(json@, READ_DEPTH as nat) ==> reads_as(r@, json@),
        readable(json@, READ_DEPTH as nat) ==> reads_as(r@.push('\n'), json@),
        json_parse(r@.push('\n')) matches Ok(v) ==> agrees(v, json@, READ_DEPTH as nat),
{
    write_value(json)
}

/// What is read in a text, or `otherwise` where it is no JSON.
pub open spec fn parse_or(text: Text, otherwise: JsonView) -> JsonView {
    match json_parse(text) {
        Ok(v) => v,
        Err(_) => otherwise,
    }
}

/// The significand of the IEEE double with these bits.
pub open spec fn significand(bits: u64) -> int {
    let low = (bits % 0x10_0000_0000_0000) as int;
    if exponent_field(bits) == 0 {
        low
    } else {
        low + 0x10_0000_0000_0000
    }
}

/// The exponent field of the IEEE double with these bits.
pub open spec fn exponent_field(bits: u64) -> int {
    ((bits / 0x10_0000_0000_0000) % 2048) as int
}

/// The power of two by which the significand is scaled.
pub open spec fn scale(bits: u64) -> int {
    (if exponent_field(bits) == 0 {
        1
    } else {
        exponent_field(bits)
    }) - 1075
}

/// The double with these bits, rounded to the nearest whole number (a half goes
/// up) and held between 0 and the largest integer of 64 bits; 0 for a NaN.
pub open spec fn rounded_double(bits: u64) -> u64 {
    if bits >= 0x8000_0000_0000_0000 {
        0
    } else if exponent_field(bits) == 2047 {
        if bits % 0x10_0000_0000_0000 == 0 {
            u64::MAX
        } else {
            0
        }
    } else if scale(bits) >= 0 {
        let v = significand(bits) * pow2(scale(bits) as nat);
        if v > u64::MAX {
            u64::MAX
        } else {
            v as u64
        }
    } else {
        let unit = pow2((-scale(bits)) as nat) as int;
        ((2 * significand(bits) + unit) / (2 * unit)) as u64
    }
}

fn power_of_two(n: u64) -> (r: u64)
    requires
        n < 64,
    ensures
        r == pow2(n as nat),
        r >= 1,
{
    let mut r: u64 = 1;
    let mut i: u64 = 0;
    proof {
        lemma2_to64();
        lemma2_to64_rest();
    }
    while i < n
        invariant
            i <= n < 64,
            r == pow2(i as nat),
            r >= 1,
            pow2(63) == 0x8000_0000_0000_0000,
        decreases n - i,
    {
        proof {
            lemma_pow2_unfold((i + 1) as nat);
            if i + 1 < 63 {
                lemma_pow2_strictly_increases((i + 1) as nat, 63);
            }
        }
        r = r * 2;
        i = i + 1;
    }
    r
}

/// The double with these bits as a whole number.
pub fn round_double(bits: u64) -> (r: u64)
    ensures
        r == rounded_double(bits),
{
    if bits >= 0x8000_0000_0000_0000 {
        return 0;
    }
    let low: u64 = bits % 0x10_0000_0000_0000;
    let exp: u64 = (bits / 0x10_0000_0000_0000) % 2048;
    if exp == 2047 {
        return if low == 0 {
            u64::MAX
        } else {
            0
        };
    }
    let m: u64 = if exp == 0 {
        low
    } else {
        low + 0x10_0000_0000_0000
    };
    let e: u64 = if exp == 0 {
        1
    } else {
        exp
    };
    proof {
        lemma2_to64();
        lemma2_to64_rest();
    }
    if e >= 1075 {
        let k: u64 = e - 1075;
        if k >= 12 {
            proof {
                if k > 12 {
                    lemma_pow2_strictly_increases(12, k as nat);
                }
                assert(m * pow2(k as nat) > u64::MAX) by (nonlinear_arith)
                    requires
                        m >= 0x10_0000_0000_0000,
                        pow2(k as nat) >= 0x1000,
                ;
            }
            return u64::MAX;
        }
        let p: u64 = power_of_two(k);
        proof {
            if k < 11 {
                lemma_pow2_strictly_increases(k as nat, 11);
            }
            assert(m * p <= u64::MAX) by (nonlinear_arith)
                requires
                    m < 0x20_0000_0000_0000,
                    p <= 0x800,
            ;
        }
        m * p
    } else {
        let j: u64 = 1075 - e;
        if j >= 54 {
            proof {
                if j > 54 {
                    lemma_pow2_strictly_increases(54, j as nat);
                }
                let unit = pow2(j as nat) as int;
                assert((2 * m + unit) / (2 * unit) == 0) by (nonlinear_arith)
                    requires
                        m < 0x20_0000_0000_0000,
                        unit >= 0x40_0000_0000_0000,
                ;
            }
            return 0;
        }
        let unit: u64 = power_of_two(j);
        proof {
            if j < 53 {
                lemma_pow2_strictly_increases(j as nat, 53);
            }
        }
        (2 * m + unit) / (2 * unit)
    }
}

/// The number that a JSON value holds, rounded to a whole number of at least 0.
pub open spec fn whole_of(v: JsonView) -> Option<u64> {
    match v {
        JsonView::Int(n) => Some(
            if n < 0 {
                0
            } else if n > u64::MAX {
                u64::MAX
            } else {
                n as u64
            },
        ),
        JsonView::Float(t) => Some(rounded_double(double_bits(t))),
        _ => None,
    }
}

impl Json {
    /// The number held, rounded to a whole number of at least 0.
    pub fn as_whole(&self) -> (r: Option<u64>)
        ensures
            r == whole_of(self@),
    {
        match self {
            Json::PosInt(n) => Some(*n),
            Json::NegInt(n) => Some(
                if *n < 0 {
                    0
                } else {
                    *n as u64
                },
            ),
            Json::Float(t) => Some(round_double(read_double(t))),
            _ => None,
        }
    }
}

} // verus!
