//! A model of JSON values as `serde_json` holds them, with equality, lookup,
//! parsing and printing.

use vstd::prelude::*;
use crate::text::text_eq;

verus! {

#[verifier::external_type_specification]
#[verifier::external_body]
pub struct ExSerdeJsonNumber(serde_json::Number);

#[verifier::external_type_specification]
#[verifier::external_body]
pub struct ExSerdeJsonValue(serde_json::Value);

#[verifier::external_type_specification]
#[verifier::external_body]
pub struct ExSerdeJsonError(serde_json::Error);

#[verifier::external_type_specification]
#[verifier::external_body]
pub struct ExSerdeYamlNumber(serde_yaml::Number);

#[verifier::external_type_specification]
#[verifier::external_body]
pub struct ExSerdeYamlValue(serde_yaml::Value);

#[verifier::external_type_specification]
#[verifier::external_body]
pub struct ExSerdeYamlTag(serde_yaml::value::Tag);

/// The name of whether `serde_json::Number::is_f64` holds of `n`: whether the
/// number holds a float rather than an integer.
pub uninterp spec fn json_number_is_float(n: serde_json::Number) -> bool;

/// The name of the text that `serde_json::Number`'s `Display` prints for `n`.
pub uninterp spec fn json_number_text(n: serde_json::Number) -> Seq<char>;

/// A floating-point JSON number, together with the text that `serde_json`
/// prints for it (its shortest round-trip decimal notation).
#[derive(Debug)]
pub struct JsonFloat {
    text: String,
    number: serde_json::Number,
}

impl JsonFloat {
    /// The number holds a float, and the text is what `serde_json` prints
    /// for it.
    #[verifier::type_invariant]
    spec fn inv(self) -> bool {
        &&& json_number_is_float(self.number)
        &&& self.text@ == json_number_text(self.number)
    }

    /// The text that `serde_json` prints for this number.
    pub closed spec fn text_view(self) -> Seq<char> {
        self.text@
    }

    /// The number itself.
    pub closed spec fn number_view(self) -> serde_json::Number {
        self.number
    }

    /// The text that `serde_json` prints for this number.
    pub fn text(&self) -> (res: &String)
        ensures
            res@ == self.text_view(),
            res@ == json_number_text(self.number_view()),
    {
        proof {
            use_type_invariant(self);
        }
        &self.text
    }

    /// The number itself, which holds a float.
    pub fn number(&self) -> (res: &serde_json::Number)
        ensures
            *res == self.number_view(),
            json_number_is_float(*res),
    {
        proof {
            use_type_invariant(self);
        }
        &self.number
    }

    /// The float that `n` holds, with its printed text; `None` when `n`
    /// holds an integer. Whether `n` holds a float, and its text, are what
    /// `serde_json` answers; what is made of each answer is `float_of`'s.
    pub fn from_number(n: serde_json::Number) -> (res: Option<JsonFloat>)
        ensures
            res is Some <==> json_number_is_float(n),
            res matches Some(f) ==> f.number_view() == n && f.text_view() == json_number_text(n),
    {
        let is_float = number_is_float(&n);
        let text = number_text(&n);
        JsonFloat::float_of(is_float, text, n)
    }

    /// The float made of number `n` and its printed `text`, when `serde_json`
    /// answered that `n` holds a float (`is_float`); `None` otherwise.
    fn float_of(is_float: bool, text: String, n: serde_json::Number) -> (res: Option<JsonFloat>)
        requires
            is_float == json_number_is_float(n),
            text@ == json_number_text(n),
        ensures
            res is Some <==> is_float,
            res matches Some(f) ==> f.number_view() == n && f.text_view() == text@,
    {
        if is_float {
            Some(JsonFloat { text, number: n })
        } else {
            None
        }
    }
}

/// Whether `n` holds a float rather than an integer
/// (`serde_json::Number::is_f64`): the named answer.
#[verifier::external_body]
fn number_is_float(n: &serde_json::Number) -> (res: bool)
    ensures
        res == json_number_is_float(*n),
{
    n.is_f64()
}

/// The text that `serde_json` prints for `n` (`Number`'s `Display`): the
/// named text.
#[verifier::external_body]
fn number_text(n: &serde_json::Number) -> (res: String)
    ensures
        res@ == json_number_text(*n),
{
    n.to_string()
}

/// A JSON number: a non-negative integer, a negative integer or a float.
#[derive(Debug)]
pub enum JsonNumber {
    PosInt(u64),
    NegInt(i64),
    Float(JsonFloat),
}

/// A JSON value. An object lists its members in order; when a key occurs more
/// than once, the last member with that key is the one that counts, as when
/// the members are inserted one by one into a `serde_json::Map`.
#[derive(Debug)]
pub enum JsonValue {
    Null,
    Bool(bool),
    Number(JsonNumber),
    String(String),
    Array(Vec<JsonValue>),
    Object(Vec<(String, JsonValue)>),
}

/// A JSON number as the specification sees it.
pub enum NumberView {
    PosInt(u64),
    NegInt(i64),
    /// A float, by the text that `serde_json` prints for it.
    Float(Seq<char>),
}

/// A member of an object as the specification sees it.
pub struct MemberView {
    pub key: Seq<char>,
    pub value: JsonView,
}

/// A JSON value as the specification sees it.
pub enum JsonView {
    Null,
    Bool(bool),
    Number(NumberView),
    String(Seq<char>),
    Array(Seq<JsonView>),
    Object(Seq<MemberView>),
}

impl JsonNumber {
    /// The number as the specification sees it.
    pub open spec fn view(self) -> NumberView {
        match self {
            JsonNumber::PosInt(u) => NumberView::PosInt(u),
            JsonNumber::NegInt(i) => NumberView::NegInt(i),
            JsonNumber::Float(f) => NumberView::Float(f.text_view()),
        }
    }
}

/// The members of an object as the specification sees them.
pub open spec fn members_view(es: Seq<(String, JsonValue)>) -> Seq<MemberView> {
    Seq::new(es.len(), |i: int| MemberView { key: es[i].0@, value: json_view(es[i].1) })
}

/// A JSON value as the specification sees it.
pub open spec fn json_view(v: JsonValue) -> JsonView
    decreases v,
{
    match v {
        JsonValue::Null => JsonView::Null,
        JsonValue::Bool(b) => JsonView::Bool(b),
        JsonValue::Number(n) => JsonView::Number(n.view()),
        JsonValue::String(s) => JsonView::String(s@),
        JsonValue::Array(xs) => JsonView::Array(
            Seq::new(
                xs@.len(),
                |i: int|
                    if 0 <= i < xs@.len() {
                        json_view(xs@[i])
                    } else {
                        JsonView::Null
                    },
            ),
        ),
        JsonValue::Object(es) => JsonView::Object(
            Seq::new(
                es@.len(),
                |i: int|
                    if 0 <= i < es@.len() {
                        MemberView { key: es@[i].0@, value: json_view(es@[i].1) }
                    } else {
                        MemberView { key: Seq::empty(), value: JsonView::Null }
                    },
            ),
        ),
    }
}

/// The view of an array holds the views of its elements.
pub proof fn lemma_array_view(v: JsonValue)
    requires
        v is Array,
    ensures
        v@ == JsonView::Array(Seq::new(v->Array_0@.len(), |i: int| json_view(v->Array_0@[i]))),
{
    let xs = v->Array_0;
    if let JsonView::Array(z) = v@ {
        assert(z =~= Seq::new(xs@.len(), |i: int| json_view(xs@[i])));
    }
}

/// The view of an object holds the views of its members.
pub proof fn lemma_object_view(v: JsonValue)
    requires
        v is Object,
    ensures
        v@ == JsonView::Object(members_view(v->Object_0@)),
{
    let es = v->Object_0;
    if let JsonView::Object(z) = v@ {
        assert(z =~= members_view(es@));
    }
}

impl View for JsonValue {
    type V = JsonView;

    open spec fn view(&self) -> JsonView {
        json_view(*self)
    }
}

/// The texts that denote a zero float.
pub open spec fn is_zero_text(t: Seq<char>) -> bool {
    t == seq!['0', '.', '0'] || t == seq!['-', '0', '.', '0']
}

/// The value of an integer number.
pub open spec fn int_value(n: NumberView) -> int {
    match n {
        NumberView::PosInt(u) => u as int,
        NumberView::NegInt(i) => i as int,
        NumberView::Float(_) => 0,
    }
}

/// Equality of JSON numbers: integers by value, floats by value (their
/// shortest notations agree, or both are zero); an integer never equals a float.
pub open spec fn number_eq(a: NumberView, b: NumberView) -> bool {
    match (a, b) {
        (NumberView::Float(x), NumberView::Float(y)) => x == y || (is_zero_text(x) && is_zero_text(y)),
        (NumberView::Float(_), _) => false,
        (_, NumberView::Float(_)) => false,
        _ => int_value(a) == int_value(b),
    }
}

/// The position of the member that counts for key `k` (the last one with
/// that key), or -1 when there is none.
pub open spec fn member_index(es: Seq<MemberView>, k: Seq<char>) -> int
    decreases es.len(),
{
    if es.len() == 0 {
        -1
    } else if es.last().key == k {
        es.len() - 1
    } else {
        member_index(es.drop_last(), k)
    }
}

/// Equality of JSON values: arrays element by element, objects as maps from
/// keys to values.
pub open spec fn json_eq(a: JsonView, b: JsonView) -> bool
    decreases a,
{
    match a {
        JsonView::Null => b is Null,
        JsonView::Bool(x) => b matches JsonView::Bool(y) && x == y,
        JsonView::Number(x) => b matches JsonView::Number(y) && number_eq(x, y),
        JsonView::String(x) => b matches JsonView::String(y) && x == y,
        JsonView::Array(xs) => b matches JsonView::Array(ys) && xs.len() == ys.len() && forall|i: int|
            0 <= i < xs.len() ==> json_eq(#[trigger] xs[i], ys[i]),
        JsonView::Object(es) => match b {
            JsonView::Object(fs) => (forall|j: int|
                0 <= j < fs.len() ==> member_index(es, #[trigger] fs[j].key) >= 0) && (forall|i: int|
                0 <= i < es.len() ==> member_index(fs, #[trigger] es[i].key) >= 0 && (i == member_index(
                es, es[i].key) ==> json_eq(es[i].value, fs[member_index(fs, es[i].key)].value))),
            _ => false,
        },
    }
}

/// The value of the member with key `k` of an object (the one that counts);
/// `None` for other values or when there is no such member.
pub open spec fn json_get(v: JsonView, k: Seq<char>) -> Option<JsonView> {
    match v {
        JsonView::Object(es) => if member_index(es, k) >= 0 {
            Some(es[member_index(es, k)].value)
        } else {
            None
        },
        _ => None,
    }
}

/// Two objects are equal when each key of either is present in the other,
/// and each member that counts has a value equal to the other's.
pub proof fn lemma_object_eq(es: Seq<MemberView>, fs: Seq<MemberView>)
    ensures
        json_eq(JsonView::Object(es), JsonView::Object(fs)) <==> ((forall|j: int|
            0 <= j < fs.len() ==> member_index(es, #[trigger] fs[j].key) >= 0) && (forall|i: int|
            0 <= i < es.len() ==> member_index(fs, #[trigger] es[i].key) >= 0 && (i == member_index(
            es, es[i].key) ==> json_eq(es[i].value, fs[member_index(fs, es[i].key)].value)))),
{
}

/// An optional value as the specification sees it.
pub open spec fn opt_view(o: Option<JsonValue>) -> Option<JsonView> {
    match o {
        Some(v) => Some(v@),
        None => None,
    }
}

/// Whether `t` is one of the texts of a zero float.
fn is_zero_float_text(t: &str) -> (res: bool)
    ensures
        res == is_zero_text(t@),
{
    proof {
        reveal_strlit("0.0");
        reveal_strlit("-0.0");
    }
    let z = "0.0";
    let nz = "-0.0";
    proof {
        assert(z@ == seq!['0', '.', '0']);
        assert(nz@ == seq!['-', '0', '.', '0']);
    }
    text_eq(t, z) || text_eq(t, nz)
}

/// Equality of JSON numbers, as `serde_json` compares them.
pub fn number_equal(a: &JsonNumber, b: &JsonNumber) -> (res: bool)
    ensures
        res == number_eq(a.view(), b.view()),
{
    match (a, b) {
        (JsonNumber::Float(x), JsonNumber::Float(y)) => {
            text_eq(x.text().as_str(), y.text().as_str()) || (is_zero_float_text(x.text().as_str())
                && is_zero_float_text(y.text().as_str()))
        },
        (JsonNumber::Float(_), _) => false,
        (_, JsonNumber::Float(_)) => false,
        (JsonNumber::PosInt(x), JsonNumber::PosInt(y)) => *x == *y,
        (JsonNumber::NegInt(x), JsonNumber::NegInt(y)) => *x == *y,
        (JsonNumber::PosInt(x), JsonNumber::NegInt(y)) => *y >= 0 && (*y as u64) == *x,
        (JsonNumber::NegInt(x), JsonNumber::PosInt(y)) => *x >= 0 && (*x as u64) == *y,
    }
}

/// The position of the member that counts for key `k`: the last member with
/// that key.
pub fn member_position(es: &Vec<(String, JsonValue)>, k: &String) -> (res: Option<usize>)
    ensures
        match res {
            Some(i) => i == member_index(members_view(es@), k@) && i < es@.len() && es@[i as int].0@ == k@,
            None => member_index(members_view(es@), k@) == -1,
        },
{
    let ghost ms = members_view(es@);
    let mut n: usize = es.len();
    assert(ms.take(n as int) =~= ms);
    while n > 0
        invariant
            n <= es.len(),
            ms == members_view(es@),
            member_index(ms, k@) == member_index(ms.take(n as int), k@),
        decreases n,
    {
        assert(ms.take(n as int).drop_last() =~= ms.take(n - 1));
        if es[n - 1].0 == *k {
            return Some(n - 1);
        }
        n -= 1;
    }
    None
}

/// Equality of JSON values, as `serde_json` compares them: arrays element by
/// element, objects as maps from keys to values.
#[verifier::loop_isolation(false)]
pub fn json_equal(a: &JsonValue, b: &JsonValue) -> (res: bool)
    ensures
        res == json_eq(a@, b@),
    decreases a,
{
    match a {
        JsonValue::Null => matches!(b, JsonValue::Null),
        JsonValue::Bool(x) => match b {
            JsonValue::Bool(y) => *x == *y,
            _ => false,
        },
        JsonValue::Number(x) => match b {
            JsonValue::Number(y) => number_equal(x, y),
            _ => false,
        },
        JsonValue::String(x) => match b {
            JsonValue::String(y) => *x == *y,
            _ => false,
        },
        JsonValue::Array(xs) => match b {
            JsonValue::Array(ys) => {
                let ghost xv = Seq::new(xs@.len(), |q: int| json_view(xs@[q]));
                let ghost yv = Seq::new(ys@.len(), |q: int| json_view(ys@[q]));
                proof {
                    lemma_array_view(*a);
                    lemma_array_view(*b);
                }
                if xs.len() != ys.len() {
                    return false;
                }
                let mut i: usize = 0;
                while i < xs.len()
                    invariant
                        xs.len() == ys.len(),
                        i <= xs.len(),
                        forall|k: int| 0 <= k < i ==> json_eq(#[trigger] xv[k], yv[k]),
                    decreases xs.len() - i,
                {
                    proof {
                        vstd::std_specs::vec::axiom_vec_index_decreases(*xs, i as int);
                    }
                    if !json_equal(&xs[i], &ys[i]) {
                        assert(!json_eq(xv[i as int], yv[i as int]));
                        return false;
                    }
                    i += 1;
                }
                true
            },
            _ => false,
        },
        JsonValue::Object(es) => match b {
            JsonValue::Object(fs) => {
                let ghost ev = members_view(es@);
                let ghost fv = members_view(fs@);
                proof {
                    lemma_object_view(*a);
                    lemma_object_view(*b);
                    lemma_object_eq(ev, fv);
                }
                let mut j: usize = 0;
                while j < fs.len()
                    invariant
                        j <= fs.len(),
                        forall|q: int| 0 <= q < j ==> member_index(ev, #[trigger] fv[q].key) >= 0,
                    decreases fs.len() - j,
                {
                    if member_position(es, &fs[j].0).is_none() {
                        assert(member_index(ev, fv[j as int].key) < 0);
                        return false;
                    }
                    j += 1;
                }
                let mut i: usize = 0;
                while i < es.len()
                    invariant
                        i <= es.len(),
                        forall|q: int|
                            0 <= q < i ==> member_index(fv, #[trigger] ev[q].key) >= 0 && (q
                                == member_index(ev, ev[q].key) ==> json_eq(
                                ev[q].value,
                                fv[member_index(fv, ev[q].key)].value,
                            )),
                    decreases es.len() - i,
                {
                    match member_position(fs, &es[i].0) {
                        None => {
                            assert(ev.len() == es@.len());
                            assert(member_index(fv, ev[i as int].key) < 0);
                            assert(!json_eq(a@, b@));
                            return false;
                        },
                        Some(p) => {
                            match member_position(es, &es[i].0) {
                                Some(own) => {
                                    if own == i {
                                        proof {
                                            vstd::std_specs::vec::axiom_vec_index_decreases(*es, i as int);
                                        }
                                        if !json_equal(&es[i].1, &fs[p].1) {
                                            assert(ev.len() == es@.len());
                                            assert(i == member_index(ev, ev[i as int].key));
                                            assert(p == member_index(fv, ev[i as int].key));
                                            assert(!json_eq(ev[i as int].value, fv[p as int].value));
                                            assert(!json_eq(a@, b@));
                                            return false;
                                        }
                                    }
                                },
                                None => {},
                            }
                        },
                    }
                    i += 1;
                }
                true
            },
            _ => false,
        },
    }
}

impl JsonValue {
    /// The value of member `key` of an object (the last member with that
    /// key); `None` for other values or when there is no such member.
    pub fn get(&self, key: &String) -> (res: Option<&JsonValue>)
        ensures
            opt_view(
                match res {
                    Some(v) => Some(*v),
                    None => None,
                },
            ) == json_get(self@, key@),
    {
        match self {
            JsonValue::Object(es) => {
                proof {
                    lemma_object_view(*self);
                }
                match member_position(es, key) {
                    Some(i) => Some(&es[i].1),
                    None => None,
                }
            },
            _ => None,
        }
    }
}

/// A copy of a float: the text and `serde_json::Number::clone` (derived) of
/// the number.
#[verifier::external_body]
fn copy_float(f: &JsonFloat) -> (res: JsonFloat)
    ensures
        res.text_view() == f.text_view(),
        res.number_view() == f.number_view(),
{
    JsonFloat { text: f.text.clone(), number: f.number.clone() }
}

/// A copy of `v`, equal to it as the specification sees it.
#[verifier::loop_isolation(false)]
pub fn copy_json(v: &JsonValue) -> (res: JsonValue)
    ensures
        res@ == v@,
    decreases v,
{
    match v {
        JsonValue::Null => JsonValue::Null,
        JsonValue::Bool(b) => JsonValue::Bool(*b),
        JsonValue::Number(JsonNumber::PosInt(u)) => JsonValue::Number(JsonNumber::PosInt(*u)),
        JsonValue::Number(JsonNumber::NegInt(i)) => JsonValue::Number(JsonNumber::NegInt(*i)),
        JsonValue::Number(JsonNumber::Float(f)) => JsonValue::Number(JsonNumber::Float(copy_float(f))),
        JsonValue::String(s) => JsonValue::String(s.clone()),
        JsonValue::Array(xs) => {
            let mut out: Vec<JsonValue> = Vec::new();
            let mut i: usize = 0;
            while i < xs.len()
                invariant
                    i <= xs.len(),
                    out@.len() == i,
                    forall|k: int| 0 <= k < i ==> (#[trigger] out@[k])@ == xs@[k]@,
                decreases xs.len() - i,
            {
                proof {
                    vstd::std_specs::vec::axiom_vec_index_decreases(*xs, i as int);
                }
                out.push(copy_json(&xs[i]));
                i += 1;
            }
            let res = JsonValue::Array(out);
            proof {
                lemma_array_view(res);
                lemma_array_view(*v);
                assert(res@->Array_0 =~= v@->Array_0);
            }
            res
        },
        JsonValue::Object(es) => {
            let mut out: Vec<(String, JsonValue)> = Vec::new();
            let mut i: usize = 0;
            while i < es.len()
                invariant
                    i <= es.len(),
                    out@.len() == i,
                    forall|k: int| 0 <= k < i ==> (#[trigger] out@[k]).0@ == es@[k].0@ && out@[k].1@ == es@[k].1@,
                decreases es.len() - i,
            {
                proof {
                    vstd::std_specs::vec::axiom_vec_index_decreases(*es, i as int);
                }
                let key = es[i].0.clone();
                let value = copy_json(&es[i].1);
                out.push((key, value));
                i += 1;
            }
            let res = JsonValue::Object(out);
            proof {
                lemma_object_view(res);
                lemma_object_view(*v);
                assert(members_view(out@) =~= members_view(es@));
            }
            res
        },
    }
}

/// A YAML value as `serde_yaml` holds it. Numbers and tags are carried as
/// `serde_yaml` holds them; a mapping lists its entries in order.
#[derive(Debug)]
pub enum YamlValue {
    Null,
    Bool(bool),
    Number(serde_yaml::Number),
    String(String),
    Sequence(Vec<YamlValue>),
    Mapping(Vec<(YamlValue, YamlValue)>),
    Tagged(serde_yaml::value::Tag, Box<YamlValue>),
}

/// The name of the value that `serde_json::from_str::<serde_json::Value>`
/// gives for `text`, as the model holds it; `None` when the text is not JSON.
pub uninterp spec fn json_parse_text(text: Seq<char>) -> Option<JsonView>;

/// The name of the text that `serde_json::Value`'s `Display` (compact JSON)
/// gives for the value that `v` models.
pub uninterp spec fn json_display_text(v: JsonView) -> Seq<char>;

/// The name of the text that `serde_json::to_string_pretty` gives for the
/// value that `v` models.
pub uninterp spec fn json_pretty_text(v: JsonView) -> Seq<char>;

/// The name of the JSON value that `serde_json::to_value` gives for the YAML
/// value that `v` models; `None` when it reports an error.
pub uninterp spec fn yaml_json_value(v: YamlValue) -> Option<JsonView>;

/// The model of a `serde_json::Number`.
#[verifier::external_body]
fn from_serde_number(n: serde_json::Number) -> JsonNumber {
    match (n.as_u64(), n.as_i64()) {
        (Some(u), _) => JsonNumber::PosInt(u),
        (None, Some(i)) => JsonNumber::NegInt(i),
        (None, None) => JsonNumber::Float(JsonFloat { text: n.to_string(), number: n }),
    }
}

/// The model of a `serde_json::Value`.
#[verifier::external_body]
fn from_serde_json(v: serde_json::Value) -> JsonValue {
    match v {
        serde_json::Value::Null => JsonValue::Null,
        serde_json::Value::Bool(b) => JsonValue::Bool(b),
        serde_json::Value::Number(n) => JsonValue::Number(from_serde_number(n)),
        serde_json::Value::String(s) => JsonValue::String(s),
        serde_json::Value::Array(xs) => JsonValue::Array(xs.into_iter().map(from_serde_json).collect()),
        serde_json::Value::Object(m) => JsonValue::Object(m.into_iter().map(|(k, x)| (k, from_serde_json(x))).collect()),
    }
}

/// The `serde_json::Value` that `v` models: object members are inserted in
/// order into a `serde_json::Map`.
#[verifier::external_body]
fn to_serde_json(v: &JsonValue) -> serde_json::Value {
    match v {
        JsonValue::Null => serde_json::Value::Null,
        JsonValue::Bool(b) => serde_json::Value::Bool(*b),
        JsonValue::Number(JsonNumber::PosInt(u)) => serde_json::Value::from(*u),
        JsonValue::Number(JsonNumber::NegInt(i)) => serde_json::Value::from(*i),
        JsonValue::Number(JsonNumber::Float(f)) => serde_json::Value::Number(f.number.clone()),
        JsonValue::String(s) => serde_json::Value::String(s.clone()),
        JsonValue::Array(xs) => serde_json::Value::Array(xs.iter().map(to_serde_json).collect()),
        JsonValue::Object(es) => serde_json::Value::Object(es.iter().map(|(k, x)| (k.clone(), to_serde_json(x))).collect()),
    }
}

/// The `serde_yaml::Value` that `v` models: mapping entries are inserted in
/// order into a `serde_yaml::Mapping`.
#[verifier::external_body]
fn to_serde_yaml(v: &YamlValue) -> serde_yaml::Value {
    match v {
        YamlValue::Null => serde_yaml::Value::Null,
        YamlValue::Bool(b) => serde_yaml::Value::Bool(*b),
        YamlValue::Number(n) => serde_yaml::Value::Number(n.clone()),
        YamlValue::String(s) => serde_yaml::Value::String(s.clone()),
        YamlValue::Sequence(xs) => serde_yaml::Value::Sequence(xs.iter().map(to_serde_yaml).collect()),
        YamlValue::Mapping(es) => serde_yaml::Value::Mapping(es.iter().map(|(k, x)| (to_serde_yaml(k), to_serde_yaml(x))).collect()),
        YamlValue::Tagged(t, x) => serde_yaml::Value::Tagged(Box::new(serde_yaml::value::TaggedValue { tag: t.clone(), value: to_serde_yaml(x) })),
    }
}

/// Parses `text` as JSON (`serde_json::from_str::<serde_json::Value>`): the
/// result is the named value; `None` when `serde_json` reports an error.
#[verifier::external_body]
pub(crate) fn parse_json(text: &str) -> (res: Option<JsonValue>)
    ensures
        opt_view(res) == json_parse_text(text@),
{
    serde_json::from_str::<serde_json::Value>(text).ok().map(from_serde_json)
}

/// The compact JSON text of `v` (`Display` of `serde_json::Value`).
#[verifier::external_body]
pub(crate) fn display_json(v: &JsonValue) -> (res: String)
    ensures
        res@ == json_display_text(v@),
{
    to_serde_json(v).to_string()
}

/// The indented JSON text of `v` (`serde_json::to_string_pretty`, which
/// cannot fail on a `serde_json::Value`).
#[verifier::external_body]
pub(crate) fn pretty_json(v: &JsonValue) -> (res: String)
    ensures
        res@ == json_pretty_text(v@),
{
    serde_json::to_string_pretty(&to_serde_json(v)).unwrap()
}

/// Converts a YAML value to JSON (`serde_json::to_value` of the
/// `serde_yaml::Value`): `Ok` exactly when the named conversion succeeds, with
/// the named value.
#[verifier::external_body]
pub(crate) fn yaml_to_json(v: &YamlValue) -> (res: Result<JsonValue, serde_json::Error>)
    ensures
        res is Ok <==> yaml_json_value(*v) is Some,
        res matches Ok(j) ==> yaml_json_value(*v) == Some(j@),
{
    serde_json::to_value(&to_serde_yaml(v)).map(from_serde_json)
}

} // verus!
