//! Fields: values that a node carries and its user edits.

use vstd::prelude::*;
use vstd::string::*;
use crate::graph::var::{Type, TypeModel, Var, VarModel};
use crate::text::{chars_of, same_text, signed_decimal, signed_decimal_text};

verus! {

/// How a field is edited. A field is committed when its editing ends.
#[derive(Debug, Clone, Copy, PartialEq, Eq, Structural)]
pub enum FieldKind {
    Enter,
}

/// The description of one field.
#[derive(Debug)]
pub struct FieldDesc {
    pub name: String,
    pub data_type: Type,
    pub value: Var,
    pub raw_value: String,
    pub kind: FieldKind,
}

/// What a [`FieldDesc`] stands for.
pub struct FieldModel {
    pub name: Seq<char>,
    pub data_type: TypeModel,
    pub value: VarModel,
    pub raw_value: Seq<char>,
    pub kind: FieldKind,
}

impl View for FieldDesc {
    type V = FieldModel;

    open spec fn view(&self) -> FieldModel {
        FieldModel {
            name: self.name@,
            data_type: self.data_type@,
            value: self.value@,
            raw_value: self.raw_value@,
            kind: self.kind,
        }
    }
}

impl Clone for FieldDesc {
    fn clone(&self) -> (r: Self)
        ensures
            r@ == self@,
    {
        FieldDesc {
            name: self.name.clone(),
            data_type: self.data_type.clone(),
            value: self.value.clone(),
            raw_value: self.raw_value.clone(),
            kind: self.kind,
        }
    }
}

/// The models of the fields in a list, in order.
pub open spec fn field_models(fields: Seq<FieldDesc>) -> Seq<FieldModel> {
    fields.map_values(|f: FieldDesc| f@)
}

/// Copies a list of fields.
pub fn clone_fields(fields: &Vec<FieldDesc>) -> (r: Vec<FieldDesc>)
    ensures
        field_models(r@) == field_models(fields@),
{
    let r = fields.clone();
    assert(field_models(r@) =~= field_models(fields@));
    r
}

/// Whether a character is a decimal digit.
pub open spec fn is_digit(c: char) -> bool {
    c == '0' || c == '1' || c == '2' || c == '3' || c == '4' || c == '5' || c == '6' || c == '7'
        || c == '8' || c == '9'
}

/// The digit that a character writes.
pub open spec fn digit_of(c: char) -> nat {
    if c == '1' {
        1
    } else if c == '2' {
        2
    } else if c == '3' {
        3
    } else if c == '4' {
        4
    } else if c == '5' {
        5
    } else if c == '6' {
        6
    } else if c == '7' {
        7
    } else if c == '8' {
        8
    } else if c == '9' {
        9
    } else {
        0
    }
}

/// Whether every character is a decimal digit.
pub open spec fn all_digits(s: Seq<char>) -> bool {
    forall|i: int| 0 <= i < s.len() ==> is_digit(#[trigger] s[i])
}

/// The number that a string of digits writes.
pub open spec fn digits_value(s: Seq<char>) -> nat
    decreases s.len(),
{
    if s.len() == 0 {
        0
    } else {
        digits_value(s.drop_last()) * 10 + digit_of(s.last())
    }
}

/// The whole number that a text writes: an optional sign, then one or
/// more decimal digits, where the number fits in 64 bits.
pub open spec fn parsed_int(s: Seq<char>) -> Option<i64> {
    let signed = s.len() > 0 && (s[0] == '-' || s[0] == '+');
    let negative = s.len() > 0 && s[0] == '-';
    let digits = if signed {
        s.skip(1)
    } else {
        s
    };
    if digits.len() == 0 || !all_digits(digits) {
        None
    } else if negative {
        if digits_value(digits) <= 0x8000_0000_0000_0000 {
            Some((-(digits_value(digits) as int)) as i64)
        } else {
            None
        }
    } else {
        if digits_value(digits) < 0x8000_0000_0000_0000 {
            Some(digits_value(digits) as i64)
        } else {
            None
        }
    }
}

/// The truth value that a text writes: `true` or `false`.
pub open spec fn parsed_bool(s: Seq<char>) -> Option<bool> {
    if s == "true"@ {
        Some(true)
    } else if s == "false"@ {
        Some(false)
    } else {
        None
    }
}

/// A longer string of digits writes a number that is not smaller.
pub proof fn lemma_digits_grow(s: Seq<char>, k: int)
    requires
        0 <= k <= s.len(),
    ensures
        digits_value(s.take(k)) <= digits_value(s),
    decreases s.len() - k,
{
    if k < s.len() {
        lemma_digits_grow(s, k + 1);
        assert(s.take(k + 1).drop_last() =~= s.take(k));
    } else {
        assert(s.take(k) =~= s);
    }
}

fn digit_value(c: char) -> (r: Option<u64>)
    ensures
        match r {
            Some(d) => is_digit(c) && d == digit_of(c),
            None => !is_digit(c),
        },
{
    if c == '0' {
        Some(0)
    } else if c == '1' {
        Some(1)
    } else if c == '2' {
        Some(2)
    } else if c == '3' {
        Some(3)
    } else if c == '4' {
        Some(4)
    } else if c == '5' {
        Some(5)
    } else if c == '6' {
        Some(6)
    } else if c == '7' {
        Some(7)
    } else if c == '8' {
        Some(8)
    } else if c == '9' {
        Some(9)
    } else {
        None
    }
}

/// Reads a whole number.
#[verifier::loop_isolation(false)]
pub fn parse_int(text: &str) -> (r: Option<i64>)
    ensures
        r == parsed_int(text@),
{
    let chars = chars_of(text);
    if chars.len() == 0 {
        return None;
    }
    let negative = chars[0] == '-';
    let start: usize = if chars[0] == '-' || chars[0] == '+' { 1 } else { 0 };
    if start == chars.len() {
        return None;
    }
    let ghost digits = chars@.skip(start as int);
    assert(chars@.skip(0) =~= chars@);
    let limit: u64 = if negative { 0x8000_0000_0000_0000 } else { 0x7fff_ffff_ffff_ffff };
    let mut value: u64 = 0;
    let mut i: usize = start;
    assert(digits.take(0) =~= Seq::<char>::empty());
    while i < chars.len()
        invariant
            start <= i <= chars.len(),
            digits == chars@.skip(start as int),
            limit <= 0x8000_0000_0000_0000,
            value == digits_value(digits.take(i - start)),
            value <= limit,
            all_digits(digits.take(i - start)),
        decreases chars.len() - i,
    {
        let ghost next = digits.take(i - start + 1);
        proof {
            assert(next.drop_last() =~= digits.take(i - start));
            assert(next.last() == chars@[i as int]);
        }
        match digit_value(chars[i]) {
            None => {
                assert(!is_digit(digits[i - start]));
                return None;
            },
            Some(d) => {
                if value > (limit - d) / 10 {
                    proof {
                        lemma_digits_grow(digits, i - start + 1);
                        assert(digits_value(next) > limit);
                    }
                    return None;
                }
                value = value * 10 + d;
                assert forall|k: int| 0 <= k < next.len() implies is_digit(#[trigger] next[k]) by {
                    if k < next.len() - 1 {
                        assert(digits.take(i - start)[k] == next[k]);
                    }
                }
            },
        }
        i = i + 1;
    }
    assert(digits.take(chars.len() - start) =~= digits);
    if negative {
        if value == 0x8000_0000_0000_0000 {
            Some(i64::MIN)
        } else {
            Some(-(value as i64))
        }
    } else {
        Some(value as i64)
    }
}

/// Reads a truth value.
pub fn parse_bool(text: &str) -> (r: Option<bool>)
    ensures
        r == parsed_bool(text@),
{
    if same_text(text, "true") {
        Some(true)
    } else if same_text(text, "false") {
        Some(false)
    } else {
        None
    }
}

/// Whether a field of the type `t` takes values of the type `wanted`: the
/// field has that type, or a multi-type with that alternative.
pub open spec fn takes(t: TypeModel, wanted: TypeModel) -> bool {
    t == wanted || (t matches TypeModel::Multi(types) && types.contains(wanted))
}

/// Whether a field of the type `t` is of a multi-type with the alternative
/// `wanted`.
pub open spec fn offers(t: TypeModel, wanted: TypeModel) -> bool {
    t matches TypeModel::Multi(types) && types.contains(wanted)
}

/// The value and the text that a field of the type `t` takes when the text
/// `raw` is committed; `float` is the text of the floating-point number
/// that `raw` writes, if it writes one. An empty text gives the number 0.
/// Otherwise the first of these that the type takes and the text writes is
/// the value: a floating-point number, a whole number, a truth value (for
/// a multi-type only), the text itself. Nothing is taken where none fits.
pub open spec fn committed(t: TypeModel, raw: Seq<char>, float: Option<Seq<char>>) -> Option<
    (VarModel, Seq<char>),
> {
    if raw.len() == 0 {
        Some((VarModel::Int(0), raw))
    } else if takes(t, TypeModel::Float) && float is Some {
        Some((VarModel::Float(float->Some_0), float->Some_0))
    } else if takes(t, TypeModel::Int) && parsed_int(raw) is Some {
        Some(
            (VarModel::Int(parsed_int(raw)->Some_0), signed_decimal(parsed_int(raw)->Some_0 as int)),
        )
    } else if offers(t, TypeModel::Bool) && parsed_bool(raw) is Some {
        Some(
            (
                VarModel::Bool(parsed_bool(raw)->Some_0),
                if parsed_bool(raw)->Some_0 {
                    "true"@
                } else {
                    "false"@
                },
            ),
        )
    } else if takes(t, TypeModel::String) {
        Some((VarModel::String(raw), raw))
    } else {
        None
    }
}

fn offers_type(t: &Type, wanted: &Type) -> (r: bool)
    ensures
        r == offers(t@, wanted@),
{
    match t {
        Type::Multi(types) => {
            let mut i: usize = 0;
            while i < types.len()
                invariant
                    i <= types.len(),
                    t@ matches TypeModel::Multi(models) && models.len() == types@.len() && (forall|
                        k: int,
                    |
                        0 <= k < models.len() ==> #[trigger] models[k] == types@[k]@),
                    forall|k: int| 0 <= k < i ==> types@[k]@ != wanted@,
                decreases types.len() - i,
            {
                if types[i].same(wanted) {
                    proof {
                        let models = t@->Multi_0;
                        assert(models[i as int] == wanted@);
                    }
                    return true;
                }
                i = i + 1;
            }
            proof {
                let models = t@->Multi_0;
                if models.contains(wanted@) {
                    let k = choose|k: int| 0 <= k < models.len() && models[k] == wanted@;
                    assert(types@[k]@ != wanted@);
                }
            }
            false
        },
        _ => false,
    }
}

fn takes_type(t: &Type, wanted: &Type) -> (r: bool)
    ensures
        r == takes(t@, wanted@),
{
    t.same(wanted) || offers_type(t, wanted)
}

impl FieldDesc {
    /// Commits the text of the field: where the text fits the type of the
    /// field, the field takes the value that the text writes, and the text
    /// is written anew from the value. The text of the floating-point
    /// number that the field's text writes is handed in, if it writes one.
    /// Tells whether the text fitted; a field whose text did not fit stays
    /// as it was.
    pub fn commit(&mut self, float: Option<String>) -> (r: bool)
        ensures
            final(self)@.name == old(self)@.name,
            final(self)@.data_type == old(self)@.data_type,
            final(self)@.kind == old(self)@.kind,
            match committed(
                old(self)@.data_type,
                old(self)@.raw_value,
                match float {
                    Some(text) => Some(text@),
                    None => None,
                },
            ) {
                Some(taken) => r && final(self)@.value == taken.0 && final(self)@.raw_value
                    == taken.1,
                None => !r && final(self)@.value == old(self)@.value && final(self)@.raw_value
                    == old(self)@.raw_value,
            },
    {
        if self.raw_value.as_str().is_empty() {
            self.value = Var::Int(0);
            return true;
        }
        if takes_type(&self.data_type, &Type::Float) {
            match float {
                Some(text) => {
                    self.raw_value = text.clone();
                    self.value = Var::Float(text);
                    return true;
                },
                None => {},
            }
        }
        if takes_type(&self.data_type, &Type::Int) {
            match parse_int(self.raw_value.as_str()) {
                Some(v) => {
                    self.value = Var::Int(v);
                    self.raw_value = signed_decimal_text(v);
                    return true;
                },
                None => {},
            }
        }
        if offers_type(&self.data_type, &Type::Bool) {
            match parse_bool(self.raw_value.as_str()) {
                Some(b) => {
                    self.value = Var::Bool(b);
                    self.raw_value = if b {
                        String::from_str("true")
                    } else {
                        String::from_str("false")
                    };
                    return true;
                },
                None => {},
            }
        }
        if takes_type(&self.data_type, &Type::String) {
            self.value = Var::String(self.raw_value.clone());
            return true;
        }
        false
    }
}

} // verus!
