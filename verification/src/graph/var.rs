//! Value types and values carried by ports and fields.

use vstd::prelude::*;
use vstd::string::*;
use vstd::std_specs::cmp::PartialEqSpecImpl;
use vstd::std_specs::convert::{FromSpecImpl, TryIntoSpecImpl};
use crate::text::{join, join_text, signed_decimal, signed_decimal_text};

verus! {

/// A custom value: the name of its type, then the value as text.
pub type CustomType = (String, String);

/// The type of a value.
#[derive(Debug)]
pub enum Type {
    Bool,
    Int,
    Float,
    String,
    Custom(String),
    Multi(Vec<Type>),
}

/// What a [`Type`] stands for.
pub enum TypeModel {
    Bool,
    Int,
    Float,
    String,
    Custom(Seq<char>),
    Multi(Seq<TypeModel>),
}

impl View for Type {
    type V = TypeModel;

    open spec fn view(&self) -> TypeModel
        decreases self,
    {
        match self {
            Type::Bool => TypeModel::Bool,
            Type::Int => TypeModel::Int,
            Type::Float => TypeModel::Float,
            Type::String => TypeModel::String,
            Type::Custom(name) => TypeModel::Custom(name@),
            Type::Multi(types) => TypeModel::Multi(
                Seq::new(
                    types@.len(),
                    |i: int|
                        if 0 <= i < types@.len() {
                            types@[i].view()
                        } else {
                            TypeModel::Bool
                        },
                ),
            ),
        }
    }
}

/// The text that names a type: `Bool`, `Int`, `Float`, `String`,
/// `Custom(name)`, or the alternatives of a multi-type in square brackets,
/// separated by a comma and a space.
pub open spec fn type_text(t: TypeModel) -> Seq<char>
    decreases t,
{
    match t {
        TypeModel::Bool => "Bool"@,
        TypeModel::Int => "Int"@,
        TypeModel::Float => "Float"@,
        TypeModel::String => "String"@,
        TypeModel::Custom(name) => "Custom("@ + name + ")"@,
        TypeModel::Multi(types) => "["@ + join(type_texts(types), ", "@) + "]"@,
    }
}

/// The texts of the given types, in order.
pub open spec fn type_texts(types: Seq<TypeModel>) -> Seq<Seq<char>>
    decreases types,
{
    Seq::new(
        types.len(),
        |i: int|
            if 0 <= i < types.len() {
                type_text(types[i])
            } else {
                Seq::empty()
            },
    )
}

impl Clone for Type {
    #[verifier::loop_isolation(false)]
    fn clone(&self) -> (r: Self)
        ensures
            r@ == self@,
        decreases self,
    {
        match self {
            Type::Bool => Type::Bool,
            Type::Int => Type::Int,
            Type::Float => Type::Float,
            Type::String => Type::String,
            Type::Custom(name) => Type::Custom(name.clone()),
            Type::Multi(types) => {
                let mut out: Vec<Type> = Vec::new();
                let mut i: usize = 0;
                while i < types.len()
                    invariant
                        i <= types.len(),
                        out.len() == i,
                        forall|k: int| 0 <= k < i ==> out@[k]@ == types@[k]@,
                    decreases types.len() - i,
                {
                    out.push(types[i].clone());
                    i = i + 1;
                }
                let r = Type::Multi(out);
                assert(r@->Multi_0 =~= self@->Multi_0);
                r
            },
        }
    }
}

impl PartialEq for Type {
    fn eq(&self, other: &Self) -> (r: bool) {
        self.same(other)
    }
}

impl PartialEqSpecImpl for Type {
    open spec fn obeys_eq_spec() -> bool {
        true
    }

    open spec fn eq_spec(&self, other: &Self) -> bool {
        self@ == other@
    }
}

impl Type {
    /// Whether two types are the same.
    #[verifier::loop_isolation(false)]
    pub fn same(&self, other: &Self) -> (r: bool)
        ensures
            r == (self@ == other@),
        decreases self,
    {
        match self {
            Type::Bool => matches!(other, Type::Bool),
            Type::Int => matches!(other, Type::Int),
            Type::Float => matches!(other, Type::Float),
            Type::String => matches!(other, Type::String),
            Type::Custom(a) => match other {
                Type::Custom(b) => *a == *b,
                _ => false,
            },
            Type::Multi(a) => match other {
                Type::Multi(b) => {
                    if a.len() != b.len() {
                        assert(self@->Multi_0.len() != other@->Multi_0.len());
                        return false;
                    }
                    let mut i: usize = 0;
                    while i < a.len()
                        invariant
                            i <= a.len(),
                            a.len() == b.len(),
                            forall|k: int| 0 <= k < i ==> a@[k]@ == b@[k]@,
                        decreases a.len() - i,
                    {
                        if !a[i].same(&b[i]) {
                            assert(self@->Multi_0[i as int] != other@->Multi_0[i as int]);
                            return false;
                        }
                        i = i + 1;
                    }
                    assert(self@->Multi_0 =~= other@->Multi_0);
                    true
                },
                _ => false,
            },
        }
    }

    /// The name of the type as text.
    #[verifier::loop_isolation(false)]
    pub fn to_string(&self) -> (r: String)
        ensures
            r@ == type_text(self@),
        decreases self,
    {
        match self {
            Type::Bool => String::from_str("Bool"),
            Type::Int => String::from_str("Int"),
            Type::Float => String::from_str("Float"),
            Type::String => String::from_str("String"),
            Type::Custom(name) => {
                let mut out = String::from_str("Custom(");
                out.append(name.as_str());
                out.append(")");
                assert(out@ =~= type_text(self@));
                out
            },
            Type::Multi(types) => {
                let ghost models = self@->Multi_0;
                let ghost texts = type_texts(models);
                let mut parts: Vec<String> = Vec::new();
                let mut i: usize = 0;
                while i < types.len()
                    invariant
                        i <= types.len(),
                        parts.len() == i,
                        forall|k: int| 0 <= k < i ==> parts@[k]@ == type_text(types@[k]@),
                    decreases types.len() - i,
                {
                    parts.push(types[i].to_string());
                    i = i + 1;
                }
                assert(parts@.map_values(|p: String| p@) =~= texts);
                let inner = join_text(&parts, ", ");
                let mut out = String::from_str("[");
                out.append(inner.as_str());
                out.append("]");
                assert(out@ =~= type_text(self@));
                out
            },
        }
    }
}

/// A value.
///
/// A floating-point value is held as the decimal text that writes it.
#[derive(Debug)]
pub enum Var {
    Bool(bool),
    Int(i64),
    Float(String),
    String(String),
    Custom(CustomType),
}

/// What a [`Var`] stands for.
pub enum VarModel {
    Bool(bool),
    Int(i64),
    Float(Seq<char>),
    String(Seq<char>),
    Custom(Seq<char>, Seq<char>),
}

impl View for Var {
    type V = VarModel;

    open spec fn view(&self) -> VarModel {
        match self {
            Var::Bool(b) => VarModel::Bool(*b),
            Var::Int(i) => VarModel::Int(*i),
            Var::Float(text) => VarModel::Float(text@),
            Var::String(s) => VarModel::String(s@),
            Var::Custom(c) => VarModel::Custom(c.0@, c.1@),
        }
    }
}

/// The type of a value.
pub open spec fn var_type(v: VarModel) -> TypeModel {
    match v {
        VarModel::Bool(_) => TypeModel::Bool,
        VarModel::Int(_) => TypeModel::Int,
        VarModel::Float(_) => TypeModel::Float,
        VarModel::String(_) => TypeModel::String,
        VarModel::Custom(name, _) => TypeModel::Custom(name),
    }
}

/// The text that writes a value: `true` or `false`, a decimal numeral, the
/// text of a floating-point value, a string between double quotes, or a
/// custom value as `(value: name)`.
pub open spec fn var_text(v: VarModel) -> Seq<char> {
    match v {
        VarModel::Bool(b) => if b {
            "true"@
        } else {
            "false"@
        },
        VarModel::Int(i) => signed_decimal(i as int),
        VarModel::Float(text) => text,
        VarModel::String(s) => "\""@ + s + "\""@,
        VarModel::Custom(name, value) => "("@ + value + ": "@ + name + ")"@,
    }
}

/// The text that shows a value together with its type: the type's name and
/// the written value in parentheses, or for a custom value its type's name
/// and the value in parentheses.
pub open spec fn var_debug_text(v: VarModel) -> Seq<char> {
    match v {
        VarModel::Custom(name, value) => name + "("@ + value + ")"@,
        _ => type_text(var_type(v)) + "("@ + var_text(v) + ")"@,
    }
}

impl Clone for Var {
    fn clone(&self) -> (r: Self)
        ensures
            r@ == self@,
    {
        match self {
            Var::Bool(b) => Var::Bool(*b),
            Var::Int(i) => Var::Int(*i),
            Var::Float(text) => Var::Float(text.clone()),
            Var::String(s) => Var::String(s.clone()),
            Var::Custom(c) => Var::Custom((c.0.clone(), c.1.clone())),
        }
    }
}

impl PartialEq for Var {
    fn eq(&self, other: &Self) -> (r: bool) {
        match self {
            Var::Bool(a) => match other {
                Var::Bool(b) => *a == *b,
                _ => false,
            },
            Var::Int(a) => match other {
                Var::Int(b) => *a == *b,
                _ => false,
            },
            Var::Float(a) => match other {
                Var::Float(b) => *a == *b,
                _ => false,
            },
            Var::String(a) => match other {
                Var::String(b) => *a == *b,
                _ => false,
            },
            Var::Custom(a) => match other {
                Var::Custom(b) => a.0 == b.0 && a.1 == b.1,
                _ => false,
            },
        }
    }
}

impl PartialEqSpecImpl for Var {
    open spec fn obeys_eq_spec() -> bool {
        true
    }

    open spec fn eq_spec(&self, other: &Self) -> bool {
        self@ == other@
    }
}

impl Var {
    /// The type of the value.
    pub fn type_(&self) -> (r: Type)
        ensures
            r@ == var_type(self@),
    {
        match self {
            Var::Bool(_) => Type::Bool,
            Var::Int(_) => Type::Int,
            Var::Float(_) => Type::Float,
            Var::String(_) => Type::String,
            Var::Custom(c) => Type::Custom(c.0.clone()),
        }
    }

    /// The value as text.
    pub fn to_string(&self) -> (r: String)
        ensures
            r@ == var_text(self@),
    {
        match self {
            Var::Bool(b) => if *b {
                String::from_str("true")
            } else {
                String::from_str("false")
            },
            Var::Int(i) => signed_decimal_text(*i),
            Var::Float(text) => text.clone(),
            Var::String(s) => {
                let mut out = String::from_str("\"");
                out.append(s.as_str());
                out.append("\"");
                assert(out@ =~= var_text(self@));
                out
            },
            Var::Custom(c) => {
                let mut out = String::from_str("(");
                out.append(c.1.as_str());
                out.append(": ");
                out.append(c.0.as_str());
                out.append(")");
                assert(out@ =~= var_text(self@));
                out
            },
        }
    }

    /// The value with its type, as text.
    pub fn debug_string(&self) -> (r: String)
        ensures
            r@ == var_debug_text(self@),
    {
        match self {
            Var::Custom(c) => {
                let mut out = c.0.clone();
                out.append("(");
                out.append(c.1.as_str());
                out.append(")");
                assert(out@ =~= var_debug_text(self@));
                out
            },
            _ => {
                let mut out = self.type_().to_string();
                out.append("(");
                out.append(self.to_string().as_str());
                out.append(")");
                assert(out@ =~= var_debug_text(self@));
                out
            },
        }
    }
}

impl From<String> for Var {
    fn from(s: String) -> (r: Self) {
        Var::String(s)
    }
}

impl FromSpecImpl<String> for Var {
    open spec fn obeys_from_spec() -> bool {
        true
    }

    open spec fn from_spec(s: String) -> Self {
        Var::String(s)
    }
}

impl From<&str> for Var {
    fn from(s: &str) -> (r: Self)
        ensures
            r@ == VarModel::String(s@),
    {
        Var::String(String::from_str(s))
    }
}

impl FromSpecImpl<&str> for Var {
    open spec fn obeys_from_spec() -> bool {
        false
    }

    open spec fn from_spec(s: &str) -> Self {
        arbitrary()
    }
}

impl From<bool> for Var {
    fn from(b: bool) -> (r: Self) {
        Var::Bool(b)
    }
}

impl FromSpecImpl<bool> for Var {
    open spec fn obeys_from_spec() -> bool {
        true
    }

    open spec fn from_spec(b: bool) -> Self {
        Var::Bool(b)
    }
}

impl From<i32> for Var {
    fn from(i: i32) -> (r: Self) {
        Var::Int(i as i64)
    }
}

impl FromSpecImpl<i32> for Var {
    open spec fn obeys_from_spec() -> bool {
        true
    }

    open spec fn from_spec(v: i32) -> Self {
        Var::Int(v as i64)
    }
}

impl From<i64> for Var {
    fn from(i: i64) -> (r: Self) {
        Var::Int(i)
    }
}

impl FromSpecImpl<i64> for Var {
    open spec fn obeys_from_spec() -> bool {
        true
    }

    open spec fn from_spec(v: i64) -> Self {
        Var::Int(v)
    }
}

impl From<u32> for Var {
    fn from(i: u32) -> (r: Self) {
        Var::Int(i as i64)
    }
}

impl FromSpecImpl<u32> for Var {
    open spec fn obeys_from_spec() -> bool {
        true
    }

    open spec fn from_spec(v: u32) -> Self {
        Var::Int(v as i64)
    }
}

impl From<u64> for Var {
    fn from(i: u64) -> (r: Self) {
        Var::Int(#[verifier::truncate] (i as i64))
    }
}

impl FromSpecImpl<u64> for Var {
    open spec fn obeys_from_spec() -> bool {
        true
    }

    open spec fn from_spec(v: u64) -> Self {
        Var::Int(v as i64)
    }
}

impl From<CustomType> for Var {
    fn from(c: CustomType) -> (r: Self) {
        Var::Custom(c)
    }
}

impl FromSpecImpl<CustomType> for Var {
    open spec fn obeys_from_spec() -> bool {
        true
    }

    open spec fn from_spec(c: CustomType) -> Self {
        Var::Custom(c)
    }
}

impl From<(&str, &str)> for Var {
    fn from(c: (&str, &str)) -> (r: Self)
        ensures
            r@ == VarModel::Custom(c.0@, c.1@),
    {
        Var::Custom((String::from_str(c.0), String::from_str(c.1)))
    }
}

impl FromSpecImpl<(&str, &str)> for Var {
    open spec fn obeys_from_spec() -> bool {
        false
    }

    open spec fn from_spec(c: (&str, &str)) -> Self {
        arbitrary()
    }
}

impl TryInto<String> for Var {
    type Error = Var;

    fn try_into(self) -> (r: Result<String, Var>) {
        match self {
            Var::String(s) => Ok(s),
            _ => Err(self),
        }
    }
}

impl TryIntoSpecImpl<String> for Var {
    open spec fn obeys_try_into_spec() -> bool {
        true
    }

    open spec fn try_into_spec(self) -> Result<String, Var> {
        match self {
            Var::String(s) => Ok(s),
            _ => Err(self),
        }
    }
}

impl TryInto<bool> for Var {
    type Error = Var;

    fn try_into(self) -> (r: Result<bool, Var>) {
        match self {
            Var::Bool(b) => Ok(b),
            _ => Err(self),
        }
    }
}

impl TryIntoSpecImpl<bool> for Var {
    open spec fn obeys_try_into_spec() -> bool {
        true
    }

    open spec fn try_into_spec(self) -> Result<bool, Var> {
        match self {
            Var::Bool(b) => Ok(b),
            _ => Err(self),
        }
    }
}

impl TryInto<i32> for Var {
    type Error = Var;

    fn try_into(self) -> (r: Result<i32, Var>) {
        match self {
            Var::Int(i) => Ok(#[verifier::truncate] (i as i32)),
            _ => Err(self),
        }
    }
}

impl TryIntoSpecImpl<i32> for Var {
    open spec fn obeys_try_into_spec() -> bool {
        true
    }

    open spec fn try_into_spec(self) -> Result<i32, Var> {
        match self {
            Var::Int(i) => Ok(i as i32),
            _ => Err(self),
        }
    }
}

impl TryInto<i64> for Var {
    type Error = Var;

    fn try_into(self) -> (r: Result<i64, Var>) {
        match self {
            Var::Int(i) => Ok(i),
            _ => Err(self),
        }
    }
}

impl TryIntoSpecImpl<i64> for Var {
    open spec fn obeys_try_into_spec() -> bool {
        true
    }

    open spec fn try_into_spec(self) -> Result<i64, Var> {
        match self {
            Var::Int(i) => Ok(i),
            _ => Err(self),
        }
    }
}

impl TryInto<u32> for Var {
    type Error = Var;

    fn try_into(self) -> (r: Result<u32, Var>) {
        match self {
            Var::Int(i) => Ok(#[verifier::truncate] (i as u32)),
            _ => Err(self),
        }
    }
}

impl TryIntoSpecImpl<u32> for Var {
    open spec fn obeys_try_into_spec() -> bool {
        true
    }

    open spec fn try_into_spec(self) -> Result<u32, Var> {
        match self {
            Var::Int(i) => Ok(i as u32),
            _ => Err(self),
        }
    }
}

impl TryInto<u64> for Var {
    type Error = Var;

    fn try_into(self) -> (r: Result<u64, Var>) {
        match self {
            Var::Int(i) => Ok(#[verifier::truncate] (i as u64)),
            _ => Err(self),
        }
    }
}

impl TryIntoSpecImpl<u64> for Var {
    open spec fn obeys_try_into_spec() -> bool {
        true
    }

    open spec fn try_into_spec(self) -> Result<u64, Var> {
        match self {
            Var::Int(i) => Ok(i as u64),
            _ => Err(self),
        }
    }
}

} // verus!
