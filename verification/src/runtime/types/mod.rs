//! Values and their types.

use vstd::prelude::*;
use std::sync::Arc;
use crate::runtime::scope::Scope;
use crate::assoc::{bound, find, lemma_position, position};
use crate::runtime::types::function::{Function, FunctionOutline, FunctionView, OutlineView};
use crate::runtime::types::structs::StructDefinition;
use crate::sitter::{Span, SpanView};
use crate::text::{same_text, share, skip, starts_with};

pub mod function;
pub mod structs;

verus! {

/// A value and the place in the source that it came from.
#[derive(Debug)]
pub struct ContextualValue(pub Value, pub Span);

/// A value. A number is held by the bit pattern of its IEEE-754 binary64
/// value. `Return` marks a value on its way out of a function.
#[derive(Debug)]
pub enum Value {
    Number(u64),
    String(String),
    Boolean(bool),
    StructInstance(Arc<StructDefinition>, Arc<Vec<(String, Value)>>),
    Function(Arc<Function>),
    Undefined,
    External(String, Arc<Scope>),
    Return(Box<Value>),
}

/// The type of a value, or a condition on values.
#[derive(Debug)]
pub enum ValueType {
    Number,
    String,
    Boolean,
    StructInstance(Arc<StructDefinition>),
    Function(Arc<FunctionOutline>),
    Undefined,
    This,
    Any,
    Implements(String),
    Export(String),
}

/// A type as a mathematical value. A struct's type is its shape, the type of
/// each field by the field's name: neither the struct's name nor the order of
/// the fields belongs to it. A trait is given by its name.
pub ghost enum TypeView {
    Number,
    String,
    Boolean,
    StructInstance(Map<Seq<char>, TypeView>),
    Function(Box<OutlineView>),
    Undefined,
    This,
    Any,
    Implements(Seq<char>),
    Export(Seq<char>),
}

/// A value as a mathematical value.
pub ghost enum ValueView {
    Number(u64),
    String(Seq<char>),
    Boolean(bool),
    StructInstance { name: Seq<char>, types: Map<Seq<char>, TypeView>, fields: Seq<(Seq<char>, ValueView)> },
    Function(FunctionView),
    Undefined,
    External(Seq<char>, Arc<Scope>),
    Return(Box<ValueView>),
}

impl TypeView {
    /// Whether the type is one that a value has of itself: not `This`, `Any`
    /// or a trait.
    pub open spec fn is_plain(self) -> bool {
        !(self is This) && !(self is Any) && !(self is Implements)
    }
}

impl ValueView {
    /// The structural type of the value. A value on its way out of a function
    /// has the type of the value that is returned.
    pub open spec fn type_of(self) -> TypeView
        decreases self,
    {
        match self {
            ValueView::Number(_) => TypeView::Number,
            ValueView::String(_) => TypeView::String,
            ValueView::Boolean(_) => TypeView::Boolean,
            ValueView::StructInstance { types, .. } => TypeView::StructInstance(types),
            ValueView::Function(f) => TypeView::Function(Box::new(f.outline())),
            ValueView::Undefined => TypeView::Undefined,
            ValueView::External(name, _) => TypeView::Export(name),
            ValueView::Return(inner) => inner.type_of(),
        }
    }

    /// The value without the marks of a return around it.
    pub open spec fn unwrapped(self) -> ValueView
        decreases self,
    {
        match self {
            ValueView::Return(inner) => inner.unwrapped(),
            _ => self,
        }
    }
}

/// The fields of a struct instance, each with its name and value.
pub open spec fn fields_view(fields: Seq<(String, Value)>) -> Seq<(Seq<char>, ValueView)>
    decreases fields,
{
    Seq::new(
        fields.len(),
        |i: int|
            if 0 <= i < fields.len() {
                (fields[i].0@, fields[i].1.view())
            } else {
                (Seq::empty(), ValueView::Undefined)
            },
    )
}

impl Value {
    pub open spec fn view(&self) -> ValueView
        decreases self,
    {
        match self {
            Value::Number(bits) => ValueView::Number(*bits),
            Value::String(text) => ValueView::String(text@),
            Value::Boolean(b) => ValueView::Boolean(*b),
            Value::StructInstance(def, fields) => ValueView::StructInstance {
                name: def.name@,
                types: def.field_types(),
                fields: fields_view(fields@),
            },
            Value::Function(f) => ValueView::Function(f.view()),
            Value::Undefined => ValueView::Undefined,
            Value::External(name, scope) => ValueView::External(name@, *scope),
            Value::Return(inner) => ValueView::Return(Box::new(inner.view())),
        }
    }

    /// The value, at the place `s`.
    pub fn context(self, s: Span) -> (r: ContextualValue)
        ensures
            r.0 == self,
            r.1 == s,
    {
        ContextualValue(self, s)
    }

    /// The value, at no place.
    pub fn anonymous(self) -> (r: ContextualValue)
        ensures
            r.0 == self,
            r.1.view() == SpanView::anonymous(),
    {
        ContextualValue(self, Span::anonymous())
    }

    /// The bit pattern of the number, where the value is one.
    pub fn as_number(&self) -> (r: Option<u64>)
        ensures
            r == (match self {
                Value::Number(bits) => Some(*bits),
                _ => None,
            }),
    {
        match self {
            Value::Number(bits) => Some(*bits),
            _ => None,
        }
    }

    /// The text, where the value is text.
    pub fn as_string(&self) -> (r: Option<&String>)
        ensures
            r == (match self {
                Value::String(text) => Some(text),
                _ => None,
            }),
    {
        match self {
            Value::String(text) => Some(text),
            _ => None,
        }
    }

    /// The truth value, where the value is one.
    pub fn as_boolean(&self) -> (r: Option<bool>)
        ensures
            r == (match self {
                Value::Boolean(b) => Some(*b),
                _ => None,
            }),
    {
        match self {
            Value::Boolean(b) => Some(*b),
            _ => None,
        }
    }

    /// The definition and the fields, where the value is a struct instance.
    pub fn as_struct_instance(&self) -> (r: Option<
        (&Arc<StructDefinition>, &Arc<Vec<(String, Value)>>),
    >)
        ensures
            r == (match self {
                Value::StructInstance(def, fields) => Some((def, fields)),
                _ => None,
            }),
    {
        match self {
            Value::StructInstance(def, fields) => Some((def, fields)),
            _ => None,
        }
    }

    /// The function, where the value is one.
    pub fn as_function(&self) -> (r: Option<&Arc<Function>>)
        ensures
            r == (match self {
                Value::Function(f) => Some(f),
                _ => None,
            }),
    {
        match self {
            Value::Function(f) => Some(f),
            _ => None,
        }
    }

    /// The function, where the value is one; the value itself where it is
    /// not.
    pub fn into_function(self) -> (r: Result<Arc<Function>, Value>)
        ensures
            r == (match self {
                Value::Function(f) => Ok::<Arc<Function>, Value>(f),
                other => Err::<Arc<Function>, Value>(other),
            }),
    {
        match self {
            Value::Function(f) => Ok(f),
            other => Err(other),
        }
    }

    /// The structural type of the value.
    pub fn type_of(&self) -> (r: ValueType)
        ensures
            r.view() == self.view().type_of(),
            r.view().is_plain(),
        decreases self,
    {
        match self {
            Value::Number(_) => ValueType::Number,
            Value::String(_) => ValueType::String,
            Value::Boolean(_) => ValueType::Boolean,
            Value::StructInstance(def, _) => ValueType::StructInstance(share(def)),
            Value::Function(f) => ValueType::Function(f.outline()),
            Value::Undefined => ValueType::Undefined,
            Value::External(name, _) => ValueType::Export(name.clone()),
            Value::Return(inner) => inner.type_of(),
        }
    }
}

impl ContextualValue {
    pub open spec fn view(&self) -> (ValueView, SpanView) {
        (self.0.view(), self.1.view())
    }
}

impl ValueType {
    pub open spec fn view(&self) -> TypeView
        decreases self,
    {
        match self {
            ValueType::Number => TypeView::Number,
            ValueType::String => TypeView::String,
            ValueType::Boolean => TypeView::Boolean,
            ValueType::StructInstance(def) => TypeView::StructInstance(def.field_types()),
            ValueType::Function(outline) => TypeView::Function(Box::new(outline.view())),
            ValueType::Undefined => TypeView::Undefined,
            ValueType::This => TypeView::This,
            ValueType::Any => TypeView::Any,
            ValueType::Implements(name) => TypeView::Implements(name@),
            ValueType::Export(name) => TypeView::Export(name@),
        }
    }
}

/// Whether two struct definitions have the same shape.
fn same_fields(a: &Arc<StructDefinition>, b: &Arc<StructDefinition>) -> (r: bool)
    ensures
        r == (a.field_types() == b.field_types()),
    decreases a,
{
    let ghost ma = a.field_types();
    let ghost mb = b.field_types();
    let mut i: usize = 0;
    while i < a.fields.len()
        invariant
            i <= a.fields.len(),
            ma == a.field_types(),
            mb == b.field_types(),
            forall|j: int|
                0 <= j < i ==> bound(b.fields@, (#[trigger] a.fields@[j]).0@) && ma[a.fields@[j].0@]
                    == mb[a.fields@[j].0@],
        decreases a.fields.len() - i,
    {
        let key = a.fields[i].0.as_str();
        proof {
            lemma_position(a.fields@, key@);
            lemma_position(b.fields@, key@);
        }
        let ia = match find(&a.fields, key) {
            Some(ia) => ia,
            None => {
                assert(false);
                return false;
            },
        };
        match find(&b.fields, key) {
            None => {
                assert(ma.dom().contains(key@));
                assert(!mb.dom().contains(key@));
                return false;
            },
            Some(ib) => {
                if !a.fields[ia].1.same(&b.fields[ib].1) {
                    assert(ma[key@] != mb[key@]);
                    return false;
                }
            },
        }
        i = i + 1;
    }
    let mut i: usize = 0;
    while i < b.fields.len()
        invariant
            i <= b.fields.len(),
            ma == a.field_types(),
            mb == b.field_types(),
            forall|j: int| 0 <= j < i ==> bound(a.fields@, (#[trigger] b.fields@[j]).0@),
        decreases b.fields.len() - i,
    {
        let key = b.fields[i].0.as_str();
        proof {
            lemma_position(b.fields@, key@);
        }
        if find(&a.fields, key).is_none() {
            assert(mb.dom().contains(key@));
            assert(!ma.dom().contains(key@));
            return false;
        }
        i = i + 1;
    }
    proof {
        assert forall|k: Seq<char>| ma.dom().contains(k) == mb.dom().contains(k) by {
            lemma_position(a.fields@, k);
            lemma_position(b.fields@, k);
            if bound(a.fields@, k) {
                assert(a.fields@[position(a.fields@, k)].0@ == k);
            }
            if bound(b.fields@, k) {
                assert(b.fields@[position(b.fields@, k)].0@ == k);
            }
        }
        assert forall|k: Seq<char>| ma.dom().contains(k) implies ma[k] == mb[k] by {
            lemma_position(a.fields@, k);
            assert(a.fields@[position(a.fields@, k)].0@ == k);
        }
        assert(ma =~= mb);
    }
    true
}

/// Whether two outlines are the same: the same parameters, by name and type
/// and in the same order, and the same return type.
fn same_outline(a: &Arc<FunctionOutline>, b: &Arc<FunctionOutline>) -> (r: bool)
    ensures
        r == (a.view() == b.view()),
    decreases a,
{
    if a.inputs.len() != b.inputs.len() {
        assert(a.view().inputs.len() != b.view().inputs.len());
        return false;
    }
    let mut i: usize = 0;
    while i < a.inputs.len()
        invariant
            i <= a.inputs.len(),
            a.inputs.len() == b.inputs.len(),
            forall|j: int| 0 <= j < i ==> (#[trigger] a.view().inputs[j]) == b.view().inputs[j],
        decreases a.inputs.len() - i,
    {
        if !same_text(a.inputs[i].0.as_str(), b.inputs[i].0.as_str()) {
            assert(a.view().inputs[i as int].0 != b.view().inputs[i as int].0);
            return false;
        }
        if !a.inputs[i].1.same(&b.inputs[i].1) {
            assert(a.view().inputs[i as int].1 != b.view().inputs[i as int].1);
            return false;
        }
        assert(a.view().inputs[i as int] == b.view().inputs[i as int]);
        i = i + 1;
    }
    assert(a.view().inputs =~= b.view().inputs);
    match (&a.returns, &b.returns) {
        (None, None) => true,
        (Some(x), Some(y)) => x.same(y),
        _ => false,
    }
}

impl ValueType {
    /// The type that the name `t` stands for in the scope `s`.
    pub fn from_str(t: &str, s: &Scope) -> (r: Option<ValueType>)
        ensures
            match r {
                Some(ty) => s.view().resolve_type(t@) == Some(ty.view()),
                None => s.view().resolve_type(t@) is None,
            },
    {
        if same_text(t, "number") {
            Some(ValueType::Number)
        } else if same_text(t, "string") {
            Some(ValueType::String)
        } else if same_text(t, "bool") {
            Some(ValueType::Boolean)
        } else if same_text(t, "null") {
            Some(ValueType::Undefined)
        } else if same_text(t, "any") {
            Some(ValueType::Any)
        } else if starts_with(t, "uses ") {
            proof {
                reveal_strlit("uses ");
            }
            let name = skip(t, 5);
            match s.get_trait(name.as_str()) {
                Some(_) => Some(ValueType::Implements(name)),
                None => None,
            }
        } else {
            match s.get_structdef(t) {
                Some(def) => Some(ValueType::StructInstance(def)),
                None => None,
            }
        }
    }

    /// Whether the type accepts the value `v` in the scope `s`.
    pub fn matches(&self, v: &Value, s: &Scope) -> (r: bool)
        ensures
            r == s.view().matches(self.view(), v.view()),
    {
        s.matches_at(self, v, s.trait_count())
    }

    /// Whether two types are the same type: the same kind, and for structs
    /// the same shape, for functions the same outline, for traits and
    /// modules the same name.
    pub fn same(&self, other: &ValueType) -> (r: bool)
        ensures
            r == (self.view() == other.view()),
        decreases self,
    {
        match (self, other) {
            (ValueType::Number, ValueType::Number) => true,
            (ValueType::String, ValueType::String) => true,
            (ValueType::Boolean, ValueType::Boolean) => true,
            (ValueType::StructInstance(a), ValueType::StructInstance(b)) => same_fields(a, b),
            (ValueType::Function(a), ValueType::Function(b)) => same_outline(a, b),
            (ValueType::Undefined, ValueType::Undefined) => true,
            (ValueType::This, ValueType::This) => true,
            (ValueType::Any, ValueType::Any) => true,
            (ValueType::Implements(a), ValueType::Implements(b)) => same_text(
                a.as_str(),
                b.as_str(),
            ),
            (ValueType::Export(a), ValueType::Export(b)) => same_text(a.as_str(), b.as_str()),
            _ => false,
        }
    }
}

impl Clone for ValueType {
    fn clone(&self) -> (r: Self)
        ensures
            r == *self,
    {
        match self {
            ValueType::Number => ValueType::Number,
            ValueType::String => ValueType::String,
            ValueType::Boolean => ValueType::Boolean,
            ValueType::StructInstance(def) => ValueType::StructInstance(share(def)),
            ValueType::Function(outline) => ValueType::Function(share(outline)),
            ValueType::Undefined => ValueType::Undefined,
            ValueType::This => ValueType::This,
            ValueType::Any => ValueType::Any,
            ValueType::Implements(name) => ValueType::Implements(name.clone()),
            ValueType::Export(name) => ValueType::Export(name.clone()),
        }
    }
}

impl Clone for Value {
    fn clone(&self) -> (r: Self)
        ensures
            r == *self,
        decreases self,
    {
        match self {
            Value::Number(bits) => Value::Number(*bits),
            Value::String(text) => Value::String(text.clone()),
            Value::Boolean(b) => Value::Boolean(*b),
            Value::StructInstance(def, fields) => Value::StructInstance(share(def), share(fields)),
            Value::Function(f) => Value::Function(share(f)),
            Value::Undefined => Value::Undefined,
            Value::External(name, scope) => Value::External(name.clone(), share(scope)),
            Value::Return(inner) => Value::Return(Box::new((**inner).clone())),
        }
    }
}

impl Clone for ContextualValue {
    fn clone(&self) -> (r: Self)
        ensures
            r == *self,
    {
        ContextualValue(self.0.clone(), self.1.clone())
    }
}

} // verus!
