//! Struct definitions.

use vstd::prelude::*;
use crate::assoc::{bound, position};
use crate::runtime::types::{TypeView, ValueType};

verus! {

/// A struct's name and the type of each of its fields. Where a field's name
/// occurs twice, the later entry counts.
#[derive(Debug, Clone)]
pub struct StructDefinition {
    pub name: String,
    pub fields: Vec<(String, ValueType)>,
}

/// A struct definition as a mathematical value: its name and its shape.
pub ghost struct StructDefView {
    pub name: Seq<char>,
    pub types: Map<Seq<char>, TypeView>,
}

impl StructDefinition {
    pub open spec fn view(&self) -> StructDefView {
        StructDefView { name: self.name@, types: self.field_types() }
    }

    /// The struct's shape: the type of each field, by the field's name.
    pub open spec fn field_types(&self) -> Map<Seq<char>, TypeView>
        decreases self,
    {
        Map::new(
            |k: Seq<char>| bound(self.fields@, k),
            |k: Seq<char>|
                {
                    let i = position(self.fields@, k);
                    if 0 <= i < self.fields@.len() {
                        self.fields@[i].1.view()
                    } else {
                        TypeView::Undefined
                    }
                },
        )
    }
}

} // verus!
