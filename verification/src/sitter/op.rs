//! Operators, and the traits that they stand for.

use vstd::prelude::*;
use crate::text::same_text;

verus! {

/// An operator between two operands.
#[derive(Debug, Clone, Copy, PartialEq, Eq, Structural)]
pub enum Dyadic {
    Add,
    Subtract,
    Multiply,
    Divide,
}

/// An operator before one operand.
#[derive(Debug, Clone, Copy, PartialEq, Eq, Structural)]
pub enum Mondaic {
    Negate,
    Not,
}

impl Dyadic {
    /// The name of the trait that implements the operator.
    pub open spec fn trait_name_spec(self) -> Seq<char> {
        match self {
            Dyadic::Add => "Add"@,
            Dyadic::Subtract => "Subtract"@,
            Dyadic::Multiply => "Multiply"@,
            Dyadic::Divide => "Divide"@,
        }
    }

    /// The name of that trait's method: the trait's name in lower case.
    pub open spec fn method_name_spec(self) -> Seq<char> {
        match self {
            Dyadic::Add => "add"@,
            Dyadic::Subtract => "subtract"@,
            Dyadic::Multiply => "multiply"@,
            Dyadic::Divide => "divide"@,
        }
    }

    /// The name of the trait that implements the operator.
    pub fn trait_name(self) -> (r: &'static str)
        ensures
            r@ == self.trait_name_spec(),
    {
        match self {
            Dyadic::Add => "Add",
            Dyadic::Subtract => "Subtract",
            Dyadic::Multiply => "Multiply",
            Dyadic::Divide => "Divide",
        }
    }

    /// The name of that trait's method.
    pub fn method_name(self) -> (r: &'static str)
        ensures
            r@ == self.method_name_spec(),
    {
        match self {
            Dyadic::Add => "add",
            Dyadic::Subtract => "subtract",
            Dyadic::Multiply => "multiply",
            Dyadic::Divide => "divide",
        }
    }
}

impl Mondaic {
    /// The name of the trait that implements the operator.
    pub open spec fn trait_name_spec(self) -> Seq<char> {
        match self {
            Mondaic::Negate => "Negate"@,
            Mondaic::Not => "Not"@,
        }
    }

    /// The name of that trait's method: the trait's name in lower case.
    pub open spec fn method_name_spec(self) -> Seq<char> {
        match self {
            Mondaic::Negate => "negate"@,
            Mondaic::Not => "not"@,
        }
    }

    /// The name of the trait that implements the operator.
    pub fn trait_name(self) -> (r: &'static str)
        ensures
            r@ == self.trait_name_spec(),
    {
        match self {
            Mondaic::Negate => "Negate",
            Mondaic::Not => "Not",
        }
    }

    /// The name of that trait's method.
    pub fn method_name(self) -> (r: &'static str)
        ensures
            r@ == self.method_name_spec(),
    {
        match self {
            Mondaic::Negate => "negate",
            Mondaic::Not => "not",
        }
    }
}

/// The operator that a token between two operands denotes.
pub open spec fn dyadic_of(token: Seq<char>) -> Option<Dyadic> {
    if token == "+"@ {
        Some(Dyadic::Add)
    } else if token == "-"@ {
        Some(Dyadic::Subtract)
    } else if token == "*"@ {
        Some(Dyadic::Multiply)
    } else if token == "/"@ {
        Some(Dyadic::Divide)
    } else {
        None
    }
}

/// The operator that a token before one operand denotes.
pub open spec fn mondaic_of(token: Seq<char>) -> Option<Mondaic> {
    if token == "-"@ {
        Some(Mondaic::Negate)
    } else if token == "!"@ {
        Some(Mondaic::Not)
    } else {
        None
    }
}

/// Reads an operator between two operands.
pub fn get_dyadic(token: &str) -> (r: Option<Dyadic>)
    ensures
        r == dyadic_of(token@),
{
    if same_text(token, "+") {
        Some(Dyadic::Add)
    } else if same_text(token, "-") {
        Some(Dyadic::Subtract)
    } else if same_text(token, "*") {
        Some(Dyadic::Multiply)
    } else if same_text(token, "/") {
        Some(Dyadic::Divide)
    } else {
        None
    }
}

/// Reads an operator before one operand.
pub fn get_mondaic(token: &str) -> (r: Option<Mondaic>)
    ensures
        r == mondaic_of(token@),
{
    if same_text(token, "-") {
        Some(Mondaic::Negate)
    } else if same_text(token, "!") {
        Some(Mondaic::Not)
    } else {
        None
    }
}

} // verus!
