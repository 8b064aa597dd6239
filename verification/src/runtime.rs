//! The runtime identifier table: an immutable mapping from the closed set of
//! runtime primitive names to their framework-qualified string names, and the
//! module each is imported from.

use vstd::prelude::*;

verus! {

/// The runtime primitives whose qualified names generated code uses.
#[derive(Clone, Copy, PartialEq, Eq, Structural, Debug, Hash)]
pub enum Identifier {
    Advance,
    DefineComponent,
    Element,
    ElementEnd,
    ElementStart,
    Template,
    Text,
    TextInterpolate,
    TextInterpolate1,
    TextInterpolate2,
    TextInterpolate3,
    TextInterpolate4,
    TextInterpolate5,
    TextInterpolate6,
    TextInterpolate7,
    TextInterpolate8,
    TextInterpolateV,
}

/// The framework-qualified name of a runtime primitive.
pub open spec fn spec_runtime_name(id: Identifier) -> Seq<char> {
    match id {
        Identifier::Advance => "\u{0275}\u{0275}advance"@,
        Identifier::DefineComponent => "\u{0275}\u{0275}defineComponent"@,
        Identifier::Element => "\u{0275}\u{0275}element"@,
        Identifier::ElementEnd => "\u{0275}\u{0275}elementEnd"@,
        Identifier::ElementStart => "\u{0275}\u{0275}elementStart"@,
        Identifier::Template => "\u{0275}\u{0275}template"@,
        Identifier::Text => "\u{0275}\u{0275}text"@,
        Identifier::TextInterpolate => "\u{0275}\u{0275}textInterpolate"@,
        Identifier::TextInterpolate1 => "\u{0275}\u{0275}textInterpolate1"@,
        Identifier::TextInterpolate2 => "\u{0275}\u{0275}textInterpolate2"@,
        Identifier::TextInterpolate3 => "\u{0275}\u{0275}textInterpolate3"@,
        Identifier::TextInterpolate4 => "\u{0275}\u{0275}textInterpolate4"@,
        Identifier::TextInterpolate5 => "\u{0275}\u{0275}textInterpolate5"@,
        Identifier::TextInterpolate6 => "\u{0275}\u{0275}textInterpolate6"@,
        Identifier::TextInterpolate7 => "\u{0275}\u{0275}textInterpolate7"@,
        Identifier::TextInterpolate8 => "\u{0275}\u{0275}textInterpolate8"@,
        Identifier::TextInterpolateV => "\u{0275}\u{0275}textInterpolateV"@,
    }
}

impl Identifier {
    /// The module this primitive is imported from, and its qualified name
    /// there.
    pub fn imported(self) -> (r: (String, String))
        ensures
            r.0@ == "@angular/core"@,
            r.1@ == spec_runtime_name(self),
    {
        let name = match self {
            Identifier::Advance => "\u{0275}\u{0275}advance",
            Identifier::DefineComponent => "\u{0275}\u{0275}defineComponent",
            Identifier::Element => "\u{0275}\u{0275}element",
            Identifier::ElementEnd => "\u{0275}\u{0275}elementEnd",
            Identifier::ElementStart => "\u{0275}\u{0275}elementStart",
            Identifier::Template => "\u{0275}\u{0275}template",
            Identifier::Text => "\u{0275}\u{0275}text",
            Identifier::TextInterpolate => "\u{0275}\u{0275}textInterpolate",
            Identifier::TextInterpolate1 => "\u{0275}\u{0275}textInterpolate1",
            Identifier::TextInterpolate2 => "\u{0275}\u{0275}textInterpolate2",
            Identifier::TextInterpolate3 => "\u{0275}\u{0275}textInterpolate3",
            Identifier::TextInterpolate4 => "\u{0275}\u{0275}textInterpolate4",
            Identifier::TextInterpolate5 => "\u{0275}\u{0275}textInterpolate5",
            Identifier::TextInterpolate6 => "\u{0275}\u{0275}textInterpolate6",
            Identifier::TextInterpolate7 => "\u{0275}\u{0275}textInterpolate7",
            Identifier::TextInterpolate8 => "\u{0275}\u{0275}textInterpolate8",
            Identifier::TextInterpolateV => "\u{0275}\u{0275}textInterpolateV",
        };
        (String::from_str("@angular/core"), String::from_str(name))
    }
}

} // verus!
