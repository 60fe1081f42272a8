//! Why an envelope is refused.
use vstd::prelude::*;

verus! {

/// The structural fault found in an envelope.
#[derive(PartialEq, Eq, Structural, Clone, Copy, Debug)]
pub enum Malformation {
    /// A second XML declaration.
    SecondDeclaration,
    /// A tag before the XML declaration.
    MissingDeclaration,
    /// A tag other than `Envelope` after the declaration.
    ExpectedEnvelope,
    /// A tag other than `Body` inside the Envelope.
    ExpectedBody,
    /// The document ends before its Body, or inside an operation.
    Incomplete,
    /// The text is not well-formed XML.
    Syntax,
}

/// The failures of the protocol engine.
#[derive(PartialEq, Eq, Structural, Clone, Copy, Debug)]
pub enum SoapError {
    Malformed(Malformation),
}

/// The diagnostic for each malformation.
pub open spec fn describe_spec(m: Malformation) -> Seq<char> {
    match m {
        Malformation::SecondDeclaration => "second XML declaration"@,
        Malformation::MissingDeclaration => "tag before the XML declaration"@,
        Malformation::ExpectedEnvelope => "expected an Envelope element"@,
        Malformation::ExpectedBody => "expected a Body element"@,
        Malformation::Incomplete => "document ends before the envelope is complete"@,
        Malformation::Syntax => "not well-formed XML"@,
    }
}

impl Malformation {
    /// A diagnostic for people.
    pub fn describe(&self) -> (r: &'static str)
        ensures
            r@ == describe_spec(*self),
    {
        match self {
            Malformation::SecondDeclaration => "second XML declaration",
            Malformation::MissingDeclaration => "tag before the XML declaration",
            Malformation::ExpectedEnvelope => "expected an Envelope element",
            Malformation::ExpectedBody => "expected a Body element",
            Malformation::Incomplete => "document ends before the envelope is complete",
            Malformation::Syntax => "not well-formed XML",
        }
    }
}

} // verus!
