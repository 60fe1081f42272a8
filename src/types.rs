//! The values that travel in envelopes and the type names they carry.
use vstd::prelude::*;

verus! {

/// A value of the wire format. Temporal, binary and decimal kinds hold their
/// canonical lexical form; the integer subtypes name a constraint that is not
/// enforced.
pub enum Part {
    // String-derived
    Id(String),
    IdRef(String),
    Language(String),
    Name(String),
    NmToken(String),
    NormalizedString(String),
    String(String),
    Token(String),
    // Date-derived
    Date(String),
    Time(String),
    DateTime(String),
    Duration(String),
    // Numeric
    Byte(i8),
    Short(i16),
    Int(i32),
    Long(i64),
    UnsignedByte(u8),
    UnsignedShort(u16),
    UnsignedInt(u32),
    UnsignedLong(u64),
    Decimal(String),
    Integer(i64),
    NegativeInteger(u64),
    PositiveInteger(u64),
    NonNegativeInteger(u64),
    NonPositiveInteger(u64),
    // Miscellaneous
    Boolean(bool),
    Base64Binary(String),
    HexBinary(String),
    AnyUri(String),
    /// Attributes, then child elements.
    ComplexType(Vec<(String, Part)>, Vec<(String, Part)>),
}

/// The schema type name of a value. Every kind is named `xsd:string`.
pub open spec fn xsd_name(p: Part) -> Seq<char> {
    "xsd:string"@
}

/// The text that a value renders as in a response: the content of a plain
/// string, and nothing for every other kind.
pub open spec fn content_of(p: Part) -> Seq<char> {
    match p {
        Part::String(s) => s@,
        _ => Seq::empty(),
    }
}

impl Part {
    /// The schema type name of this value.
    pub fn xsd_type(&self) -> (r: String)
        ensures
            r@ == xsd_name(*self),
    {
        String::from_str("xsd:string")
    }

    /// The text this value renders as in a response.
    pub fn content(&self) -> (r: &str)
        ensures
            r@ == content_of(*self),
    {
        match self {
            Part::String(s) => s.as_str(),
            _ => {
                proof {
                    reveal_strlit("");
                }
                ""
            },
        }
    }
}

/// The declared kind of a value in a call signature.
#[derive(PartialEq, Eq, Structural)]
pub enum Type {
    Void,
    Int,
    Float,
    String,
}

/// The schema type name of a declared kind: `xsd:string`, `xsd:int` and
/// `xsd:float` for the value kinds, and `xsd:anyType` for `Void`, which
/// declares no particular value.
pub open spec fn xsd_name_of(ty: Type) -> Seq<char> {
    match ty {
        Type::String => "xsd:string"@,
        Type::Int => "xsd:int"@,
        Type::Float => "xsd:float"@,
        Type::Void => "xsd:anyType"@,
    }
}

pub fn type_to_xsd(ty: Type) -> (r: String)
    ensures
        r@ == xsd_name_of(ty),
        r@.len() > 0,
{
    proof {
        reveal_strlit("xsd:string");
        reveal_strlit("xsd:int");
        reveal_strlit("xsd:float");
        reveal_strlit("xsd:anyType");
    }
    match ty {
        Type::String => String::from_str("xsd:string"),
        Type::Int => String::from_str("xsd:int"),
        Type::Float => String::from_str("xsd:float"),
        Type::Void => String::from_str("xsd:anyType"),
    }
}

} // verus!
