//! Faults: the structured error outcome of a call, and their XML form.
use crate::xml::{lemma_models, models, str_pairs, Element, ElementModel};
use vstd::prelude::*;

verus! {

/// Who is to blame for a fault.
#[derive(PartialEq, Eq, Structural, Clone, Copy, Debug)]
pub enum FaultCode {
    VersionMismatch,
    MustUnderstand,
    Client,
    Server,
}

/// The text of a fault code on the wire.
pub open spec fn code_text(c: FaultCode) -> Seq<char> {
    match c {
        FaultCode::VersionMismatch => "SOAP-ENV:VersionMismatch"@,
        FaultCode::MustUnderstand => "SOAP-ENV:MustUnderstand"@,
        FaultCode::Server => "SOAP-ENV:Server"@,
        FaultCode::Client => "SOAP-ENV:Client"@,
    }
}

/// `<tag xsi:type="xsd:string">content</tag>`, with no child when the content
/// is empty.
pub open spec fn typed(tag: Seq<char>, content: Seq<char>) -> ElementModel {
    ElementModel::Node(
        tag,
        seq![("xsi:type"@, "xsd:string"@)],
        if content.len() == 0 {
            Seq::empty()
        } else {
            seq![ElementModel::Text(content)]
        },
    )
}

/// The typed element as built from string slices.
pub fn typed_element(tag: &str, content: &str) -> (r: Element)
    ensures
        r@ == typed(tag@, content@),
{
    let attrs = vec![("xsi:type", "xsd:string")];
    let mut children: Vec<Element> = Vec::new();
    if !content.is_empty() {
        children.push(Element::new_text(content));
    }
    proof {
        assert(str_pairs(attrs@) =~= seq![("xsi:type"@, "xsd:string"@)]);
        if content@.len() == 0 {
            assert(models(children@) =~= Seq::<ElementModel>::empty());
        } else {
            lemma_models(children@);
            assert(models(children@) =~= seq![ElementModel::Text(content@)]);
        }
    }
    Element::new_node(tag, attrs, children)
}

impl FaultCode {
    /// The `faultcode` element.
    pub fn to_xml(&self) -> (r: Element)
        ensures
            r@ == typed("faultcode"@, code_text(*self)),
    {
        let text = match self {
            FaultCode::VersionMismatch => "SOAP-ENV:VersionMismatch",
            FaultCode::MustUnderstand => "SOAP-ENV:MustUnderstand",
            FaultCode::Server => "SOAP-ENV:Server",
            FaultCode::Client => "SOAP-ENV:Client",
        };
        typed_element("faultcode", text)
    }
}

/// A fault: its code, a message for people, the actor it came from and its
/// detail (both may be empty).
pub struct Fault {
    pub code: FaultCode,
    pub string: String,
    pub actor: String,
    pub detail: String,
}

/// The `SOAP-ENV:Fault` element: code and string always, actor and detail only
/// when they are not empty.
pub open spec fn fault_model(f: Fault) -> ElementModel {
    ElementModel::Node(
        "SOAP-ENV:Fault"@,
        Seq::empty(),
        seq![typed("faultcode"@, code_text(f.code)), typed("faultstring"@, f.string@)] + (
        if f.actor@.len() == 0 {
            Seq::empty()
        } else {
            seq![typed("faultactor"@, f.actor@)]
        }) + (if f.detail@.len() == 0 {
            Seq::empty()
        } else {
            seq![typed("detail"@, f.detail@)]
        }),
    )
}

/// A `Client` fault with the given string and empty actor and detail.
pub open spec fn client_fault(f: Fault, text: Seq<char>) -> bool {
    &&& f.code == FaultCode::Client
    &&& f.string@ == text
    &&& f.actor@.len() == 0
    &&& f.detail@.len() == 0
}

impl Fault {
    fn new(code: FaultCode, string: &str, actor: &str, detail: &str) -> (r: Fault)
        ensures
            r.code == code,
            r.string@ == string@,
            r.actor@ == actor@,
            r.detail@ == detail@,
    {
        Fault {
            code,
            string: String::from_str(string),
            actor: String::from_str(actor),
            detail: String::from_str(detail),
        }
    }

    pub fn version_mismatch(string: &str, actor: &str, detail: &str) -> (r: Fault)
        ensures
            r.code == FaultCode::VersionMismatch,
            r.string@ == string@,
            r.actor@ == actor@,
            r.detail@ == detail@,
    {
        Fault::new(FaultCode::VersionMismatch, string, actor, detail)
    }

    pub fn must_understand(string: &str, actor: &str, detail: &str) -> (r: Fault)
        ensures
            r.code == FaultCode::MustUnderstand,
            r.string@ == string@,
            r.actor@ == actor@,
            r.detail@ == detail@,
    {
        Fault::new(FaultCode::MustUnderstand, string, actor, detail)
    }

    pub fn server(string: &str, actor: &str, detail: &str) -> (r: Fault)
        ensures
            r.code == FaultCode::Server,
            r.string@ == string@,
            r.actor@ == actor@,
            r.detail@ == detail@,
    {
        Fault::new(FaultCode::Server, string, actor, detail)
    }

    pub fn client(string: &str, actor: &str, detail: &str) -> (r: Fault)
        ensures
            r.code == FaultCode::Client,
            r.string@ == string@,
            r.actor@ == actor@,
            r.detail@ == detail@,
    {
        Fault::new(FaultCode::Client, string, actor, detail)
    }

    /// The `SOAP-ENV:Fault` element.
    pub fn to_xml(&self) -> (r: Element)
        ensures
            r@ == fault_model(*self),
    {
        let mut children: Vec<Element> = Vec::new();
        children.push(self.code.to_xml());
        children.push(typed_element("faultstring", self.string.as_str()));
        if !self.actor.as_str().is_empty() {
            children.push(typed_element("faultactor", self.actor.as_str()));
        }
        if !self.detail.as_str().is_empty() {
            children.push(typed_element("detail", self.detail.as_str()));
        }
        proof {
            lemma_models(children@);
            assert(models(children@) =~= fault_model(*self)->2);
            assert(str_pairs(Seq::<(&str, &str)>::empty()) =~= Seq::empty());
        }
        Element::new_node("SOAP-ENV:Fault", Vec::new(), children)
    }
}

} // verus!
