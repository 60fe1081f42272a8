//! Responses and the envelopes that carry them.
use crate::fault::{client_fault, fault_model, Fault};
use crate::types::{content_of, xsd_name, Part};
use crate::xml::{
    lemma_models, models, render_document, str_pairs, Document, Element, ElementModel,
};
use vstd::prelude::*;

verus! {

/// The outcome of one call: the named results of an operation, or a fault.
pub enum Response {
    Success(String, Vec<(String, Part)>),
    Fault(Fault),
}

/// `<return xsi:type="type">content</return>`, empty when the content is.
pub open spec fn return_model(p: Part) -> ElementModel {
    ElementModel::Node(
        "return"@,
        seq![("xsi:type"@, xsd_name(p))],
        if content_of(p).len() == 0 {
            Seq::empty()
        } else {
            seq![ElementModel::Text(content_of(p))]
        },
    )
}

/// One `return` element per result, in order.
pub open spec fn returns_model(outputs: Seq<(String, Part)>) -> Seq<ElementModel> {
    outputs.map_values(|o: (String, Part)| return_model(o.1))
}

/// The element that stands for a response in a Body.
pub open spec fn response_model(r: Response) -> ElementModel {
    match r {
        Response::Success(op, outputs) => ElementModel::Node(
            "ns1:"@ + op@ + "Response"@,
            Seq::empty(),
            returns_model(outputs@),
        ),
        Response::Fault(f) => fault_model(f),
    }
}

/// The namespace declarations of an envelope.
pub open spec fn envelope_attrs() -> Seq<(Seq<char>, Seq<char>)> {
    seq![
        ("xmlns:xsd"@, "http://www.w3.org/2001/XMLSchema"@),
        ("xmlns:xsi"@, "http://www.w3.org/2001/XMLSchema-instance"@),
        ("xmlns:SOAP-ENV"@, "http://schemas.xmlsoap.org/soap/envelope/"@),
        ("xmlns:SOAP-ENC"@, "http://schemas.xmlsoap.org/soap/encoding/"@),
    ]
}

/// An Envelope whose single Body holds `body`.
pub open spec fn envelope(body: Seq<ElementModel>) -> ElementModel {
    ElementModel::Node(
        "SOAP-ENV:Envelope"@,
        envelope_attrs(),
        seq![ElementModel::Node("SOAP-ENV:Body"@, Seq::empty(), body)],
    )
}

/// The wire text of an envelope whose Body holds the given responses.
pub open spec fn envelope_text(rs: Seq<Response>) -> Seq<char> {
    render_document("UTF-8"@, envelope(rs.map_values(|r: Response| response_model(r))))
}

/// The `return` element of one result.
fn return_element(p: &Part) -> (r: Element)
    ensures
        r@ == return_model(*p),
{
    let ty = p.xsd_type();
    let content = p.content();
    let mut children: Vec<Element> = Vec::new();
    if !content.is_empty() {
        children.push(Element::new_text(content));
    }
    let attrs = vec![("xsi:type", ty.as_str())];
    proof {
        lemma_models(children@);
        assert(models(children@) =~= return_model(*p)->2);
        assert(str_pairs(attrs@) =~= seq![("xsi:type"@, xsd_name(*p))]);
    }
    Element::new_node("return", attrs, children)
}

/// The Envelope element around the given Body children.
fn envelope_element(body: Vec<Element>) -> (r: Element)
    ensures
        r@ == envelope(models(body@)),
{
    let body_element = Element::new_node("SOAP-ENV:Body", Vec::new(), body);
    let attrs = vec![
        ("xmlns:xsd", "http://www.w3.org/2001/XMLSchema"),
        ("xmlns:xsi", "http://www.w3.org/2001/XMLSchema-instance"),
        ("xmlns:SOAP-ENV", "http://schemas.xmlsoap.org/soap/envelope/"),
        ("xmlns:SOAP-ENC", "http://schemas.xmlsoap.org/soap/encoding/"),
    ];
    let mut children: Vec<Element> = Vec::new();
    children.push(body_element);
    proof {
        assert(str_pairs(Seq::<(&str, &str)>::empty()) =~= Seq::empty());
        assert(str_pairs(attrs@) =~= envelope_attrs());
        lemma_models(children@);
        assert(models(children@) =~= envelope(models(body@))->2);
    }
    Element::new_node("SOAP-ENV:Envelope", attrs, children)
}

/// Renders a document with the given root.
fn document_text(root: Element) -> (r: String)
    ensures
        r@ == render_document("UTF-8"@, root@),
{
    let mut document = Document::new("UTF-8");
    document.set_root(root);
    document.to_string()
}

/// The fault string for an operation that is not registered.
pub open spec fn not_defined_text(name: Seq<char>) -> Seq<char> {
    "Operation \""@ + name + "\" is not defined for this service"@
}

impl Response {
    /// What the reserved pseudo-operation for unknown names answers: a
    /// `Client` fault that names the operation.
    pub fn not_found(operation: &str) -> (r: Response)
        ensures
            r matches Response::Fault(f) && client_fault(f, not_defined_text(operation@)),
    {
        let mut text = String::from_str("Operation \"");
        text.append(operation);
        text.append("\" is not defined for this service");
        proof {
            reveal_strlit("");
        }
        Response::Fault(Fault::client(text.as_str(), "", ""))
    }

    /// The results of a call of `operation`.
    pub fn from(operation: &str, responses: Vec<(String, Part)>) -> (r: Response)
        ensures
            r matches Response::Success(op, outs) && op@ == operation@ && outs == responses,
    {
        Response::Success(String::from_str(operation), responses)
    }

    /// The element that stands for this response in a Body.
    pub fn to_xml(&self) -> (r: Element)
        ensures
            r@ == response_model(*self),
    {
        match self {
            Response::Success(op, outputs) => {
                let mut children: Vec<Element> = Vec::new();
                let n = outputs.len();
                for i in 0..n
                    invariant
                        n == outputs@.len(),
                        models(children@) == returns_model(outputs@.take(i as int)),
                {
                    let e = return_element(&outputs[i].1);
                    proof {
                        assert(children@.push(e).subrange(0, children@.len() as int)
                            == children@);
                        assert(returns_model(outputs@.take(i + 1)) =~= returns_model(
                            outputs@.take(i as int),
                        ).push(return_model(outputs@[i as int].1)));
                    }
                    children.push(e);
                }
                assert(outputs@.take(n as int) == outputs@);
                let mut name = String::from_str("ns1:");
                name.append(op.as_str());
                name.append("Response");
                proof {
                    assert(str_pairs(Seq::<(&str, &str)>::empty()) =~= Seq::empty());
                }
                Element::new_node(name.as_str(), Vec::new(), children)
            },
            Response::Fault(f) => f.to_xml(),
        }
    }

    /// The wire text of an envelope that carries this response.
    pub fn to_xml_string(&self) -> (r: String)
        ensures
            r@ == envelope_text(seq![*self]),
    {
        let mut body: Vec<Element> = Vec::new();
        body.push(self.to_xml());
        proof {
            lemma_models(body@);
            assert(models(body@) =~= seq![*self].map_values(|r: Response| response_model(r)));
        }
        document_text(envelope_element(body))
    }
}

/// The wire text of one envelope that carries all of `responses`, in order.
pub fn responses_to_xml(responses: &Vec<Response>) -> (r: String)
    ensures
        r@ == envelope_text(responses@),
{
    let mut body: Vec<Element> = Vec::new();
    let n = responses.len();
    for i in 0..n
        invariant
            n == responses@.len(),
            body@.len() == i,
            forall|j: int| 0 <= j < i ==> #[trigger] body@[j]@ == response_model(responses@[j]),
    {
        body.push(responses[i].to_xml());
    }
    proof {
        lemma_models(body@);
        assert(models(body@) =~= responses@.map_values(|r: Response| response_model(r)));
    }
    document_text(envelope_element(body))
}

} // verus!
