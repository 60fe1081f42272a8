//! The interface document: a description of every registered operation, its
//! messages, its binding and the service address.
use crate::service::{Operation, Options};
use crate::types::{xsd_name, Part};
use crate::xml::{children_of, tag_of, attrs_model, lemma_models, lemma_models_push, models, render_document, Document, Element, ElementModel};
use vstd::prelude::*;

verus! {

pub open spec fn wsdl_ns() -> Seq<char> {
    "http://schemas.xmlsoap.org/wsdl/"@
}

pub open spec fn encoding_ns() -> Seq<char> {
    "http://schemas.xmlsoap.org/soap/encoding/"@
}

/// An element without attributes or children.
pub open spec fn empty_node(tag: Seq<char>, attrs: Seq<(Seq<char>, Seq<char>)>) -> ElementModel {
    ElementModel::Node(tag, attrs, Seq::empty())
}

/// `<part name=".." type=".."/>` for one declared value.
pub open spec fn part_model(p: (String, Part)) -> ElementModel {
    empty_node("part"@, seq![("name"@, p.0@), ("type"@, xsd_name(p.1))])
}

pub open spec fn message_model(name: Seq<char>, parts: Seq<(String, Part)>) -> ElementModel {
    ElementModel::Node(
        "message"@,
        seq![("name"@, name)],
        parts.map_values(|p: (String, Part)| part_model(p)),
    )
}

/// The request message of an operation: one part per input.
pub open spec fn request_message<H>(op: Operation<H>) -> ElementModel {
    message_model(op.name@ + "Request"@, op.inputs@)
}

/// The response message of an operation: one part per output.
pub open spec fn response_message<H>(op: Operation<H>) -> ElementModel {
    message_model(op.name@ + "Response"@, op.outputs@)
}

/// The request and response messages of each operation, in order.
pub open spec fn messages<H>(ops: Seq<Operation<H>>) -> Seq<ElementModel>
    decreases ops.len(),
{
    if ops.len() == 0 {
        Seq::empty()
    } else {
        messages(ops.drop_last()) + seq![request_message(ops.last()), response_message(ops.last())]
    }
}

/// The port-type entry of an operation: its documentation and its two
/// messages.
pub open spec fn port_entry<H>(op: Operation<H>) -> ElementModel {
    ElementModel::Node(
        "operation"@,
        seq![("name"@, op.name@)],
        seq![
            ElementModel::Node("documentation"@, Seq::empty(), seq![ElementModel::Text(op.doc@)]),
            empty_node("input"@, seq![("message"@, "tns:"@ + op.name@ + "Request"@)]),
            empty_node("output"@, seq![("message"@, "tns:"@ + op.name@ + "Response"@)]),
        ],
    )
}

pub open spec fn port_type<H>(service: Seq<char>, ops: Seq<Operation<H>>) -> ElementModel {
    ElementModel::Node(
        "portType"@,
        seq![("name"@, service + "PortType"@)],
        ops.map_values(|op: Operation<H>| port_entry(op)),
    )
}

/// `urn:namespace.operation`.
pub open spec fn action_ns(ns: Seq<char>, name: Seq<char>) -> Seq<char> {
    "urn:"@ + ns + seq!['.'] + name
}

pub open spec fn soap_body(ns: Seq<char>, name: Seq<char>) -> ElementModel {
    empty_node(
        "soap:body"@,
        seq![
            ("use"@, "encoded"@),
            ("namespace"@, action_ns(ns, name)),
            ("encodingStyle"@, encoding_ns()),
        ],
    )
}

/// The binding entry of an operation: its SOAP action and encoded bodies.
pub open spec fn binding_entry<H>(ns: Seq<char>, op: Operation<H>) -> ElementModel {
    ElementModel::Node(
        "operation"@,
        seq![("name"@, op.name@)],
        seq![
            empty_node(
                "soap:operation"@,
                seq![
                    ("soapAction"@, action_ns(ns, op.name@) + seq!['#'] + op.name@),
                    ("style"@, "rpc"@),
                ],
            ),
            ElementModel::Node("input"@, Seq::empty(), seq![soap_body(ns, op.name@)]),
            ElementModel::Node("output"@, Seq::empty(), seq![soap_body(ns, op.name@)]),
        ],
    )
}

pub open spec fn binding<H>(ns: Seq<char>, service: Seq<char>, ops: Seq<Operation<H>>) -> ElementModel {
    ElementModel::Node(
        "binding"@,
        seq![("name"@, service + "Binding"@), ("type"@, "tns:"@ + service + "PortType"@)],
        seq![
            empty_node(
                "soap:binding"@,
                seq![("style"@, "rpc"@), ("transport"@, "http://schemas.xmlsoap.org/soap/http"@)],
            ),
        ] + ops.map_values(|op: Operation<H>| binding_entry(ns, op)),
    )
}

/// The service element: one port at the advertised address.
pub open spec fn service_model(service: Seq<char>, uri: Seq<char>) -> ElementModel {
    ElementModel::Node(
        "service"@,
        seq![("name"@, service)],
        seq![
            ElementModel::Node(
                "port"@,
                seq![("name"@, service + "Port"@), ("binding"@, "tns:"@ + service + "Binding"@)],
                seq![empty_node("soap:address"@, seq![("location"@, uri)])],
            ),
        ],
    )
}

/// The schema imports: SOAP encoding and WSDL, not inlined; the schema's
/// target namespace is the configured namespace itself.
pub open spec fn types_model(ns: Seq<char>) -> ElementModel {
    ElementModel::Node(
        "types"@,
        Seq::empty(),
        seq![
            ElementModel::Node(
                "xsd:schema"@,
                seq![("targetNamespace"@, ns)],
                seq![
                    empty_node("xsd:import"@, seq![("namespace"@, encoding_ns())]),
                    empty_node("xsd:import"@, seq![("namespace"@, wsdl_ns())]),
                ],
            ),
        ],
    )
}

pub open spec fn definitions_attrs(tns: Seq<char>) -> Seq<(Seq<char>, Seq<char>)> {
    seq![
        ("xmlns"@, wsdl_ns()),
        ("xmlns:soap"@, "http://schemas.xmlsoap.org/wsdl/soap/"@),
        ("xmlns:xsd"@, "http://www.w3.org/2001/XMLSchema"@),
        ("xmlns:xsi"@, "http://www.w3.org/2001/XMLSchema-instance"@),
        ("xmlns:SOAP-ENV"@, "http://schemas.xmlsoap.org/soap/envelope/"@),
        ("xmlns:SOAP-ENC"@, encoding_ns()),
        ("xmlns:tns"@, tns),
        ("targetNamespace"@, tns),
    ]
}

/// The interface document of a service with target namespace `ns`, display
/// name `service` and address `uri`: imports, the messages, the port type,
/// the binding and the service, in that order.
pub open spec fn definitions<H>(
    ns: Seq<char>,
    service: Seq<char>,
    uri: Seq<char>,
    ops: Seq<Operation<H>>,
) -> ElementModel {
    ElementModel::Node(
        "definitions"@,
        definitions_attrs("urn:"@ + ns),
        seq![types_model(ns)] + messages(ops) + seq![
            port_type(service, ops),
            binding(ns, service, ops),
            service_model(service, uri),
        ],
    )
}

/// The text of the interface document.
pub open spec fn schema_text<H>(
    ns: Seq<char>,
    service: Seq<char>,
    uri: Seq<char>,
    ops: Seq<Operation<H>>,
) -> Seq<char> {
    render_document("UTF-8"@, definitions(ns, service, uri, ops))
}

/// The `2i`th and `2i+1`th messages are the request and the response of
/// the `i`th operation.
pub proof fn lemma_messages<H>(ops: Seq<Operation<H>>)
    ensures
        messages(ops).len() == 2 * ops.len(),
        forall|i: int|
            0 <= i < ops.len() ==> #[trigger] messages(ops)[2 * i] == request_message(ops[i])
                && messages(ops)[2 * i + 1] == response_message(ops[i]),
    decreases ops.len(),
{
    if ops.len() > 0 {
        let init = ops.drop_last();
        lemma_messages(init);
        assert forall|i: int| 0 <= i < ops.len() implies #[trigger] messages(ops)[2 * i]
            == request_message(ops[i]) && messages(ops)[2 * i + 1] == response_message(ops[i]) by {
            if i < init.len() {
                assert(init[i] == ops[i]);
                assert(messages(init)[2 * i] == request_message(init[i]));
            }
        }
    }
}

/// The interface document lists, after its imports, exactly one request
/// message and one response message per operation, in registry order, and no
/// other child is a message; its port type holds exactly one entry per
/// operation, in the same order, each under the operation's name.
pub proof fn lemma_schema_lists_operations<H>(
    ns: Seq<char>,
    service: Seq<char>,
    uri: Seq<char>,
    ops: Seq<Operation<H>>,
)
    ensures
        ({
            let cs = children_of(definitions(ns, service, uri, ops));
            let n = ops.len() as int;
            &&& cs.len() == 2 * n + 4
            &&& forall|i: int|
                0 <= i < n ==> #[trigger] cs[1 + 2 * i] == request_message(ops[i]) && cs[2 + 2 * i]
                    == response_message(ops[i])
            &&& forall|k: int| 0 <= k < cs.len() ==> (tag_of(#[trigger] cs[k]) == "message"@ <==> 1 <= k <= 2 * n)
            &&& cs[2 * n + 1] == port_type(service, ops)
            &&& children_of(cs[2 * n + 1]).len() == n
            &&& forall|i: int|
                0 <= i < n ==> #[trigger] children_of(cs[2 * n + 1])[i] == port_entry(ops[i])
        }),
{
    let cs = children_of(definitions(ns, service, uri, ops));
    let n = ops.len() as int;
    let ms = messages(ops);
    lemma_messages(ops);
    reveal_strlit("message");
    reveal_strlit("types");
    reveal_strlit("portType");
    reveal_strlit("binding");
    reveal_strlit("service");
    assert("types"@ != "message"@ && "portType"@ != "message"@) by {
        assert("types"@.len() != "message"@.len());
        assert("portType"@.len() != "message"@.len());
    }
    assert("binding"@ != "message"@) by {
        assert("binding"@[0] != "message"@[0]);
    }
    assert("service"@ != "message"@) by {
        assert("service"@[0] != "message"@[0]);
    }
    assert forall|i: int| 0 <= i < n implies #[trigger] cs[1 + 2 * i] == request_message(ops[i])
        && cs[2 + 2 * i] == response_message(ops[i]) by {
        assert(cs[1 + 2 * i] == ms[2 * i]);
        assert(cs[2 + 2 * i] == ms[2 * i + 1]);
    }
    assert forall|k: int| 0 <= k < cs.len() implies (tag_of(#[trigger] cs[k]) == "message"@ <==> 1
        <= k <= 2 * n) by {
        if 1 <= k <= 2 * n {
            let i = (k - 1) / 2;
            if k % 2 == 1 {
                assert(k == 1 + 2 * i);
                assert(cs[1 + 2 * i] == request_message(ops[i]));
            } else {
                assert(k == 2 + 2 * i);
                assert(cs[2 + 2 * i] == response_message(ops[i]));
            }
        }
    }
}

fn join(a: &str, b: &str) -> (r: String)
    ensures
        r@ == a@ + b@,
{
    let mut s = String::from_str(a);
    s.append(b);
    s
}

fn join3(a: &str, b: &str, c: &str) -> (r: String)
    ensures
        r@ == a@ + b@ + c@,
{
    let mut s = String::from_str(a);
    s.append(b);
    s.append(c);
    s
}

fn attr(k: &str, v: &str) -> (r: (String, String))
    ensures
        r.0@ == k@,
        r.1@ == v@,
{
    (String::from_str(k), String::from_str(v))
}

fn leaf(tag: &str, attrs: Vec<(String, String)>) -> (r: Element)
    ensures
        r@ == empty_node(tag@, attrs_model(attrs@)),
{
    let r = Element::node(String::from_str(tag), attrs, Vec::new());
    assert(models(Seq::<Element>::empty()) =~= Seq::empty());
    r
}

fn part_element(p: &(String, Part)) -> (r: Element)
    ensures
        r@ == part_model(*p),
{
    let ty = p.1.xsd_type();
    let attrs = vec![attr("name", p.0.as_str()), attr("type", ty.as_str())];
    assert(attrs_model(attrs@) =~= seq![("name"@, p.0@), ("type"@, xsd_name(p.1))]);
    leaf("part", attrs)
}

fn message_element(name: &str, suffix: &str, parts: &Vec<(String, Part)>) -> (r: Element)
    ensures
        r@ == message_model(name@ + suffix@, parts@),
{
    let mut children: Vec<Element> = Vec::new();
    let n = parts.len();
    for i in 0..n
        invariant
            n == parts@.len(),
            children@.len() == i,
            forall|j: int| 0 <= j < i ==> #[trigger] children@[j]@ == part_model(parts@[j]),
    {
        children.push(part_element(&parts[i]));
    }
    let full = join(name, suffix);
    let attrs = vec![attr("name", full.as_str())];
    proof {
        lemma_models(children@);
        assert(models(children@) =~= parts@.map_values(|p: (String, Part)| part_model(p)));
        assert(attrs_model(attrs@) =~= seq![("name"@, name@ + suffix@)]);
    }
    Element::node(String::from_str("message"), attrs, children)
}

fn port_entry_element<H>(op: &Operation<H>) -> (r: Element)
    ensures
        r@ == port_entry(*op),
{
    let name = op.name.as_str();
    let doc_children = vec![Element::new_text(op.doc.as_str())];
    proof {
        lemma_models(doc_children@);
        assert(models(doc_children@) =~= seq![ElementModel::Text(op.doc@)]);
    }
    let doc = Element::node(String::from_str("documentation"), Vec::new(), doc_children);
    let input_message = join3("tns:", name, "Request");
    let output_message = join3("tns:", name, "Response");
    let input_attrs = vec![attr("message", input_message.as_str())];
    let output_attrs = vec![attr("message", output_message.as_str())];
    proof {
        assert(attrs_model(input_attrs@) =~= seq![("message"@, "tns:"@ + op.name@ + "Request"@)]);
        assert(attrs_model(output_attrs@) =~= seq![
            ("message"@, "tns:"@ + op.name@ + "Response"@),
        ]);
    }
    let input = leaf("input", input_attrs);
    let output = leaf("output", output_attrs);
    let attrs = vec![attr("name", name)];
    let children = vec![doc, input, output];
    proof {
        assert(attrs_model(Seq::<(String, String)>::empty()) =~= Seq::empty());
        lemma_models(children@);
        assert(models(children@) =~= port_entry(*op)->2);
        assert(attrs_model(attrs@) =~= seq![("name"@, op.name@)]);
    }
    Element::node(String::from_str("operation"), attrs, children)
}

fn soap_body_element(ns: &str, name: &str) -> (r: Element)
    ensures
        r@ == soap_body(ns@, name@),
{
    let mut action = join3("urn:", ns, ".");
    action.append(name);
    let attrs = vec![
        attr("use", "encoded"),
        attr("namespace", action.as_str()),
        attr("encodingStyle", "http://schemas.xmlsoap.org/soap/encoding/"),
    ];
    proof {
        reveal_strlit(".");
        assert("."@ =~= seq!['.']);
        assert(attrs_model(attrs@) =~= soap_body(ns@, name@)->1);
    }
    leaf("soap:body", attrs)
}

fn binding_entry_element<H>(ns: &str, op: &Operation<H>) -> (r: Element)
    ensures
        r@ == binding_entry(ns@, *op),
{
    let name = op.name.as_str();
    let mut action = join3("urn:", ns, ".");
    action.append(name);
    action.append("#");
    action.append(name);
    let op_attrs = vec![attr("soapAction", action.as_str()), attr("style", "rpc")];
    proof {
        reveal_strlit(".");
        reveal_strlit("#");
        assert("."@ =~= seq!['.']);
        assert("#"@ =~= seq!['#']);
        assert(attrs_model(op_attrs@) =~= seq![
            ("soapAction"@, action_ns(ns@, op.name@) + seq!['#'] + op.name@),
            ("style"@, "rpc"@),
        ]);
    }
    let soap_op = leaf("soap:operation", op_attrs);
    let in_body = vec![soap_body_element(ns, name)];
    let out_body = vec![soap_body_element(ns, name)];
    proof {
        lemma_models(in_body@);
        lemma_models(out_body@);
        assert(models(in_body@) =~= seq![soap_body(ns@, name@)]);
        assert(models(out_body@) =~= seq![soap_body(ns@, name@)]);
    }
    let input = Element::node(String::from_str("input"), Vec::new(), in_body);
    let output = Element::node(String::from_str("output"), Vec::new(), out_body);
    let attrs = vec![attr("name", name)];
    let children = vec![soap_op, input, output];
    proof {
        reveal_strlit(".");
        reveal_strlit("#");
        assert("."@ =~= seq!['.']);
        assert("#"@ =~= seq!['#']);
        assert(attrs_model(Seq::<(String, String)>::empty()) =~= Seq::empty());
        lemma_models(children@);
        assert(models(children@) =~= binding_entry(ns@, *op)->2);
        assert(attrs_model(attrs@) =~= seq![("name"@, op.name@)]);
    }
    Element::node(String::from_str("operation"), attrs, children)
}


fn port_type_element<H>(service: &str, ops: &Vec<Operation<H>>) -> (r: Element)
    ensures
        r@ == port_type(service@, ops@),
{
    let mut children: Vec<Element> = Vec::new();
    let n = ops.len();
    for i in 0..n
        invariant
            n == ops@.len(),
            children@.len() == i,
            forall|j: int| 0 <= j < i ==> #[trigger] children@[j]@ == port_entry(ops@[j]),
    {
        children.push(port_entry_element(&ops[i]));
    }
    let name = join(service, "PortType");
    let attrs = vec![attr("name", name.as_str())];
    proof {
        lemma_models(children@);
        assert(models(children@) =~= ops@.map_values(|op: Operation<H>| port_entry(op)));
        assert(attrs_model(attrs@) =~= seq![("name"@, service@ + "PortType"@)]);
    }
    Element::node(String::from_str("portType"), attrs, children)
}

fn binding_element<H>(ns: &str, service: &str, ops: &Vec<Operation<H>>) -> (r: Element)
    ensures
        r@ == binding(ns@, service@, ops@),
{
    let soap_attrs = vec![attr("style", "rpc"), attr("transport", "http://schemas.xmlsoap.org/soap/http")];
    proof {
        assert(attrs_model(soap_attrs@) =~= seq![
            ("style"@, "rpc"@),
            ("transport"@, "http://schemas.xmlsoap.org/soap/http"@),
        ]);
    }
    let mut children: Vec<Element> = Vec::new();
    children.push(leaf("soap:binding", soap_attrs));
    let ghost first = children@[0]@;
    let n = ops.len();
    for i in 0..n
        invariant
            n == ops@.len(),
            children@.len() == i + 1,
            children@[0]@ == first,
            first == empty_node(
                "soap:binding"@,
                seq![("style"@, "rpc"@), ("transport"@, "http://schemas.xmlsoap.org/soap/http"@)],
            ),
            forall|j: int| 1 <= j <= i ==> #[trigger] children@[j]@ == binding_entry(ns@, ops@[j - 1]),
    {
        children.push(binding_entry_element(ns, &ops[i]));
    }
    let name = join(service, "Binding");
    let port = join3("tns:", service, "PortType");
    let attrs = vec![attr("name", name.as_str()), attr("type", port.as_str())];
    proof {
        lemma_models(children@);
        assert(models(children@) =~= binding(ns@, service@, ops@)->2);
        assert(attrs_model(attrs@) =~= binding(ns@, service@, ops@)->1);
    }
    Element::node(String::from_str("binding"), attrs, children)
}

fn service_element(service: &str, uri: &str) -> (r: Element)
    ensures
        r@ == service_model(service@, uri@),
{
    let address_attrs = vec![attr("location", uri)];
    let port_name = join(service, "Port");
    let binding_name = join3("tns:", service, "Binding");
    let port_attrs = vec![attr("name", port_name.as_str()), attr("binding", binding_name.as_str())];
    let attrs = vec![attr("name", service)];
    proof {
        assert(attrs_model(address_attrs@) =~= seq![("location"@, uri@)]);
        assert(attrs_model(port_attrs@) =~= seq![
            ("name"@, service@ + "Port"@),
            ("binding"@, "tns:"@ + service@ + "Binding"@),
        ]);
        assert(attrs_model(attrs@) =~= seq![("name"@, service@)]);
    }
    let port_children = vec![leaf("soap:address", address_attrs)];
    proof {
        lemma_models(port_children@);
        assert(models(port_children@) =~= service_model(service@, uri@)->2[0]->2);
    }
    let port = Element::node(String::from_str("port"), port_attrs, port_children);
    let children = vec![port];
    proof {
        lemma_models(children@);
        assert(models(children@) =~= service_model(service@, uri@)->2);
    }
    Element::node(String::from_str("service"), attrs, children)
}

fn types_element(ns: &str) -> (r: Element)
    ensures
        r@ == types_model(ns@),
{
    let enc_attrs = vec![attr("namespace", "http://schemas.xmlsoap.org/soap/encoding/")];
    let wsdl_attrs = vec![attr("namespace", "http://schemas.xmlsoap.org/wsdl/")];
    let schema_attrs = vec![attr("targetNamespace", ns)];
    proof {
        assert(attrs_model(enc_attrs@) =~= seq![("namespace"@, encoding_ns())]);
        assert(attrs_model(wsdl_attrs@) =~= seq![("namespace"@, wsdl_ns())]);
        assert(attrs_model(schema_attrs@) =~= seq![("targetNamespace"@, ns@)]);
    }
    let imports = vec![leaf("xsd:import", enc_attrs), leaf("xsd:import", wsdl_attrs)];
    proof {
        lemma_models(imports@);
        assert(models(imports@) =~= types_model(ns@)->2[0]->2);
    }
    let schema = Element::node(String::from_str("xsd:schema"), schema_attrs, imports);
    let children = vec![schema];
    proof {
        lemma_models(children@);
        assert(models(children@) =~= types_model(ns@)->2);
        assert(attrs_model(Seq::<(String, String)>::empty()) =~= Seq::empty());
    }
    Element::node(String::from_str("types"), Vec::new(), children)
}

proof fn lemma_messages_push<H>(ops: Seq<Operation<H>>, op: Operation<H>)
    ensures
        messages(ops.push(op)) == messages(ops) + seq![request_message(op), response_message(op)],
{
    assert(ops.push(op).drop_last() == ops);
}

/// The interface document's root element.
pub fn definitions_element<H>(options: &Options, uri: &str, ops: &Vec<Operation<H>>) -> (r: Element)
    ensures
        r@ == definitions(options.namespace@, options.service_name@, uri@, ops@),
{
    let ns = options.namespace.as_str();
    let service = options.service_name.as_str();
    let tns = join("urn:", ns);
    let mut children: Vec<Element> = Vec::new();
    children.push(types_element(ns));
    proof {
        lemma_models(children@);
        assert(ops@.take(0) =~= Seq::<Operation<H>>::empty());
        assert(models(children@) =~= seq![types_model(ns@)] + messages(ops@.take(0)));
    }
    let n = ops.len();
    for i in 0..n
        invariant
            n == ops@.len(),
            models(children@) == seq![types_model(ns@)] + messages(ops@.take(i as int)),
    {
        let request = message_element(ops[i].name.as_str(), "Request", &ops[i].inputs);
        let response = message_element(ops[i].name.as_str(), "Response", &ops[i].outputs);
        proof {
            assert(request@ == request_message(ops@[i as int]));
            assert(response@ == response_message(ops@[i as int]));
            assert(ops@.take(i + 1) == ops@.take(i as int).push(ops@[i as int]));
            lemma_messages_push(ops@.take(i as int), ops@[i as int]);
            lemma_models_push(children@, request);
            lemma_models_push(children@.push(request), response);
            assert(models(children@.push(request).push(response)) =~= seq![
                types_model(ns@),
            ] + messages(ops@.take(i + 1)));
        }
        children.push(request);
        children.push(response);
    }
    let ghost before = children@;
    children.push(port_type_element(service, ops));
    children.push(binding_element(ns, service, ops));
    children.push(service_element(service, uri));
    let attrs = vec![
        attr("xmlns", "http://schemas.xmlsoap.org/wsdl/"),
        attr("xmlns:soap", "http://schemas.xmlsoap.org/wsdl/soap/"),
        attr("xmlns:xsd", "http://www.w3.org/2001/XMLSchema"),
        attr("xmlns:xsi", "http://www.w3.org/2001/XMLSchema-instance"),
        attr("xmlns:SOAP-ENV", "http://schemas.xmlsoap.org/soap/envelope/"),
        attr("xmlns:SOAP-ENC", "http://schemas.xmlsoap.org/soap/encoding/"),
        attr("xmlns:tns", tns.as_str()),
        attr("targetNamespace", tns.as_str()),
    ];
    proof {
        assert(ops@.take(n as int) == ops@);
        assert(attrs_model(attrs@) =~= definitions_attrs("urn:"@ + ns@));
        lemma_models(children@);
        lemma_models(before);
        assert(models(children@) =~= definitions(ns@, service@, uri@, ops@)->2);
    }
    Element::node(String::from_str("definitions"), attrs, children)
}

/// The text of the interface document.
pub fn generate<H>(options: &Options, uri: &str, ops: &Vec<Operation<H>>) -> (r: String)
    ensures
        r@ == schema_text(options.namespace@, options.service_name@, uri@, ops@),
{
    let mut document = Document::new("UTF-8");
    document.set_root(definitions_element(options, uri, ops));
    document.to_string()
}

} // verus!
