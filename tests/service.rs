use simple_soap::fault::FaultCode;
use simple_soap::reader::Reader;
use simple_soap::response::Response;
use simple_soap::schema::generate;
use simple_soap::service::{bind, Handler, Operation, Options, Service};
use simple_soap::types::Part;
use std::cell::Cell;

struct Echo {
    calls: Cell<u32>,
    tag: &'static str,
}

impl Handler for Echo {
    fn call(&self, inputs: &Vec<(String, Part)>) -> Vec<(String, Part)> {
        self.calls.set(self.calls.get() + 1);
        let mut out = vec![];
        for (name, value) in inputs {
            if let Part::String(s) = value {
                out.push((name.clone(), Part::String(format!("{}{}", self.tag, s))));
            }
        }
        out
    }
}

fn op(name: &str, doc: &str, inputs: &[&str], tag: &'static str) -> Operation<Echo> {
    Operation {
        doc: doc.to_string(),
        name: name.to_string(),
        inputs: inputs
            .iter()
            .map(|n| (n.to_string(), Part::String(String::new())))
            .collect(),
        outputs: vec![("value".to_string(), Part::String(String::new()))],
        handler: Echo { calls: Cell::new(0), tag },
    }
}

fn envelope(body: &str) -> String {
    format!(
        r#"<?xml version="1.0"?><SOAP-ENV:Envelope><SOAP-ENV:Body>{}</SOAP-ENV:Body></SOAP-ENV:Envelope>"#,
        body
    )
}

#[test]
fn lookup_after_register_and_replace() {
    let mut service: Service<Echo> = Service::new("localhost", 80);
    service.add_operation(op("Foo", "first", &[], "1:"));
    service.add_operation(op("Bar", "bar", &[], "b:"));
    assert_eq!(service.lookup("Foo").unwrap().doc, "first");
    assert_eq!(service.lookup("Bar").unwrap().doc, "bar");
    assert!(service.lookup("Baz").is_none());
    service.add_operation(op("Foo", "second", &["v"], "2:"));
    assert_eq!(service.lookup("Foo").unwrap().doc, "second");
    assert_eq!(service.operations().len(), 2);
    assert_eq!(service.operations()[0].name, "Foo");

    let requests = Reader::from(&envelope("<Foo><v>x</v></Foo>")).unwrap();
    match service.dispatch(&requests[0]) {
        Response::Success(name, outputs) => {
            assert_eq!(name, "Foo");
            assert!(matches!(&outputs[0].1, Part::String(s) if s == "2:x"));
        }
        Response::Fault(_) => panic!("expected success"),
    }
    assert_eq!(service.lookup("Foo").unwrap().handler.calls.get(), 1);
}

#[test]
fn unknown_operation_is_client_fault() {
    let service: Service<Echo> = Service::new("localhost", 80);
    let requests = Reader::from(&envelope("<Nope/>")).unwrap();
    match service.dispatch(&requests[0]) {
        Response::Fault(f) => {
            assert_eq!(f.code, FaultCode::Client);
            assert_eq!(f.string, "Operation \"Nope\" is not defined for this service");
            assert!(f.string.contains("Nope"));
            assert_eq!(f.actor, "");
            assert_eq!(f.detail, "");
        }
        Response::Success(..) => panic!("expected fault"),
    }
}

#[test]
fn missing_argument_is_client_fault() {
    let mut service: Service<Echo> = Service::new("localhost", 80);
    service.add_operation(op("Add", "adds", &["a", "b"], ""));
    let requests = Reader::from(&envelope("<Add><a>1</a></Add>")).unwrap();
    match service.dispatch(&requests[0]) {
        Response::Fault(f) => {
            assert_eq!(f.code, FaultCode::Client);
            assert_eq!(f.string, "Argument \"b\" is missing for operation \"Add\"");
        }
        Response::Success(..) => panic!("expected fault"),
    }
    assert_eq!(service.lookup("Add").unwrap().handler.calls.get(), 0);
}

#[test]
fn bind_follows_declared_order() {
    let operation = op("Add", "adds", &["b", "a"], "");
    let requests = Reader::from(&envelope("<Add><a>1</a><b>2</b><c>3</c></Add>")).unwrap();
    let bound = bind(&operation, &requests[0]).ok().unwrap();
    assert_eq!(bound.len(), 2);
    assert_eq!(bound[0].0, "b");
    assert!(matches!(&bound[0].1, Part::String(s) if s == "2"));
    assert_eq!(bound[1].0, "a");
    assert!(matches!(&bound[1].1, Part::String(s) if s == "1"));
}

#[test]
fn respond_renders_each_call() {
    let mut service: Service<Echo> = Service::new("localhost", 80);
    service.add_operation(op("Echo", "echoes", &["value"], ""));
    let text = service
        .respond(&envelope("<Echo><value>hi</value></Echo>"))
        .unwrap();
    assert!(text.contains(r#"<ns1:EchoResponse><return xsi:type="xsd:string">hi</return></ns1:EchoResponse>"#));
    assert!(service.respond("<Envelope/>").is_err());
}

#[test]
fn schema_lists_each_operation_once() {
    let mut service: Service<Echo> = Service::new("localhost", 80);
    service.add_operation(op("Foo", "does foo", &["x"], ""));
    service.add_operation(op("Bar", "does bar", &[], ""));
    let text = service.wsdl();
    assert_eq!(text.matches("<message ").count(), 4);
    assert_eq!(text.matches(r#"<message name="FooRequest">"#).count(), 1);
    assert_eq!(text.matches(r#"<message name="FooResponse">"#).count(), 1);
    assert_eq!(text.matches(r#"<message name="BarRequest"/>"#).count(), 1);
    assert_eq!(text.matches(r#"<message name="BarResponse">"#).count(), 1);
    let port = text.find("<portType").unwrap();
    let binding = text.find("<binding").unwrap();
    let entries = &text[port..binding];
    let foo = entries.find(r#"<operation name="Foo">"#).unwrap();
    let bar = entries.find(r#"<operation name="Bar">"#).unwrap();
    assert!(foo < bar);
    assert_eq!(entries.matches("<operation ").count(), 2);
    assert!(text.contains(r#"<soap:operation soapAction="urn:server.Foo#Foo" style="rpc"/>"#));
    assert!(text.contains(r#"<soap:address location="http://localhost/"/>"#));
    assert!(text.contains(r#"<portType name="ServicePortType">"#));
    assert!(text.contains(r#"<part name="x" type="xsd:string"/>"#));
}

#[test]
fn schema_is_cached_until_registration() {
    let mut service: Service<Echo> = Service::new("localhost", 8080);
    service.add_operation(op("Foo", "foo", &[], ""));
    let first = service.wsdl();
    let second = service.wsdl();
    assert_eq!(first, second);
    service.add_operation(op("Bar", "bar", &[], ""));
    let third = service.wsdl();
    assert_ne!(first, third);
    assert!(third.contains("BarRequest"));
    assert_eq!(
        third,
        generate(service.options(), "http://localhost:8080/", service.operations())
    );
}

#[test]
fn options_shape_the_document() {
    let opts = Options {
        bind_addr: "127.0.0.1".to_string(),
        namespace: "calc".to_string(),
        service_name: "Calculator".to_string(),
    };
    let mut service: Service<Echo> = Service::new_with_opts("calc.example", 81, opts);
    assert_eq!(service.endpoint().get_bind(), "127.0.0.1:81");
    assert_eq!(service.get_uri(), "http://calc.example:81/");
    service.add_operation(op("Add", "adds", &[], ""));
    let text = service.wsdl();
    assert!(text.starts_with(r#"<?xml version="1.0" encoding="UTF-8"?><definitions xmlns="http://schemas.xmlsoap.org/wsdl/""#));
    assert!(text.contains(r#"xmlns:tns="urn:calc" targetNamespace="urn:calc">"#));
    assert!(text.contains(r#"<binding name="CalculatorBinding" type="tns:CalculatorPortType">"#));
    assert!(text.contains(r#"<service name="Calculator"><port name="CalculatorPort" binding="tns:CalculatorBinding">"#));
    assert!(text.contains(r#"<soap:body use="encoded" namespace="urn:calc.Add" encodingStyle="http://schemas.xmlsoap.org/soap/encoding/"/>"#));
    let defaults = Options::default();
    assert_eq!(defaults.namespace, "server");
    assert_eq!(defaults.service_name, "Service");
    assert_eq!(defaults.bind_addr, "");
}
