use simple_soap::fault::{typed_element, Fault, FaultCode};
use simple_soap::response::{responses_to_xml, Response};
use simple_soap::types::Part;

#[test]
fn echo_response_round_trip() {
    let response = Response::from(
        "Echo",
        vec![("value".to_string(), Part::String("hi".to_string()))],
    );
    let text = response.to_xml_string();
    let start = text.find("<ns1:EchoResponse>").expect("response element");
    let ret = text
        .find(r#"<return xsi:type="xsd:string">hi</return>"#)
        .expect("return element");
    let end = text.find("</ns1:EchoResponse>").expect("end of response element");
    assert!(start < ret && ret < end);
}

#[test]
fn envelope_carries_four_namespaces() {
    let text = Response::from("Ping", vec![]).to_xml_string();
    assert_eq!(
        text,
        [
            r#"<?xml version="1.0" encoding="UTF-8"?>"#,
            r#"<SOAP-ENV:Envelope xmlns:xsd="http://www.w3.org/2001/XMLSchema""#,
            r#" xmlns:xsi="http://www.w3.org/2001/XMLSchema-instance""#,
            r#" xmlns:SOAP-ENV="http://schemas.xmlsoap.org/soap/envelope/""#,
            r#" xmlns:SOAP-ENC="http://schemas.xmlsoap.org/soap/encoding/">"#,
            r#"<SOAP-ENV:Body><ns1:PingResponse/></SOAP-ENV:Body></SOAP-ENV:Envelope>"#,
        ]
        .concat()
    );
}

// Every kind is typed `xsd:string`, and only the plain string kind renders its
// content: this reproduces the known limitation of the value model on purpose.
#[test]
fn non_string_values_render_empty_and_typed_as_string() {
    let response = Response::from(
        "Sum",
        vec![
            ("total".to_string(), Part::Int(5)),
            ("flag".to_string(), Part::Boolean(true)),
            ("when".to_string(), Part::Date("2020-01-01".to_string())),
        ],
    );
    let text = response.to_xml_string();
    assert!(text.contains(
        r#"<ns1:SumResponse><return xsi:type="xsd:string"/><return xsi:type="xsd:string"/><return xsi:type="xsd:string"/></ns1:SumResponse>"#
    ));
    assert_eq!(Part::Int(5).xsd_type(), "xsd:string");
    assert_eq!(Part::Decimal("1.5".to_string()).xsd_type(), "xsd:string");
    assert_eq!(Part::String("x".to_string()).content(), "x");
    assert_eq!(Part::Int(5).content(), "");
}

#[test]
fn string_content_is_escaped() {
    let response = Response::from(
        "Echo",
        vec![("v".to_string(), Part::String("a<b & \"c\"".to_string()))],
    );
    assert!(response
        .to_xml_string()
        .contains(r#"<return xsi:type="xsd:string">a&lt;b &amp; &quot;c&quot;</return>"#));
}

#[test]
fn fault_with_empty_string_keeps_faultstring() {
    let response = Response::Fault(Fault::server("", "", ""));
    let text = response.to_xml_string();
    assert!(text.contains(&[
        r#"<SOAP-ENV:Body><SOAP-ENV:Fault>"#,
        r#"<faultcode xsi:type="xsd:string">SOAP-ENV:Server</faultcode>"#,
        r#"<faultstring xsi:type="xsd:string"/>"#,
        r#"</SOAP-ENV:Fault></SOAP-ENV:Body>"#,
    ]
    .concat()));
}

#[test]
fn fault_with_actor_and_detail() {
    let fault = Fault::must_understand("why", "me", "more");
    assert_eq!(
        fault.to_xml().to_string(),
        [
            r#"<SOAP-ENV:Fault>"#,
            r#"<faultcode xsi:type="xsd:string">SOAP-ENV:MustUnderstand</faultcode>"#,
            r#"<faultstring xsi:type="xsd:string">why</faultstring>"#,
            r#"<faultactor xsi:type="xsd:string">me</faultactor>"#,
            r#"<detail xsi:type="xsd:string">more</detail>"#,
            r#"</SOAP-ENV:Fault>"#,
        ]
        .concat()
    );
}

#[test]
fn fault_codes_render_their_literals() {
    assert_eq!(
        FaultCode::VersionMismatch.to_xml().to_string(),
        r#"<faultcode xsi:type="xsd:string">SOAP-ENV:VersionMismatch</faultcode>"#
    );
    assert_eq!(
        FaultCode::Client.to_xml().to_string(),
        r#"<faultcode xsi:type="xsd:string">SOAP-ENV:Client</faultcode>"#
    );
    let f = Fault::version_mismatch("s", "", "d");
    assert_eq!(f.code, FaultCode::VersionMismatch);
    assert_eq!(f.detail, "d");
    assert_eq!(Fault::client("c", "", "").code, FaultCode::Client);
    assert_eq!(typed_element("x", "").to_string(), r#"<x xsi:type="xsd:string"/>"#);
}

#[test]
fn several_responses_share_one_body() {
    let rs = vec![
        Response::from("A", vec![]),
        Response::Fault(Fault::client("no", "", "")),
    ];
    let text = responses_to_xml(&rs);
    assert!(text.contains(r#"<SOAP-ENV:Body><ns1:AResponse/><SOAP-ENV:Fault>"#));
}

#[test]
fn not_found_names_the_operation() {
    match Response::not_found("Missing") {
        Response::Fault(f) => {
            assert_eq!(f.code, FaultCode::Client);
            assert_eq!(f.string, "Operation \"Missing\" is not defined for this service");
            assert_eq!(f.actor, "");
            assert_eq!(f.detail, "");
        }
        Response::Success(..) => panic!("expected a fault"),
    }
}
