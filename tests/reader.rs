use simple_soap::error::{Malformation, SoapError};
use simple_soap::reader::{parse_events, resolve_reference, Parser, Reader, Request, XmlEvent};
use simple_soap::xml::Element;

const REQUEST: &str = r#"<?xml version="1.0" encoding="UTF-8"?>
<SOAP-ENV:Envelope xmlns:SOAP-ENV="http://schemas.xmlsoap.org/soap/envelope/">
  <SOAP-ENV:Body>
    <ns1:Echo xmlns:ns1="urn:server">
      <value xsi:type="xsd:string">hello</value>
    </ns1:Echo>
  </SOAP-ENV:Body>
</SOAP-ENV:Envelope>"#;

fn args(r: &Request, name: &str) -> Option<String> {
    r.get(name).cloned()
}

#[test]
pub fn constructor() {
    let reader = Reader::from(REQUEST);
    assert!(reader.is_ok());
}

#[test]
pub fn read() {
    let requests = Reader::from(REQUEST).unwrap();
    assert_eq!(requests.len(), 1);
    assert_eq!(requests[0].operation, "Echo");
    assert_eq!(args(&requests[0], "value"), Some("hello".to_string()));
}

#[test]
fn add_envelope_yields_one_request() {
    let text = r#"<?xml version="1.0"?><SOAP-ENV:Envelope><SOAP-ENV:Body><Add><a>2</a><b>3</b></Add></SOAP-ENV:Body></SOAP-ENV:Envelope>"#;
    let requests = Reader::from(text).unwrap();
    assert_eq!(requests.len(), 1);
    assert_eq!(requests[0].operation, "Add");
    assert_eq!(args(&requests[0], "a"), Some("2".to_string()));
    assert_eq!(args(&requests[0], "b"), Some("3".to_string()));
    assert_eq!(args(&requests[0], "c"), None);
}

#[test]
fn two_declarations_are_malformed() {
    let text = r#"<?xml version="1.0"?><?xml version="1.0"?><Envelope><Body/></Envelope>"#;
    assert!(Reader::from(text).is_err());
}

#[test]
fn body_before_envelope_is_malformed() {
    let text = r#"<?xml version="1.0"?><Body><Envelope></Envelope></Body>"#;
    assert_eq!(
        Reader::from(text).unwrap_err(),
        SoapError::Malformed(Malformation::ExpectedEnvelope)
    );
}

#[test]
fn header_inside_envelope_is_malformed() {
    let text = r#"<?xml version="1.0"?><Envelope><Header/><Body/></Envelope>"#;
    assert_eq!(
        Reader::from(text).unwrap_err(),
        SoapError::Malformed(Malformation::ExpectedBody)
    );
}

#[test]
fn missing_declaration_is_malformed() {
    let text = r#"<Envelope><Body/></Envelope>"#;
    assert_eq!(
        Reader::from(text).unwrap_err(),
        SoapError::Malformed(Malformation::MissingDeclaration)
    );
}

#[test]
fn unfinished_document_is_malformed() {
    let events = vec![
        XmlEvent::Decl,
        XmlEvent::Start("Envelope".to_string()),
        XmlEvent::Start("Body".to_string()),
        XmlEvent::Start("Add".to_string()),
        XmlEvent::Start("a".to_string()),
        XmlEvent::Text("1".to_string()),
    ];
    assert_eq!(
        parse_events(&events).unwrap_err(),
        SoapError::Malformed(Malformation::Incomplete)
    );
}

#[test]
fn ill_formed_text_is_malformed() {
    let text = r#"<?xml version="1.0"?><Envelope><Body><Add><a>1</b></Add></Body></Envelope>"#;
    assert_eq!(
        Reader::from(text).unwrap_err(),
        SoapError::Malformed(Malformation::Syntax)
    );
}

#[test]
fn empty_body_yields_no_request() {
    let open = r#"<?xml version="1.0"?><Envelope><Body></Body></Envelope>"#;
    assert_eq!(Reader::from(open).unwrap().len(), 0);
    let empty = r#"<?xml version="1.0"?><Envelope><Body/></Envelope>"#;
    assert_eq!(Reader::from(empty).unwrap().len(), 0);
}

#[test]
fn argument_without_text_is_omitted() {
    let text = r#"<?xml version="1.0"?><Envelope><Body><Op><a></a><b/><c>x</c></Op></Body></Envelope>"#;
    let requests = Reader::from(text).unwrap();
    assert_eq!(requests.len(), 1);
    assert_eq!(args(&requests[0], "a"), None);
    assert_eq!(args(&requests[0], "b"), None);
    assert_eq!(args(&requests[0], "c"), Some("x".to_string()));
}

#[test]
fn repeated_argument_last_wins() {
    let text = r#"<?xml version="1.0"?><Envelope><Body><Op><a>1</a><a>2</a></Op></Body></Envelope>"#;
    let requests = Reader::from(text).unwrap();
    assert_eq!(args(&requests[0], "a"), Some("2".to_string()));
}

#[test]
fn several_operations_in_one_body() {
    let text = r#"<?xml version="1.0"?><e:Envelope><e:Body><One><x>1</x></One><m:Two/></e:Body></e:Envelope>"#;
    let requests = Reader::from(text).unwrap();
    assert_eq!(requests.len(), 2);
    assert_eq!(requests[0].operation, "One");
    assert_eq!(requests[1].operation, "Two");
    assert_eq!(args(&requests[1], "x"), None);
}

#[test]
fn tag_name_splits_prefix() {
    assert_eq!(
        Reader::tag_name("SOAP-ENV:Body"),
        ("SOAP-ENV".to_string(), "Body".to_string())
    );
    assert_eq!(Reader::tag_name("Body"), (String::new(), "Body".to_string()));
    assert_eq!(Reader::tag_name("a:b:c"), ("a".to_string(), "b".to_string()));
    assert_eq!(Reader::tag_name(":x"), (String::new(), "x".to_string()));
}

#[test]
fn parser_feeds_events_one_by_one() {
    let mut parser = Parser::new();
    let events = vec![
        XmlEvent::Decl,
        XmlEvent::Start("soap:Envelope".to_string()),
        XmlEvent::Start("soap:Body".to_string()),
        XmlEvent::Start("Echo".to_string()),
        XmlEvent::Start("v".to_string()),
        XmlEvent::Text("hi".to_string()),
        XmlEvent::End("v".to_string()),
        XmlEvent::Text("stray".to_string()),
        XmlEvent::End("Echo".to_string()),
    ];
    for e in events.iter() {
        assert!(parser.feed(e).is_ok());
    }
    let requests = parser.finish().unwrap();
    assert_eq!(requests.len(), 1);
    assert_eq!(args(&requests[0], "v"), Some("hi".to_string()));
    assert_eq!(requests[0].arguments.len(), 1);
}

#[test]
fn second_declaration_event_is_refused() {
    let mut parser = Parser::new();
    assert!(parser.feed(&XmlEvent::Decl).is_ok());
    assert_eq!(parser.feed(&XmlEvent::Decl), Err(Malformation::SecondDeclaration));
}

#[test]
fn references_join_the_argument_text() {
    let text = r#"<?xml version="1.0"?><Envelope><Body><Op><a>x &amp; y</a><b>&#65;&#x42;c</b><c>&lt;&gt;&quot;&apos;</c><d>&foo;</d></Op></Body></Envelope>"#;
    let requests = Reader::from(text).unwrap();
    assert_eq!(args(&requests[0], "a"), Some("x & y".to_string()));
    assert_eq!(args(&requests[0], "b"), Some("ABc".to_string()));
    assert_eq!(args(&requests[0], "c"), Some("<>\"'".to_string()));
    assert_eq!(args(&requests[0], "d"), Some("&foo;".to_string()));
}

#[test]
fn escaped_text_reads_back() {
    let original = "a<b & \"c\" > d";
    let escaped = Element::new_text(original).to_string();
    let text = format!(
        r#"<?xml version="1.0"?><Envelope><Body><Op><v>{}</v></Op></Body></Envelope>"#,
        escaped
    );
    let requests = Reader::from(&text).unwrap();
    assert_eq!(args(&requests[0], "v"), Some(original.to_string()));
}

#[test]
fn white_space_between_tags_is_ignored() {
    let text = "<?xml version=\"1.0\"?>\n<Envelope>\n  <Body>\n    <Op>\n      <a> 2 </a>\n      <b>\n        <x>1</x>\n      </b>\n    </Op>\n  </Body>\n</Envelope>\n";
    let requests = Reader::from(text).unwrap();
    assert_eq!(requests.len(), 1);
    assert_eq!(args(&requests[0], "a"), Some(" 2 ".to_string()));
    assert_eq!(args(&requests[0], "b"), None);
    assert_eq!(args(&requests[0], "x"), Some("1".to_string()));
}

#[test]
fn reference_event_extends_the_value() {
    let mut parser = Parser::new();
    let events = vec![
        XmlEvent::Decl,
        XmlEvent::Start("Envelope".to_string()),
        XmlEvent::Start("Body".to_string()),
        XmlEvent::Start("Op".to_string()),
        XmlEvent::Start("v".to_string()),
        XmlEvent::Text("1".to_string()),
        XmlEvent::Reference("lt".to_string()),
        XmlEvent::Text("2".to_string()),
        XmlEvent::End("v".to_string()),
        XmlEvent::End("Op".to_string()),
    ];
    for e in events.iter() {
        assert!(parser.feed(e).is_ok());
    }
    let requests = parser.finish().unwrap();
    assert_eq!(args(&requests[0], "v"), Some("1<2".to_string()));
}

#[test]
fn references_resolve_to_text() {
    assert_eq!(resolve_reference("amp"), "&");
    assert_eq!(resolve_reference("#x41"), "A");
    assert_eq!(resolve_reference("#97"), "a");
    assert_eq!(resolve_reference("nbsp"), "&nbsp;");
}
