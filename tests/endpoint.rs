use simple_soap::endpoint::{route_of, Endpoint, Route};
use simple_soap::types::{type_to_xsd, Type};

#[test]
fn uri_omits_default_port() {
    assert_eq!(Endpoint::new("localhost", 80).get_uri(), "http://localhost/");
    assert_eq!(Endpoint::new("example.org", 8080).get_uri(), "http://example.org:8080/");
    let mut secure = Endpoint::new("h", 443);
    secure.ssl = true;
    assert_eq!(secure.get_uri(), "https://h:443/");
    assert_eq!(Endpoint::default().get_uri(), "http://localhost/");
}

#[test]
fn bind_address_carries_port() {
    assert_eq!(Endpoint::new("h", 1337).get_bind(), "0.0.0.0:1337");
    assert_eq!(Endpoint::new_with_bind("h", "127.0.0.1", 0).get_bind(), "127.0.0.1:0");
    assert_eq!(Endpoint::new("h", 65535).get_bind(), "0.0.0.0:65535");
}

#[test]
fn routes_by_path() {
    assert_eq!(route_of("/"), Route::Rpc);
    assert_eq!(route_of("/?wsdl"), Route::Schema);
    assert_eq!(route_of("/other"), Route::NotFound);
    assert_eq!(route_of(""), Route::NotFound);
}

#[test]
fn declared_kinds_name_their_schema_type() {
    assert_eq!(type_to_xsd(Type::String), "xsd:string");
    assert_eq!(type_to_xsd(Type::Int), "xsd:int");
    assert_eq!(type_to_xsd(Type::Float), "xsd:float");
    assert_eq!(type_to_xsd(Type::Void), "xsd:anyType");
}
