//! Where a service is reached and bound, and how request paths are routed.
use crate::xml::push_char;
use vstd::prelude::*;

verus! {

/// The decimal digit for `d`.
pub open spec fn digit_char(d: int) -> char {
    if d == 0 {
        '0'
    } else if d == 1 {
        '1'
    } else if d == 2 {
        '2'
    } else if d == 3 {
        '3'
    } else if d == 4 {
        '4'
    } else if d == 5 {
        '5'
    } else if d == 6 {
        '6'
    } else if d == 7 {
        '7'
    } else if d == 8 {
        '8'
    } else {
        '9'
    }
}

/// The decimal text of `n`, without leading zeros.
pub open spec fn decimal(n: nat) -> Seq<char>
    decreases n,
{
    if n < 10 {
        seq![digit_char(n as int)]
    } else {
        decimal(n / 10) + seq![digit_char((n % 10) as int)]
    }
}

fn digit(d: u16) -> (c: char)
    requires
        d < 10,
    ensures
        c == digit_char(d as int),
{
    if d == 0 {
        '0'
    } else if d == 1 {
        '1'
    } else if d == 2 {
        '2'
    } else if d == 3 {
        '3'
    } else if d == 4 {
        '4'
    } else if d == 5 {
        '5'
    } else if d == 6 {
        '6'
    } else if d == 7 {
        '7'
    } else if d == 8 {
        '8'
    } else {
        '9'
    }
}

/// Appends the decimal text of `n` to `out`.
pub fn push_decimal(out: &mut String, n: u16)
    ensures
        final(out)@ == old(out)@ + decimal(n as nat),
    decreases n,
{
    if n >= 10 {
        push_decimal(out, n / 10);
        push_char(out, digit(n % 10));
        assert(final(out)@ =~= old(out)@ + decimal(n as nat));
    } else {
        push_char(out, digit(n));
        assert(final(out)@ =~= old(out)@ + decimal(n as nat));
    }
}

/// The host a service is reached at, the address it binds, its port and
/// whether it speaks TLS.
pub struct Endpoint {
    pub host_name: String,
    pub bind_addr: String,
    pub port: u16,
    pub ssl: bool,
}

/// `http://host/`, or `https://` with TLS; the port follows the host unless it
/// is 80.
pub open spec fn uri_text(e: Endpoint) -> Seq<char> {
    (if e.ssl {
        "https://"@
    } else {
        "http://"@
    }) + e.host_name@ + (if e.port != 80 {
        seq![':'] + decimal(e.port as nat)
    } else {
        Seq::empty()
    }) + seq!['/']
}

/// `address:port`.
pub open spec fn bind_text(e: Endpoint) -> Seq<char> {
    e.bind_addr@ + seq![':'] + decimal(e.port as nat)
}

impl Endpoint {
    /// An endpoint that binds every interface.
    pub fn new(host: &str, port: u16) -> (r: Endpoint)
        ensures
            r.host_name@ == host@,
            r.bind_addr@ == "0.0.0.0"@,
            r.port == port,
            !r.ssl,
    {
        Endpoint::new_with_bind(host, "0.0.0.0", port)
    }

    pub fn new_with_bind(host: &str, bind: &str, port: u16) -> (r: Endpoint)
        ensures
            r.host_name@ == host@,
            r.bind_addr@ == bind@,
            r.port == port,
            !r.ssl,
    {
        Endpoint {
            host_name: String::from_str(host),
            bind_addr: String::from_str(bind),
            port,
            ssl: false,
        }
    }

    /// `localhost` on port 80.
    pub fn default() -> (r: Endpoint)
        ensures
            r.host_name@ == "localhost"@,
            r.bind_addr@ == "0.0.0.0"@,
            r.port == 80,
            !r.ssl,
    {
        Endpoint::new("localhost", 80)
    }

    /// The address clients reach the service at.
    pub fn get_uri(&self) -> (r: String)
        ensures
            r@ == uri_text(*self),
    {
        let mut uri = if self.ssl {
            String::from_str("https://")
        } else {
            String::from_str("http://")
        };
        uri.append(self.host_name.as_str());
        if self.port != 80 {
            push_char(&mut uri, ':');
            push_decimal(&mut uri, self.port);
        }
        push_char(&mut uri, '/');
        proof {
            if self.port != 80 {
                assert(uri@ =~= uri_text(*self));
            } else {
                assert(uri@ =~= uri_text(*self));
            }
        }
        uri
    }

    /// The address the listener binds.
    pub fn get_bind(&self) -> (r: String)
        ensures
            r@ == bind_text(*self),
    {
        let mut bind = self.bind_addr.clone();
        push_char(&mut bind, ':');
        push_decimal(&mut bind, self.port);
        assert(bind@ =~= bind_text(*self));
        bind
    }
}

/// What a request path asks for.
#[derive(PartialEq, Eq, Structural, Clone, Copy, Debug)]
pub enum Route {
    /// `/`: an envelope to dispatch.
    Rpc,
    /// `/?wsdl`: the interface document.
    Schema,
    /// Anything else.
    NotFound,
}

pub open spec fn route_spec(path: Seq<char>) -> Route {
    if path == "/"@ {
        Route::Rpc
    } else if path == "/?wsdl"@ {
        Route::Schema
    } else {
        Route::NotFound
    }
}

/// The route a request path takes.
pub fn route_of(path: &str) -> (r: Route)
    ensures
        r == route_spec(path@),
{
    let p = String::from_str(path);
    if p == String::from_str("/") {
        Route::Rpc
    } else if p == String::from_str("/?wsdl") {
        Route::Schema
    } else {
        Route::NotFound
    }
}

} // verus!
