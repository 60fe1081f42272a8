//! The operation registry and the dispatcher.
use crate::endpoint::{uri_text, Endpoint};
use crate::fault::{client_fault, Fault, FaultCode};
use crate::error::SoapError;
use crate::reader::{parse_tokens, request_models, xml_events, Reader, Request, RequestModel};
use crate::response::{envelope_text, not_defined_text, responses_to_xml, Response};
use crate::schema::{generate, schema_text};
use crate::types::Part;
use vstd::prelude::*;

verus! {

/// What an operation does: maps the bound inputs, in declared order, to the
/// named results. An implementation may say in `answers` which results it
/// gives for which inputs; `call` gives one of them. One that does not say
/// promises nothing.
pub trait Handler {
    /// `outputs` is a result this handler may give for `inputs`.
    open spec fn answers(&self, inputs: Seq<(String, Part)>, outputs: Seq<(String, Part)>) -> bool {
        true
    }

    fn call(&self, inputs: &Vec<(String, Part)>) -> (r: Vec<(String, Part)>)
        ensures
            self.answers(inputs@, r@),
    ;
}

/// A named operation: its documentation, the declared shapes of its inputs
/// and outputs, and its handler.
pub struct Operation<H> {
    pub doc: String,
    pub name: String,
    pub inputs: Vec<(String, Part)>,
    pub outputs: Vec<(String, Part)>,
    pub handler: H,
}

/// Configuration of a service: the address it binds (empty for all
/// interfaces), its target namespace and its display name.
pub struct Options {
    pub bind_addr: String,
    pub namespace: String,
    pub service_name: String,
}

impl Default for Options {
    fn default() -> (r: Options)
        ensures
            r.bind_addr@ == ""@,
            r.namespace@ == "server"@,
            r.service_name@ == "Service"@,
    {
        Options {
            bind_addr: String::from_str(""),
            namespace: String::from_str("server"),
            service_name: String::from_str("Service"),
        }
    }
}

/// No two operations share a name.
pub open spec fn names_unique<H>(ops: Seq<Operation<H>>) -> bool {
    forall|i: int, j: int|
        0 <= i < ops.len() && 0 <= j < ops.len() && i != j ==> #[trigger] ops[i].name@
            != #[trigger] ops[j].name@
}

/// Some operation is named `name`.
pub open spec fn has_name<H>(ops: Seq<Operation<H>>, name: Seq<char>) -> bool {
    exists|i: int| 0 <= i < ops.len() && (#[trigger] ops[i]).name@ == name
}

/// The index of the operation named `name`.
pub open spec fn index_of<H>(ops: Seq<Operation<H>>, name: Seq<char>) -> int {
    choose|i: int| 0 <= i < ops.len() && (#[trigger] ops[i]).name@ == name
}

/// The operation registered under `name`.
pub open spec fn lookup_spec<H>(ops: Seq<Operation<H>>, name: Seq<char>) -> Option<Operation<H>> {
    if has_name(ops, name) {
        Some(ops[index_of(ops, name)])
    } else {
        None
    }
}

/// The registry after registering `op`: it replaces the operation of the
/// same name in place, or comes last.
pub open spec fn register_spec<H>(ops: Seq<Operation<H>>, op: Operation<H>) -> Seq<Operation<H>> {
    if has_name(ops, op.name@) {
        ops.update(index_of(ops, op.name@), op)
    } else {
        ops.push(op)
    }
}

/// Where names are unique, the operation at `i` is the one its name finds.
pub proof fn lemma_index_of<H>(ops: Seq<Operation<H>>, i: int)
    requires
        names_unique(ops),
        0 <= i < ops.len(),
    ensures
        has_name(ops, ops[i].name@),
        index_of(ops, ops[i].name@) == i,
        lookup_spec(ops, ops[i].name@) == Some(ops[i]),
{
    assert(has_name(ops, ops[i].name@));
}

/// Registering an operation makes `lookup` find exactly it under its name,
/// leaves every other name as it was, and keeps names unique; no entry under
/// that name other than the new one remains, so a replaced handler can no
/// longer be reached.
pub proof fn lemma_lookup_after_register<H>(ops: Seq<Operation<H>>, op: Operation<H>)
    requires
        names_unique(ops),
    ensures
        names_unique(register_spec(ops, op)),
        lookup_spec(register_spec(ops, op), op.name@) == Some(op),
        forall|name: Seq<char>|
            name != op.name@ ==> #[trigger] lookup_spec(register_spec(ops, op), name)
                == lookup_spec(ops, name),
        forall|i: int|
            0 <= i < register_spec(ops, op).len() && (#[trigger] register_spec(ops, op)[i]).name@
                == op.name@ ==> register_spec(ops, op)[i] == op,
{
    let nops = register_spec(ops, op);
    if has_name(ops, op.name@) {
        let k = index_of(ops, op.name@);
        assert forall|a: int, b: int|
            0 <= a < nops.len() && 0 <= b < nops.len() && a != b implies #[trigger] nops[a].name@
            != #[trigger] nops[b].name@ by {
            if a != k && b != k {
                assert(nops[a] == ops[a] && nops[b] == ops[b]);
            } else if a == k {
                assert(nops[b] == ops[b]);
            } else {
                assert(nops[a] == ops[a]);
            }
        }
        lemma_index_of(nops, k);
        assert forall|name: Seq<char>| name != op.name@ implies #[trigger] lookup_spec(nops, name)
            == lookup_spec(ops, name) by {
            if has_name(ops, name) {
                let j = index_of(ops, name);
                assert(j != k);
                assert(nops[j] == ops[j]);
                lemma_index_of(nops, j);
            } else {
                assert forall|j: int| 0 <= j < nops.len() implies (#[trigger] nops[j]).name@
                    != name by {
                    if j != k {
                        assert(nops[j] == ops[j]);
                    }
                }
            }
        }
    } else {
        assert forall|a: int, b: int|
            0 <= a < nops.len() && 0 <= b < nops.len() && a != b implies #[trigger] nops[a].name@
            != #[trigger] nops[b].name@ by {
            if a < ops.len() && b < ops.len() {
                assert(nops[a] == ops[a] && nops[b] == ops[b]);
            } else if a < ops.len() {
                assert(nops[a] == ops[a]);
            } else {
                assert(nops[b] == ops[b]);
            }
        }
        lemma_index_of(nops, ops.len() as int);
        assert forall|name: Seq<char>| name != op.name@ implies #[trigger] lookup_spec(nops, name)
            == lookup_spec(ops, name) by {
            if has_name(ops, name) {
                let j = index_of(ops, name);
                assert(nops[j] == ops[j]);
                lemma_index_of(nops, j);
            } else {
                assert forall|j: int| 0 <= j < nops.len() implies (#[trigger] nops[j]).name@
                    != name by {
                    if j < ops.len() {
                        assert(nops[j] == ops[j]);
                    }
                }
            }
        }
    }
    assert forall|i: int|
        0 <= i < nops.len() && (#[trigger] nops[i]).name@ == op.name@ implies nops[i] == op by {
        lemma_index_of(nops, i);
    }
}

/// Dispatching a call of an operation that is not registered yields a
/// `Client` fault whose string holds the operation's name and whose actor
/// and detail are empty.
pub proof fn lemma_unknown_operation_fault<H: Handler>(
    ops: Seq<Operation<H>>,
    q: RequestModel,
    r: Response,
)
    requires
        dispatched(ops, q, r),
        lookup_spec(ops, q.operation) is None,
    ensures
        r matches Response::Fault(f) && f.code == FaultCode::Client && f.actor@.len() == 0
            && f.detail@.len() == 0 && f.string@.subrange(11, 11 + q.operation.len() as int)
            == q.operation,
{
    reveal_strlit("Operation \"");
    assert(not_defined_text(q.operation).subrange(11, 11 + q.operation.len() as int)
        =~= q.operation);
}

/// Once `op` is registered, a call of its name that supplies every declared
/// input is answered by `op`'s handler, whatever was registered under that
/// name before.
pub proof fn lemma_dispatch_after_register<H: Handler>(
    ops: Seq<Operation<H>>,
    op: Operation<H>,
    q: RequestModel,
    r: Response,
)
    requires
        names_unique(ops),
        q.operation == op.name@,
        present(q.arguments, op.inputs@, op.inputs@.len() as int),
        dispatched(register_spec(ops, op), q, r),
    ensures
        r matches Response::Success(name, outputs) && name@ == op.name@ && exists|
            b: Seq<(String, Part)>,
        | #[trigger] bound(q.arguments, op.inputs@, b) && op.handler.answers(b, outputs@),
{
    lemma_lookup_after_register(ops, op);
}

/// The fault string for a declared input that the request lacks.
pub open spec fn missing_text(operation: Seq<char>, argument: Seq<char>) -> Seq<char> {
    "Argument \""@ + argument + "\" is missing for operation \""@ + operation + "\""@
}

/// The first `n` declared inputs all have an argument.
pub open spec fn present(
    args: Map<Seq<char>, Seq<char>>,
    inputs: Seq<(String, Part)>,
    n: int,
) -> bool {
    forall|j: int| 0 <= j < n ==> args.contains_key(#[trigger] inputs[j].0@)
}

/// The `i`th declared input is the first without an argument.
pub open spec fn first_missing(
    args: Map<Seq<char>, Seq<char>>,
    inputs: Seq<(String, Part)>,
    i: int,
) -> bool {
    &&& 0 <= i < inputs.len()
    &&& present(args, inputs, i)
    &&& !args.contains_key(inputs[i].0@)
}

/// `p` is the plain string `v`.
pub open spec fn string_value(p: Part, v: Seq<char>) -> bool {
    p matches Part::String(s) && s@ == v
}

/// `b` holds, in declared order, each input's name with its argument as a
/// string value.
pub open spec fn bound(
    args: Map<Seq<char>, Seq<char>>,
    inputs: Seq<(String, Part)>,
    b: Seq<(String, Part)>,
) -> bool {
    &&& b.len() == inputs.len()
    &&& forall|i: int|
        0 <= i < b.len() ==> #[trigger] b[i].0@ == inputs[i].0@ && string_value(
            b[i].1,
            args[inputs[i].0@],
        )
}

/// Binds the declared inputs of `op` to the arguments of `request`.
pub fn bind<H>(op: &Operation<H>, request: &Request) -> (r: Result<Vec<(String, Part)>, Fault>)
    ensures
        r is Ok <==> present(request@.arguments, op.inputs@, op.inputs@.len() as int),
        r matches Ok(b) ==> bound(request@.arguments, op.inputs@, b@),
        r matches Err(f) ==> exists|i: int|
            first_missing(request@.arguments, op.inputs@, i) && client_fault(
                f,
                missing_text(op.name@, op.inputs@[i].0@),
            ),
{
    let ghost args = request@.arguments;
    let mut b: Vec<(String, Part)> = Vec::new();
    let n = op.inputs.len();
    let ghost inputs = op.inputs@;
    let mut i: usize = 0;
    while i < n
        invariant
            n == op.inputs@.len(),
            i <= n,
            args == request@.arguments,
            present(args, op.inputs@, i as int),
            b@.len() == i,
            forall|k: int|
                0 <= k < i ==> #[trigger] b@[k].0@ == op.inputs@[k].0@ && string_value(
                    b@[k].1,
                    args[op.inputs@[k].0@],
                ),
        decreases n - i,
    {
        let name = &op.inputs[i].0;
        match request.get(name.as_str()) {
            Some(v) => {
                let value = v.clone();
                let pair = (name.clone(), Part::String(value));
                assert(pair.0@ == op.inputs@[i as int].0@);
                assert(args.contains_key(name@));
                assert(value@ == args[name@]);
                assert(string_value(pair.1, args[op.inputs@[i as int].0@]));
                let ghost old_b = b@;
                b.push(pair);
                proof {
                    assert forall|k: int| 0 <= k <= i implies #[trigger] b@[k].0@
                        == op.inputs@[k].0@ && string_value(b@[k].1, args[op.inputs@[k].0@]) by {
                        if k < i {
                            assert(b@[k] == old_b[k]);
                            assert(old_b[k].0@ == op.inputs@[k].0@);
                        } else {
                            assert(b@[k] == pair);
                        }
                    }
                }
            },
            None => {
                let mut text = String::from_str("Argument \"");
                text.append(name.as_str());
                text.append("\" is missing for operation \"");
                text.append(op.name.as_str());
                text.append("\"");
                let f = Fault::client(text.as_str(), "", "");
                proof {
                    reveal_strlit("");
                    assert(first_missing(args, op.inputs@, i as int));
                }
                return Err(f);
            },
        }
        i = i + 1;
    }
    assert(bound(args, inputs, b@));
    Ok(b)
}

/// What dispatching `q` over `ops` gives: a `Client` fault when no operation
/// has its name or a declared input lacks an argument, else, under the
/// operation's name, results that the operation's handler gives for the
/// bound inputs.
pub open spec fn dispatched<H: Handler>(ops: Seq<Operation<H>>, q: RequestModel, r: Response) -> bool {
    match lookup_spec(ops, q.operation) {
        None => r matches Response::Fault(f) && client_fault(f, not_defined_text(q.operation)),
        Some(op) => if present(q.arguments, op.inputs@, op.inputs@.len() as int) {
            r matches Response::Success(name, outputs) && name@ == op.name@ && exists|
                b: Seq<(String, Part)>,
            | #[trigger] bound(q.arguments, op.inputs@, b) && op.handler.answers(b, outputs@)
        } else {
            r matches Response::Fault(f) && exists|i: int|
                first_missing(q.arguments, op.inputs@, i) && client_fault(
                    f,
                    missing_text(op.name@, op.inputs@[i].0@),
                )
        },
    }
}

/// A registry of operations with the endpoint and options of the service
/// that offers them.
pub struct Service<H> {
    endpoint: Endpoint,
    options: Options,
    operations: Vec<Operation<H>>,
    wsdl: String,
    changed: bool,
}

impl<H: Handler> Service<H> {
    pub closed spec fn ops(&self) -> Seq<Operation<H>> {
        self.operations@
    }

    pub closed spec fn spec_endpoint(&self) -> Endpoint {
        self.endpoint
    }

    pub closed spec fn spec_options(&self) -> Options {
        self.options
    }

    /// The interface document of the service as it stands.
    pub open spec fn schema(&self) -> Seq<char> {
        schema_text(
            self.spec_options().namespace@,
            self.spec_options().service_name@,
            uri_text(self.spec_endpoint()),
            self.ops(),
        )
    }

    /// Two services with the same operations, options and endpoint describe
    /// themselves by the same document: since only registration changes the
    /// operations, serving the document twice with no registration between
    /// gives the same text.
    pub proof fn lemma_schema_stable(a: Service<H>, b: Service<H>)
        requires
            a.ops() == b.ops(),
            a.spec_options() == b.spec_options(),
            a.spec_endpoint() == b.spec_endpoint(),
        ensures
            a.schema() == b.schema(),
    {
    }

    /// A well-formed service has unique operation names.
    pub proof fn lemma_names_unique(&self)
        requires
            self.wf(),
        ensures
            names_unique(self.ops()),
    {
    }

    /// The registry's invariant: operation names are unique, and the cached
    /// interface document is current unless marked as changed.
    pub closed spec fn wf(&self) -> bool {
        &&& names_unique(self.operations@)
        &&& !self.changed ==> self.wsdl@ == self.schema()
    }

    /// A service with default options and no operations.
    pub fn new(host_name: &str, port: u16) -> (r: Service<H>)
        ensures
            r.wf(),
            r.ops().len() == 0,
            names_unique(r.ops()),
            r.spec_endpoint().host_name@ == host_name@,
            r.spec_endpoint().bind_addr@ == "0.0.0.0"@,
            r.spec_endpoint().port == port,
            !r.spec_endpoint().ssl,
            r.spec_options().bind_addr@ == ""@,
            r.spec_options().namespace@ == "server"@,
            r.spec_options().service_name@ == "Service"@,
    {
        let opts = Options::default();
        proof {
            reveal_strlit("");
        }
        Service::new_with_opts(host_name, port, opts)
    }

    /// A service with the given options and no operations; an empty bind
    /// address binds every interface.
    pub fn new_with_opts(host_name: &str, port: u16, opts: Options) -> (r: Service<H>)
        ensures
            r.wf(),
            r.ops().len() == 0,
            names_unique(r.ops()),
            r.spec_endpoint().host_name@ == host_name@,
            r.spec_endpoint().bind_addr@ == (if opts.bind_addr@.len() == 0 {
                "0.0.0.0"@
            } else {
                opts.bind_addr@
            }),
            r.spec_endpoint().port == port,
            !r.spec_endpoint().ssl,
            r.spec_options() == opts,
    {
        let endpoint = if opts.bind_addr.as_str().is_empty() {
            Endpoint::new(host_name, port)
        } else {
            Endpoint::new_with_bind(host_name, opts.bind_addr.as_str(), port)
        };
        Service {
            endpoint,
            options: opts,
            operations: Vec::new(),
            wsdl: String::new(),
            changed: true,
        }
    }

    pub fn options(&self) -> (r: &Options)
        ensures
            *r == self.spec_options(),
    {
        &self.options
    }

    /// The address clients reach the service at.
    pub fn get_uri(&self) -> (r: String)
        ensures
            r@ == uri_text(self.spec_endpoint()),
    {
        self.endpoint.get_uri()
    }

    /// The address the listener binds.
    pub fn endpoint(&self) -> (r: &Endpoint)
        ensures
            *r == self.spec_endpoint(),
    {
        &self.endpoint
    }

    /// The registered operations, in the order they were first registered.
    pub fn operations(&self) -> (r: &Vec<Operation<H>>)
        ensures
            r@ == self.ops(),
    {
        &self.operations
    }

    /// The index of the operation named `name`.
    fn position(&self, name: &String) -> (r: Option<usize>)
        requires
            self.wf(),
        ensures
            match r {
                Some(i) => i < self.ops().len() && has_name(self.ops(), name@) && index_of(
                    self.ops(),
                    name@,
                ) == i,
                None => !has_name(self.ops(), name@),
            },
    {
        let ghost ops = self.operations@;
        let n = self.operations.len();
        for i in 0..n
            invariant
                n == ops.len(),
                ops == self.operations@,
                names_unique(ops),
                forall|j: int| 0 <= j < i ==> (#[trigger] ops[j]).name@ != name@,
        {
            if self.operations[i].name == *name {
                proof {
                    lemma_index_of(ops, i as int);
                }
                return Some(i);
            }
        }
        None
    }

    /// Registers `operation`, replacing the one of the same name.
    pub fn add_operation(&mut self, operation: Operation<H>)
        requires
            old(self).wf(),
        ensures
            final(self).wf(),
            final(self).ops() == register_spec(old(self).ops(), operation),
            names_unique(final(self).ops()),
            final(self).spec_endpoint() == old(self).spec_endpoint(),
            final(self).spec_options() == old(self).spec_options(),
    {
        let ghost ops = self.operations@;
        self.changed = true;
        match self.position(&operation.name) {
            Some(i) => {
                self.operations[i] = operation;
                proof {
                    let nops = self.operations@;
                    assert forall|a: int, b: int|
                        0 <= a < nops.len() && 0 <= b < nops.len() && a != b implies #[trigger] nops[a].name@
                        != #[trigger] nops[b].name@ by {
                        if a != i && b != i {
                            assert(nops[a] == ops[a] && nops[b] == ops[b]);
                        } else if a == i {
                            assert(nops[b] == ops[b]);
                        } else {
                            assert(nops[a] == ops[a]);
                        }
                    }
                }
            },
            None => {
                self.operations.push(operation);
                proof {
                    let nops = self.operations@;
                    assert forall|a: int, b: int|
                        0 <= a < nops.len() && 0 <= b < nops.len() && a != b implies #[trigger] nops[a].name@
                        != #[trigger] nops[b].name@ by {
                        if a < ops.len() && b < ops.len() {
                            assert(nops[a] == ops[a] && nops[b] == ops[b]);
                        } else if a < ops.len() {
                            assert(nops[a] == ops[a]);
                            assert(ops[a].name@ != operation.name@);
                        } else {
                            assert(nops[b] == ops[b]);
                            assert(ops[b].name@ != operation.name@);
                        }
                    }
                }
            },
        }
    }

    /// The operation registered under `name`.
    pub fn lookup(&self, name: &str) -> (r: Option<&Operation<H>>)
        requires
            self.wf(),
        ensures
            match lookup_spec(self.ops(), name@) {
                None => r is None,
                Some(op) => r matches Some(o) && *o == op,
            },
    {
        match self.position(&String::from_str(name)) {
            Some(i) => Some(&self.operations[i]),
            None => None,
        }
    }

    /// The interface document, regenerated only when an operation was
    /// registered since it was last produced.
    pub fn wsdl(&mut self) -> (r: String)
        requires
            old(self).wf(),
        ensures
            final(self).wf(),
            r@ == old(self).schema(),
            final(self).ops() == old(self).ops(),
            final(self).spec_endpoint() == old(self).spec_endpoint(),
            final(self).spec_options() == old(self).spec_options(),
    {
        if self.changed {
            let uri = self.endpoint.get_uri();
            self.wsdl = generate(&self.options, uri.as_str(), &self.operations);
            self.changed = false;
        }
        self.wsdl.clone()
    }

    /// Handles one envelope: its calls are dispatched in order and their
    /// responses travel back in one envelope; a malformed envelope is
    /// refused before any dispatch.
    pub fn respond(&self, body: &str) -> (r: Result<String, SoapError>)
        requires
            self.wf(),
        ensures
            match parse_tokens(xml_events(body@)) {
                Err(m) => r == Err::<String, SoapError>(SoapError::Malformed(m)),
                Ok(qs) => r matches Ok(t) && exists|rs: Seq<Response>|
                    #![trigger envelope_text(rs)]
                    rs.len() == qs.len() && (forall|i: int|
                        0 <= i < rs.len() ==> dispatched(self.ops(), qs[i], #[trigger] rs[i]))
                        && t@ == envelope_text(rs),
            },
    {
        let requests = match Reader::from(body) {
            Ok(v) => v,
            Err(e) => {
                return Err(e);
            },
        };
        let mut responses: Vec<Response> = Vec::new();
        let n = requests.len();
        for i in 0..n
            invariant
                n == requests@.len(),
                self.wf(),
                responses@.len() == i,
                forall|j: int|
                    0 <= j < i ==> dispatched(self.ops(), requests@[j]@, #[trigger] responses@[j]),
        {
            responses.push(self.dispatch(&requests[i]));
        }
        let text = responses_to_xml(&responses);
        proof {
            let qs = request_models(requests@);
            assert forall|j: int| 0 <= j < responses@.len() implies dispatched(
                self.ops(),
                qs[j],
                #[trigger] responses@[j],
            ) by {
                assert(qs[j] == requests@[j]@);
            }
        }
        Ok(text)
    }

    /// Resolves the request's operation, binds its inputs and runs its
    /// handler.
    pub fn dispatch(&self, request: &Request) -> (r: Response)
        requires
            self.wf(),
        ensures
            dispatched(self.ops(), request@, r),
    {
        match self.lookup(request.operation.as_str()) {
            None => Response::not_found(request.operation.as_str()),
            Some(op) => match bind(op, request) {
                Ok(inputs) => {
                    let outputs = op.handler.call(&inputs);
                    Response::Success(op.name.clone(), outputs)
                },
                Err(f) => Response::Fault(f),
            },
        }
    }
}

} // verus!
