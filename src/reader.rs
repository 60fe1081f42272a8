//! The request parser: a forward-only consumer of XML events that recovers
//! the calls an envelope holds.
use crate::error::{Malformation, SoapError};
use crate::xml::push_char;
use quick_xml::events::{BytesRef, Event};
use quick_xml::reader::Reader as Tokenizer;
use vstd::prelude::*;

verus! {

/// An XML event as the parser sees it: names are qualified names as written,
/// texts are as written, and a reference such as `&amp;` comes as its name.
pub enum XmlEvent {
    Decl,
    Start(String),
    End(String),
    Empty(String),
    Text(String),
    Reference(String),
    Other,
    Invalid,
    Eof,
}

/// What an [`XmlEvent`] stands for.
pub enum Token {
    Decl,
    Start(Seq<char>),
    End(Seq<char>),
    Empty(Seq<char>),
    Text(Seq<char>),
    Reference(Seq<char>),
    Other,
    Invalid,
    Eof,
}

impl View for XmlEvent {
    type V = Token;

    open spec fn view(&self) -> Token {
        match self {
            XmlEvent::Decl => Token::Decl,
            XmlEvent::Start(n) => Token::Start(n@),
            XmlEvent::End(n) => Token::End(n@),
            XmlEvent::Empty(n) => Token::Empty(n@),
            XmlEvent::Text(t) => Token::Text(t@),
            XmlEvent::Reference(n) => Token::Reference(n@),
            XmlEvent::Other => Token::Other,
            XmlEvent::Invalid => Token::Invalid,
            XmlEvent::Eof => Token::Eof,
        }
    }
}

/// quick_xml's pull reader, carried opaquely; what it will yield is named by
/// `pending_events`.
#[verifier::external_type_specification]
#[verifier::external_body]
#[verifier::reject_recursive_types(R)]
pub struct ExXmlReader<R>(Tokenizer<R>);

/// The events that quick-xml's reader yields for `text` before its first
/// `Eof` or error, the error included.
pub uninterp spec fn xml_events(text: Seq<char>) -> Seq<Token>;

/// The events that `r` yields from where it stands, before its next `Eof` or
/// error, the error included.
pub uninterp spec fn pending_events(r: Tokenizer<&[u8]>) -> Seq<Token>;

/// Relies on quick_xml's `Reader::from_str`: a reader over `text`.
#[verifier::external_body]
fn open_reader(text: &str) -> (r: Tokenizer<&[u8]>)
    ensures
        pending_events(r) == xml_events(text@),
        forall|i: int| 0 <= i < pending_events(r).len() ==> pending_events(r)[i] !is Eof,
{
    Tokenizer::from_str(text)
}

/// Relies on quick_xml's `Reader::read_event`: the next pending event, or
/// `Eof` when none is pending.
#[verifier::external_body]
fn next_event(reader: &mut Tokenizer<&[u8]>) -> (e: XmlEvent)
    ensures
        pending_events(*old(reader)).len() == 0 ==> e is Eof,
        pending_events(*old(reader)).len() > 0 ==> e@ == pending_events(*old(reader))[0],
        pending_events(*old(reader)).len() > 0 && e !is Invalid ==> pending_events(*final(reader))
            == pending_events(*old(reader)).drop_first(),
        forall|i: int|
            0 <= i < pending_events(*final(reader)).len() ==> pending_events(*final(reader))[i] !is Eof,
{
    match reader.read_event() {
        Ok(Event::Decl(_)) => XmlEvent::Decl,
        Ok(Event::Start(t)) => XmlEvent::Start(t.name().0.to_string()),
        Ok(Event::End(t)) => XmlEvent::End(t.name().0.to_string()),
        Ok(Event::Empty(t)) => XmlEvent::Empty(t.name().0.to_string()),
        Ok(Event::Text(t)) => XmlEvent::Text(t.into_inner().into_owned()),
        Ok(Event::GeneralRef(r)) => XmlEvent::Reference(r.into_inner().into_owned()),
        Ok(Event::Eof) => XmlEvent::Eof,
        Ok(_) => XmlEvent::Other,
        Err(_) => XmlEvent::Invalid,
    }
}


/// The character that the character reference `name` (`#65`, `#x41`)
/// stands for; none when `name` is no character reference or an invalid one.
pub uninterp spec fn char_reference_of(name: Seq<char>) -> Option<char>;

/// Relies on quick_xml's `BytesRef::resolve_char_ref`: the character of a
/// character reference; a name that does not start with `#` is none.
#[verifier::external_body]
fn char_reference(name: &str) -> (r: Option<char>)
    ensures
        r == char_reference_of(name@),
        name@.len() == 0 || name@[0] != '#' ==> r is None,
{
    BytesRef::new(name).resolve_char_ref().ok().flatten()
}

/// The five predefined entities of XML.
pub open spec fn xml_entity_of(name: Seq<char>) -> Option<Seq<char>> {
    if name == "lt"@ {
        Some("<"@)
    } else if name == "gt"@ {
        Some(">"@)
    } else if name == "amp"@ {
        Some("&"@)
    } else if name == "apos"@ {
        Some("'"@)
    } else if name == "quot"@ {
        Some("\""@)
    } else {
        None
    }
}

/// Relies on quick_xml's `escape::resolve_xml_entity`: the text of a
/// predefined entity.
#[verifier::external_body]
fn xml_entity(name: &str) -> (r: Option<&'static str>)
    ensures
        match r {
            Some(v) => xml_entity_of(name@) == Some(v@),
            None => xml_entity_of(name@) is None,
        },
{
    quick_xml::escape::resolve_xml_entity(name)
}

/// The text a reference stands for: a character reference gives its
/// character, a predefined entity its text; any other name is kept as
/// written, `&name;`.
pub open spec fn reference_text(name: Seq<char>) -> Seq<char> {
    match char_reference_of(name) {
        Some(c) => seq![c],
        None => match xml_entity_of(name) {
            Some(v) => v,
            None => seq!['&'] + name + seq![';'],
        },
    }
}

/// The text of the reference `name`.
pub fn resolve_reference(name: &str) -> (r: String)
    ensures
        r@ == reference_text(name@),
{
    match char_reference(name) {
        Some(c) => {
            let mut s = String::new();
            push_char(&mut s, c);
            assert(s@ =~= seq![c]);
            s
        },
        None => match xml_entity(name) {
            Some(v) => String::from_str(v),
            None => {
                let mut s = String::new();
                push_char(&mut s, '&');
                s.append(name);
                push_char(&mut s, ';');
                assert(s@ =~= seq!['&'] + name@ + seq![';']);
                s
            },
        },
    }
}

/// White space as XML counts it.
pub open spec fn is_space(c: char) -> bool {
    c == ' ' || c == '\t' || c == '\n' || c == '\r'
}

/// `s` holds nothing but white space.
pub open spec fn blank(s: Seq<char>) -> bool {
    forall|i: int| 0 <= i < s.len() ==> is_space(#[trigger] s[i])
}

fn is_blank(t: &str) -> (r: bool)
    ensures
        r == blank(t@),
{
    let mut all = true;
    for c in it: t.chars()
        invariant
            it.seq() == t@,
            all == (forall|i: int| 0 <= i < it.index() ==> is_space(#[trigger] t@[i])),
    {
        if !(c == ' ' || c == '\t' || c == '\n' || c == '\r') {
            all = false;
        }
    }
    all
}

/// The index of the first `:` in `s`, or its length when there is none.
pub open spec fn colon_at(s: Seq<char>) -> int
    decreases s.len(),
{
    if s.len() == 0 {
        0
    } else if s[0] == ':' {
        0
    } else {
        1 + colon_at(s.drop_first())
    }
}

/// A qualified name split into its prefix and its local part: `ns:local`
/// gives `(ns, local)`, a name without a colon gives `("", name)`. Only the
/// text up to a second colon counts as the local part.
pub open spec fn split_name(s: Seq<char>) -> (Seq<char>, Seq<char>) {
    let i = colon_at(s);
    if i >= s.len() {
        (Seq::empty(), s)
    } else {
        let rest = s.skip(i + 1);
        (s.take(i), rest.take(colon_at(rest)))
    }
}

/// The local part of a qualified name.
pub open spec fn local_name(s: Seq<char>) -> Seq<char> {
    split_name(s).1
}

proof fn lemma_colon_at(s: Seq<char>, i: int)
    requires
        0 <= i <= s.len(),
        forall|j: int| 0 <= j < i ==> s[j] != ':',
        i == s.len() || s[i] == ':',
    ensures
        colon_at(s) == i,
    decreases i,
{
    if i > 0 {
        lemma_colon_at(s.drop_first(), i - 1);
    }
}

/// The index of the first `:` in `s`.
fn find_colon(s: &str) -> (r: usize)
    ensures
        r == colon_at(s@),
        r <= s@.len(),
{
    let n = s.unicode_len();
    let mut i: usize = 0;
    while i < n
        invariant
            n == s@.len(),
            i <= n,
            forall|j: int| 0 <= j < i ==> s@[j] != ':',
        decreases n - i,
    {
        if s.get_char(i) == ':' {
            proof {
                lemma_colon_at(s@, i as int);
            }
            return i;
        }
        i = i + 1;
    }
    proof {
        lemma_colon_at(s@, n as int);
    }
    n
}

/// The arguments recorded so far, name to value; a later record of a name
/// replaces an earlier one.
pub open spec fn arg_map(args: Seq<(String, String)>) -> Map<Seq<char>, Seq<char>>
    decreases args.len(),
{
    if args.len() == 0 {
        Map::empty()
    } else {
        arg_map(args.drop_last()).insert(args.last().0@, args.last().1@)
    }
}

/// A later record of a name wins, and a name with no record is absent.
proof fn lemma_arg_map_lookup(args: Seq<(String, String)>, k: Seq<char>, i: int)
    requires
        -1 <= i < args.len(),
        forall|j: int| i < j < args.len() ==> (#[trigger] args[j]).0@ != k,
        i >= 0 ==> args[i].0@ == k,
    ensures
        i >= 0 ==> arg_map(args).contains_key(k) && arg_map(args)[k] == args[i].1@,
        i < 0 ==> !arg_map(args).contains_key(k),
    decreases args.len(),
{
    if args.len() > 0 && i < args.len() - 1 {
        let init = args.drop_last();
        assert forall|j: int| i < j < init.len() implies (#[trigger] init[j]).0@ != k by {
            assert(init[j] == args[j]);
        }
        lemma_arg_map_lookup(init, k, i);
    }
}

/// One call found in an envelope: the operation's local name and its
/// arguments in the order they were read.
#[derive(Debug)]
pub struct Request {
    pub operation: String,
    pub arguments: Vec<(String, String)>,
}

/// What a [`Request`] stands for: the operation and the argument mapping.
pub struct RequestModel {
    pub operation: Seq<char>,
    pub arguments: Map<Seq<char>, Seq<char>>,
}

impl View for Request {
    type V = RequestModel;

    open spec fn view(&self) -> RequestModel {
        RequestModel { operation: self.operation@, arguments: arg_map(self.arguments@) }
    }
}

impl Request {
    /// The value of the argument `name`: the last one read under that name.
    pub fn get(&self, name: &str) -> (r: Option<&String>)
        ensures
            r is Some <==> self@.arguments.contains_key(name@),
            r matches Some(v) ==> v@ == self@.arguments[name@],
    {
        let mut i = self.arguments.len();
        while i > 0
            invariant
                i <= self.arguments@.len(),
                forall|j: int|
                    i <= j < self.arguments@.len() ==> (#[trigger] self.arguments@[j]).0@
                        != name@,
            decreases i,
        {
            i = i - 1;
            if self.arguments[i].0 == String::from_str(name) {
                proof {
                    lemma_arg_map_lookup(self.arguments@, name@, i as int);
                }
                return Some(&self.arguments[i].1);
            }
        }
        proof {
            lemma_arg_map_lookup(self.arguments@, name@, -1);
        }
        None
    }
}

/// The models of a sequence of requests.
pub open spec fn request_models(rs: Seq<Request>) -> Seq<RequestModel> {
    rs.map_values(|r: Request| r@)
}

/// Where the parser stands in the envelope.
#[derive(PartialEq, Eq, Structural, Clone, Copy, Debug)]
pub enum Phase {
    Start,
    InDeclaration,
    InEnvelope,
    InBody,
    InOperation,
}

/// The state of the parser: where it stands, the calls completed, and for
/// the call being read its operation, its arguments, the argument whose
/// text comes next (empty for none) and whether that argument has received
/// text since it was opened.
pub struct ParseModel {
    pub phase: Phase,
    pub requests: Seq<RequestModel>,
    pub operation: Seq<char>,
    pub arguments: Map<Seq<char>, Seq<char>>,
    pub current: Seq<char>,
    pub joining: bool,
}

pub open spec fn initial_model() -> ParseModel {
    ParseModel {
        phase: Phase::Start,
        requests: Seq::empty(),
        operation: Seq::empty(),
        arguments: Map::empty(),
        current: Seq::empty(),
        joining: false,
    }
}

pub open spec fn with_phase(p: ParseModel, phase: Phase) -> ParseModel {
    ParseModel { phase, ..p }
}

/// A start tag with local name `l`: the declaration must be followed by
/// `Envelope`, the Envelope by `Body`; in the Body a tag opens a call, and in
/// a call it opens an argument.
pub open spec fn start_tag(p: ParseModel, l: Seq<char>) -> Result<ParseModel, Malformation> {
    match p.phase {
        Phase::Start => Err(Malformation::MissingDeclaration),
        Phase::InDeclaration => if l == "Envelope"@ {
            Ok(with_phase(p, Phase::InEnvelope))
        } else {
            Err(Malformation::ExpectedEnvelope)
        },
        Phase::InEnvelope => if l == "Body"@ {
            Ok(with_phase(p, Phase::InBody))
        } else {
            Err(Malformation::ExpectedBody)
        },
        Phase::InBody => Ok(
            ParseModel {
                phase: Phase::InOperation,
                operation: l,
                arguments: Map::empty(),
                current: Seq::empty(),
                joining: false,
                ..p
            },
        ),
        Phase::InOperation => Ok(ParseModel { current: l, joining: false, ..p }),
    }
}

/// An end tag with local name `l`: in a call, the operation's own end tag
/// completes the call, and the current argument's end tag clears the cursor.
pub open spec fn end_tag(p: ParseModel, l: Seq<char>) -> ParseModel {
    if p.phase == Phase::InOperation {
        if l == p.operation {
            ParseModel {
                phase: Phase::InBody,
                requests: p.requests.push(
                    RequestModel { operation: p.operation, arguments: p.arguments },
                ),
                operation: Seq::empty(),
                arguments: Map::empty(),
                current: Seq::empty(),
                joining: false,
            }
        } else if l == p.current {
            ParseModel { current: Seq::empty(), joining: false, ..p }
        } else {
            p
        }
    } else {
        p
    }
}

/// A piece of text of the current argument, if there is one: the first
/// piece since the argument was opened becomes its value, later pieces are
/// joined to it.
pub open spec fn add_piece(p: ParseModel, t: Seq<char>) -> ParseModel {
    if p.phase == Phase::InOperation && p.current.len() > 0 {
        if p.joining {
            ParseModel {
                arguments: p.arguments.insert(p.current, p.arguments[p.current] + t),
                ..p
            }
        } else {
            ParseModel { arguments: p.arguments.insert(p.current, t), joining: true, ..p }
        }
    } else {
        p
    }
}

/// Text is a piece of the current argument; white space alone starts no
/// value.
pub open spec fn text_event(p: ParseModel, t: Seq<char>) -> ParseModel {
    if !p.joining && blank(t) {
        p
    } else {
        add_piece(p, t)
    }
}

/// One event. An empty-element tag is its start tag followed by its end tag.
pub open spec fn step(p: ParseModel, t: Token) -> Result<ParseModel, Malformation> {
    match t {
        Token::Decl => if p.phase == Phase::Start {
            Ok(with_phase(p, Phase::InDeclaration))
        } else {
            Err(Malformation::SecondDeclaration)
        },
        Token::Start(n) => start_tag(p, local_name(n)),
        Token::End(n) => Ok(end_tag(p, local_name(n))),
        Token::Empty(n) => match start_tag(p, local_name(n)) {
            Ok(q) => Ok(end_tag(q, local_name(n))),
            Err(m) => Err(m),
        },
        Token::Text(t) => Ok(text_event(p, t)),
        Token::Reference(n) => Ok(add_piece(p, reference_text(n))),
        Token::Invalid => Err(Malformation::Syntax),
        Token::Other => Ok(p),
        Token::Eof => Ok(p),
    }
}

/// The end of the document: complete only in the Body, outside any call.
pub open spec fn finish(p: ParseModel) -> Result<Seq<RequestModel>, Malformation> {
    if p.phase == Phase::InBody {
        Ok(p.requests)
    } else {
        Err(Malformation::Incomplete)
    }
}

/// The events from `p` on, up to the first `Eof` or the end of `ts`; the
/// first malformation stops the run.
pub open spec fn run(p: ParseModel, ts: Seq<Token>) -> Result<Seq<RequestModel>, Malformation>
    decreases ts.len(),
{
    if ts.len() == 0 || ts[0] is Eof {
        finish(p)
    } else {
        match step(p, ts[0]) {
            Ok(q) => run(q, ts.drop_first()),
            Err(m) => Err(m),
        }
    }
}

/// The calls an event sequence holds, or why it is malformed.
pub open spec fn parse_tokens(ts: Seq<Token>) -> Result<Seq<RequestModel>, Malformation> {
    run(initial_model(), ts)
}

/// No event brings the parser back to where it awaits the declaration.
proof fn lemma_step_keeps_declared(p: ParseModel, t: Token)
    requires
        p.phase != Phase::Start,
    ensures
        step(p, t) matches Ok(q) ==> q.phase != Phase::Start,
{
}

/// Once the declaration has been read, a later declaration makes the
/// document malformed: a parse that meets one before the end never yields
/// calls.
proof fn lemma_later_declaration(p: ParseModel, ts: Seq<Token>, j: int)
    requires
        p.phase != Phase::Start,
        0 <= j < ts.len(),
        ts[j] is Decl,
        forall|k: int| 0 <= k < j ==> !(#[trigger] ts[k] is Eof),
    ensures
        run(p, ts) is Err,
    decreases j,
{
    if j > 0 {
        lemma_step_keeps_declared(p, ts[0]);
        if let Ok(q) = step(p, ts[0]) {
            assert forall|k: int| 0 <= k < j - 1 implies !(#[trigger] ts.drop_first()[k] is Eof) by {
                assert(ts.drop_first()[k] == ts[k + 1]);
            }
            lemma_later_declaration(q, ts.drop_first(), j - 1);
        }
    }
}

/// A document with two XML declarations is malformed.
pub proof fn lemma_two_declarations_refused(ts: Seq<Token>, j: int)
    requires
        ts.len() > 0,
        ts[0] is Decl,
        0 < j < ts.len(),
        ts[j] is Decl,
        forall|k: int| 0 <= k < j ==> !(#[trigger] ts[k] is Eof),
    ensures
        parse_tokens(ts) is Err,
{
    let q = with_phase(initial_model(), Phase::InDeclaration);
    assert forall|k: int| 0 <= k < j - 1 implies !(#[trigger] ts.drop_first()[k] is Eof) by {
        assert(ts.drop_first()[k] == ts[k + 1]);
    }
    lemma_later_declaration(q, ts.drop_first(), j - 1);
}

/// After the declaration, when the first tag is not an `Envelope` (a `Body`,
/// say) the document is malformed, whatever follows.
pub proof fn lemma_missing_envelope_refused(ts: Seq<Token>, j: int)
    requires
        ts.len() > 0,
        ts[0] is Decl,
        0 < j < ts.len(),
        forall|k: int|
            0 < k < j ==> #[trigger] ts[k] is Text || ts[k] is End || ts[k] is Other,
        ts[j] matches Token::Start(n) && local_name(n) != "Envelope"@,
    ensures
        parse_tokens(ts) == Err::<Seq<RequestModel>, Malformation>(Malformation::ExpectedEnvelope),
{
    let q = with_phase(initial_model(), Phase::InDeclaration);
    lemma_declared_prefix(q, ts.drop_first(), j - 1);
}

proof fn lemma_declared_prefix(p: ParseModel, ts: Seq<Token>, j: int)
    requires
        p.phase == Phase::InDeclaration,
        0 <= j < ts.len(),
        forall|k: int| 0 <= k < j ==> #[trigger] ts[k] is Text || ts[k] is End || ts[k] is Other,
        ts[j] matches Token::Start(n) && local_name(n) != "Envelope"@,
    ensures
        run(p, ts) == Err::<Seq<RequestModel>, Malformation>(Malformation::ExpectedEnvelope),
    decreases j,
{
    if j > 0 {
        assert(ts[0] is Text || ts[0] is End || ts[0] is Other);
        assert forall|k: int| 0 <= k < j - 1 implies #[trigger] ts.drop_first()[k] is Text
            || ts.drop_first()[k] is End || ts.drop_first()[k] is Other by {
            assert(ts.drop_first()[k] == ts[k + 1]);
        }
        assert(ts.drop_first()[j - 1] == ts[j]);
        lemma_declared_prefix(p, ts.drop_first(), j - 1);
    }
}

/// Text, references, end tags and other events leave the parser where it is
/// before the Body.
pub open spec fn ignorable(t: Token) -> bool {
    t is Text || t is Reference || t is End || t is Other
}

proof fn lemma_ignorable_prefix(p: ParseModel, ts: Seq<Token>, j: int)
    requires
        p.phase == Phase::InDeclaration || p.phase == Phase::InEnvelope,
        0 <= j <= ts.len(),
        forall|k: int| 0 <= k < j ==> ignorable(#[trigger] ts[k]),
    ensures
        run(p, ts) == run(p, ts.skip(j)),
    decreases j,
{
    if j == 0 {
        assert(ts.skip(0) == ts);
    } else {
        assert(ignorable(ts[0]));
        assert forall|k: int| 0 <= k < j - 1 implies ignorable(#[trigger] ts.drop_first()[k]) by {
            assert(ts.drop_first()[k] == ts[k + 1]);
        }
        lemma_ignorable_prefix(p, ts.drop_first(), j - 1);
        assert(ts.drop_first().skip(j - 1) == ts.skip(j));
    }
}

/// Inside the Envelope, when the first tag is not a `Body` (a `Header`,
/// say) the document is malformed, whatever follows.
pub proof fn lemma_missing_body_refused(ts: Seq<Token>, i: int, j: int)
    requires
        ts.len() > 0,
        ts[0] is Decl,
        0 < i < j < ts.len(),
        forall|k: int| 0 < k < i ==> ignorable(#[trigger] ts[k]),
        ts[i] matches Token::Start(n) && local_name(n) == "Envelope"@,
        forall|k: int| i < k < j ==> ignorable(#[trigger] ts[k]),
        ts[j] matches Token::Start(n) && local_name(n) != "Body"@,
    ensures
        parse_tokens(ts) == Err::<Seq<RequestModel>, Malformation>(Malformation::ExpectedBody),
{
    let p1 = with_phase(initial_model(), Phase::InDeclaration);
    let rest1 = ts.drop_first();
    assert forall|k: int| 0 <= k < i - 1 implies ignorable(#[trigger] rest1[k]) by {
        assert(rest1[k] == ts[k + 1]);
    }
    lemma_ignorable_prefix(p1, rest1, i - 1);
    let rest2 = rest1.skip(i - 1);
    assert(rest2[0] == ts[i]);
    let p2 = with_phase(p1, Phase::InEnvelope);
    let rest3 = rest2.drop_first();
    assert forall|k: int| 0 <= k < j - i - 1 implies ignorable(#[trigger] rest3[k]) by {
        assert(rest3[k] == ts[k + i + 1]);
    }
    lemma_ignorable_prefix(p2, rest3, j - i - 1);
    let rest4 = rest3.skip(j - i - 1);
    assert(rest4[0] == ts[j]);
}

/// The outcome of a parse, seen through the models of its requests.
pub open spec fn outcome(r: Result<Vec<Request>, SoapError>) -> Result<
    Seq<RequestModel>,
    Malformation,
> {
    match r {
        Ok(v) => Ok(request_models(v@)),
        Err(SoapError::Malformed(m)) => Err(m),
    }
}


/// Reads envelopes.
pub struct Reader;

impl Reader {
    /// Splits a qualified name into its prefix and its local part.
    pub fn tag_name(name: &str) -> (r: (String, String))
        ensures
            (r.0@, r.1@) == split_name(name@),
    {
        let n = name.unicode_len();
        let i = find_colon(name);
        if i >= n {
            (String::new(), String::from_str(name))
        } else {
            let rest = name.substring_char(i + 1, n);
            let j = find_colon(rest);
            let prefix = String::from_str(name.substring_char(0, i));
            let local = String::from_str(rest.substring_char(0, j));
            proof {
                assert(rest@ == name@.skip(i + 1));
                assert(prefix@ == name@.take(i as int));
                assert(local@ == rest@.take(j as int));
            }
            (prefix, local)
        }
    }

    /// The calls that the envelope `text` holds, in order, or why it is
    /// malformed.
    pub fn from(text: &str) -> (r: Result<Vec<Request>, SoapError>)
        ensures
            outcome(r) == parse_tokens(xml_events(text@)),
    {
        let mut reader = open_reader(text);
        let mut parser = Parser::new();
        loop
            invariant
                run(parser@, pending_events(reader)) == parse_tokens(xml_events(text@)),
                parser.wf(),
                forall|i: int|
                    0 <= i < pending_events(reader).len() ==> pending_events(reader)[i] !is Eof,
            decreases pending_events(reader).len(),
        {
            let e = next_event(&mut reader);
            if let XmlEvent::Eof = e {
                return parser.finish();
            }
            match parser.feed(&e) {
                Ok(()) => {},
                Err(m) => {
                    return Err(SoapError::Malformed(m));
                },
            }
        }
    }
}

/// The token sequence that a list of events stands for.
pub open spec fn tokens(events: Seq<XmlEvent>) -> Seq<Token> {
    events.map_values(|e: XmlEvent| e@)
}

/// The calls that a list of events holds, or why it is malformed.
pub fn parse_events(events: &Vec<XmlEvent>) -> (r: Result<Vec<Request>, SoapError>)
    ensures
        outcome(r) == parse_tokens(tokens(events@)),
{
    let ghost ts = tokens(events@);
    let mut parser = Parser::new();
    let n = events.len();
    let mut i: usize = 0;
    assert(ts.skip(0) == ts);
    while i < n
        invariant
            n == events@.len(),
            i <= n,
            ts == tokens(events@),
            run(parser@, ts.skip(i as int)) == parse_tokens(ts),
            parser.wf(),
        decreases n - i,
    {
        assert(ts.skip(i as int)[0] == events@[i as int]@);
        if let XmlEvent::Eof = events[i] {
            return parser.finish();
        }
        match parser.feed(&events[i]) {
            Ok(()) => {},
            Err(m) => {
                return Err(SoapError::Malformed(m));
            },
        }
        assert(ts.skip(i as int).drop_first() == ts.skip(i + 1));
        i = i + 1;
    }
    parser.finish()
}

/// The envelope parser: consumes events one at a time.
pub struct Parser {
    phase: Phase,
    requests: Vec<Request>,
    operation: String,
    arguments: Vec<(String, String)>,
    current: String,
    joining: bool,
}

impl View for Parser {
    type V = ParseModel;

    closed spec fn view(&self) -> ParseModel {
        ParseModel {
            phase: self.phase,
            requests: request_models(self.requests@),
            operation: self.operation@,
            arguments: arg_map(self.arguments@),
            current: self.current@,
            joining: self.joining,
        }
    }
}

/// Replacing the last record by one of the same name with more text appends
/// that text to the name's value.
proof fn lemma_arg_map_extend_last(args: Seq<(String, String)>, entry: (String, String), t: Seq<char>)
    requires
        args.len() > 0,
        entry.0@ == args.last().0@,
        entry.1@ == args.last().1@ + t,
    ensures
        arg_map(args.drop_last().push(entry)) == arg_map(args).insert(
            entry.0@,
            arg_map(args)[entry.0@] + t,
        ),
{
    assert(args.drop_last().push(entry).drop_last() == args.drop_last());
    assert(arg_map(args.drop_last().push(entry)) =~= arg_map(args).insert(
        entry.0@,
        arg_map(args)[entry.0@] + t,
    ));
}

impl Parser {
    /// The parser's invariant: while the current argument is receiving text,
    /// its record is the last one.
    pub closed spec fn wf(&self) -> bool {
        self.joining ==> {
            &&& self.phase == Phase::InOperation
            &&& self.current@.len() > 0
            &&& self.arguments@.len() > 0
            &&& self.arguments@.last().0@ == self.current@
        }
    }

    /// A parser before the first event.
    pub fn new() -> (r: Parser)
        ensures
            r@ == initial_model(),
            r.wf(),
    {
        let r = Parser {
            phase: Phase::Start,
            requests: Vec::new(),
            operation: String::new(),
            arguments: Vec::new(),
            current: String::new(),
            joining: false,
        };
        assert(request_models(r.requests@) =~= Seq::empty());
        r
    }

    fn start_tag(&mut self, l: String) -> (r: Result<(), Malformation>)
        requires
            old(self).wf(),
        ensures
            final(self).wf(),
            match start_tag(old(self)@, l@) {
                Ok(q) => r is Ok && final(self)@ == q,
                Err(m) => r == Err::<(), Malformation>(m),
            },
    {
        match self.phase {
            Phase::Start => Err(Malformation::MissingDeclaration),
            Phase::InDeclaration => {
                if l == String::from_str("Envelope") {
                    self.phase = Phase::InEnvelope;
                    Ok(())
                } else {
                    Err(Malformation::ExpectedEnvelope)
                }
            },
            Phase::InEnvelope => {
                if l == String::from_str("Body") {
                    self.phase = Phase::InBody;
                    Ok(())
                } else {
                    Err(Malformation::ExpectedBody)
                }
            },
            Phase::InBody => {
                self.phase = Phase::InOperation;
                self.operation = l;
                self.arguments = Vec::new();
                self.current = String::new();
                self.joining = false;
                Ok(())
            },
            Phase::InOperation => {
                self.current = l;
                self.joining = false;
                Ok(())
            },
        }
    }

    fn end_tag(&mut self, l: &String)
        requires
            old(self).wf(),
        ensures
            final(self).wf(),
            final(self)@ == end_tag(old(self)@, l@),
    {
        if self.phase == Phase::InOperation {
            if *l == self.operation {
                let mut operation = String::new();
                let mut arguments: Vec<(String, String)> = Vec::new();
                core::mem::swap(&mut operation, &mut self.operation);
                core::mem::swap(&mut arguments, &mut self.arguments);
                let request = Request { operation, arguments };
                proof {
                    assert(request_models(self.requests@.push(request)) =~= request_models(
                        self.requests@,
                    ).push(request@));
                }
                self.requests.push(request);
                self.phase = Phase::InBody;
                self.current = String::new();
                self.joining = false;
            } else if *l == self.current {
                self.current = String::new();
                self.joining = false;
            }
        }
    }

    fn add_piece(&mut self, t: &str)
        requires
            old(self).wf(),
        ensures
            final(self).wf(),
            final(self)@ == add_piece(old(self)@, t@),
    {
        if self.phase == Phase::InOperation && !self.current.as_str().is_empty() {
            if self.joining {
                let ghost args = self.arguments@;
                match self.arguments.pop() {
                    Some(last) => {
                        let (name, mut value) = last;
                        value.append(t);
                        let entry = (name, value);
                        proof {
                            lemma_arg_map_extend_last(args, entry, t@);
                        }
                        self.arguments.push(entry);
                    },
                    None => {},
                }
            } else {
                let pair = (self.current.clone(), String::from_str(t));
                proof {
                    assert(self.arguments@.push(pair).drop_last() == self.arguments@);
                }
                self.arguments.push(pair);
                self.joining = true;
            }
        }
    }

    fn text(&mut self, t: &String)
        requires
            old(self).wf(),
        ensures
            final(self).wf(),
            final(self)@ == text_event(old(self)@, t@),
    {
        if self.joining || !is_blank(t.as_str()) {
            self.add_piece(t.as_str());
        }
    }

    /// Consumes one event.
    pub fn feed(&mut self, e: &XmlEvent) -> (r: Result<(), Malformation>)
        requires
            old(self).wf(),
        ensures
            final(self).wf(),
            match step(old(self)@, e@) {
                Ok(q) => r is Ok && final(self)@ == q,
                Err(m) => r == Err::<(), Malformation>(m),
            },
    {
        match e {
            XmlEvent::Decl => {
                if self.phase == Phase::Start {
                    self.phase = Phase::InDeclaration;
                    Ok(())
                } else {
                    Err(Malformation::SecondDeclaration)
                }
            },
            XmlEvent::Start(n) => {
                let (_, local) = Reader::tag_name(n.as_str());
                self.start_tag(local)
            },
            XmlEvent::End(n) => {
                let (_, local) = Reader::tag_name(n.as_str());
                self.end_tag(&local);
                Ok(())
            },
            XmlEvent::Empty(n) => {
                let (_, local) = Reader::tag_name(n.as_str());
                let r = self.start_tag(local.clone());
                if r.is_ok() {
                    self.end_tag(&local);
                }
                r
            },
            XmlEvent::Text(t) => {
                self.text(t);
                Ok(())
            },
            XmlEvent::Reference(n) => {
                let t = resolve_reference(n.as_str());
                self.add_piece(t.as_str());
                Ok(())
            },
            XmlEvent::Invalid => Err(Malformation::Syntax),
            XmlEvent::Other => Ok(()),
            XmlEvent::Eof => Ok(()),
        }
    }

    /// The calls read, if the document may end here.
    pub fn finish(self) -> (r: Result<Vec<Request>, SoapError>)
        ensures
            outcome(r) == finish(self@),
    {
        if self.phase == Phase::InBody {
            Ok(self.requests)
        } else {
            Err(SoapError::Malformed(Malformation::Incomplete))
        }
    }
}

} // verus!
