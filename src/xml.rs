//! A small ordered XML tree and its rendering to text.
use vstd::prelude::*;

verus! {

/// Relies on `String::push`: appends one character.
#[verifier::external_body]
pub(crate) fn push_char(s: &mut String, c: char)
    ensures
        final(s)@ == old(s)@.push(c),
{
    s.push(c)
}

/// The text that stands for `c` in character data or an attribute value.
pub open spec fn escape_char(c: char) -> Seq<char> {
    if c == '&' {
        seq!['&', 'a', 'm', 'p', ';']
    } else if c == '<' {
        seq!['&', 'l', 't', ';']
    } else if c == '>' {
        seq!['&', 'g', 't', ';']
    } else if c == '"' {
        seq!['&', 'q', 'u', 'o', 't', ';']
    } else {
        seq![c]
    }
}

/// `s` with each markup character replaced by its entity reference.
pub open spec fn escape(s: Seq<char>) -> Seq<char>
    decreases s.len(),
{
    if s.len() == 0 {
        Seq::empty()
    } else {
        escape(s.drop_last()) + escape_char(s.last())
    }
}

/// Appends `escape(t@)` to `out`.
pub fn append_escaped(out: &mut String, t: &str)
    ensures
        final(out)@ == old(out)@ + escape(t@),
{
    let ghost start = out@;
    for c in it: t.chars()
        invariant
            it.seq() == t@,
            out@ == start + escape(it.seq().take(it.index() as int)),
    {
        proof {
            reveal_strlit("&amp;");
            reveal_strlit("&lt;");
            reveal_strlit("&gt;");
            reveal_strlit("&quot;");
            let k = it.index() as int;
            assert(it.seq().take(k + 1).drop_last() == it.seq().take(k));
            assert(it.seq().take(k + 1).last() == c);
            assert(escape(it.seq().take(k + 1)) == escape(it.seq().take(k)) + escape_char(c));
        }
        let ghost old_out = out@;
        if c == '&' {
            out.append("&amp;");
            assert("&amp;"@ =~= escape_char(c));
        } else if c == '<' {
            out.append("&lt;");
            assert("&lt;"@ =~= escape_char(c));
        } else if c == '>' {
            out.append("&gt;");
            assert("&gt;"@ =~= escape_char(c));
        } else if c == '"' {
            out.append("&quot;");
            assert("&quot;"@ =~= escape_char(c));
        } else {
            push_char(out, c);
            assert(old_out.push(c) =~= old_out + escape_char(c));
        }
    }
    proof {
        assert(t@.take(t@.len() as int) == t@);
    }
}

/// A node of an XML tree: an element with its tag, its attributes in order
/// and its children in order, or a run of character data.
pub enum Element {
    Node(String, Vec<(String, String)>, Vec<Element>),
    Text(String),
}

/// What an [`Element`] stands for, with its strings as character sequences.
pub enum ElementModel {
    Node(Seq<char>, Seq<(Seq<char>, Seq<char>)>, Seq<ElementModel>),
    Text(Seq<char>),
}

/// The tag of an element; empty for text.
pub open spec fn tag_of(e: ElementModel) -> Seq<char> {
    match e {
        ElementModel::Node(tag, _, _) => tag,
        ElementModel::Text(_) => Seq::empty(),
    }
}

/// The children of an element; none for text.
pub open spec fn children_of(e: ElementModel) -> Seq<ElementModel> {
    match e {
        ElementModel::Node(_, _, children) => children,
        ElementModel::Text(_) => Seq::empty(),
    }
}

/// The attribute pairs as character sequences.
pub open spec fn attrs_model(attrs: Seq<(String, String)>) -> Seq<(Seq<char>, Seq<char>)> {
    attrs.map_values(|a: (String, String)| (a.0@, a.1@))
}

/// The models of `es`, in order.
pub open spec fn models(es: Seq<Element>) -> Seq<ElementModel>
    decreases es,
{
    if es.len() == 0 {
        Seq::empty()
    } else {
        models(es.subrange(0, es.len() - 1)).push(model(es[es.len() - 1]))
    }
}

/// The model of `e`.
pub open spec fn model(e: Element) -> ElementModel
    decreases e,
{
    match e {
        Element::Node(tag, attrs, children) => ElementModel::Node(
            tag@,
            attrs_model(attrs@),
            models(children@),
        ),
        Element::Text(t) => ElementModel::Text(t@),
    }
}

impl View for Element {
    type V = ElementModel;

    open spec fn view(&self) -> ElementModel {
        model(*self)
    }
}

/// ` name="value"`, the value escaped.
pub open spec fn render_attr(a: (Seq<char>, Seq<char>)) -> Seq<char> {
    seq![' '] + a.0 + seq!['=', '"'] + escape(a.1) + seq!['"']
}

/// The attributes as they stand in a start tag, in order.
pub open spec fn render_attrs(attrs: Seq<(Seq<char>, Seq<char>)>) -> Seq<char>
    decreases attrs.len(),
{
    if attrs.len() == 0 {
        Seq::empty()
    } else {
        render_attrs(attrs.drop_last()) + render_attr(attrs.last())
    }
}

/// The text of an element: `<tag attrs/>` without children, else
/// `<tag attrs>children</tag>`; character data and attribute values are escaped.
pub open spec fn render(e: ElementModel) -> Seq<char>
    decreases e,
{
    match e {
        ElementModel::Node(tag, attrs, children) => {
            if children.len() == 0 {
                seq!['<'] + tag + render_attrs(attrs) + seq!['/', '>']
            } else {
                seq!['<'] + tag + render_attrs(attrs) + seq!['>'] + render_all(children)
                    + seq!['<', '/'] + tag + seq!['>']
            }
        },
        ElementModel::Text(t) => escape(t),
    }
}

/// The texts of `es`, one after the other.
pub open spec fn render_all(es: Seq<ElementModel>) -> Seq<char>
    decreases es,
{
    if es.len() == 0 {
        Seq::empty()
    } else {
        render_all(es.subrange(0, es.len() - 1)) + render(es[es.len() - 1])
    }
}

/// `attrs` as owned strings.
pub open spec fn str_pairs(attrs: Seq<(&str, &str)>) -> Seq<(Seq<char>, Seq<char>)> {
    attrs.map_values(|a: (&str, &str)| (a.0@, a.1@))
}

/// `models` keeps length and order.
pub proof fn lemma_models(es: Seq<Element>)
    ensures
        models(es).len() == es.len(),
        forall|i: int| 0 <= i < es.len() ==> #[trigger] models(es)[i] == es[i]@,
    decreases es.len(),
{
    if es.len() > 0 {
        lemma_models(es.subrange(0, es.len() - 1));
    }
}

pub proof fn lemma_models_push(es: Seq<Element>, e: Element)
    ensures
        models(es.push(e)) == models(es).push(model(e)),
{
    assert(es.push(e).subrange(0, es.len() as int) == es);
}

proof fn lemma_render_all_push(es: Seq<ElementModel>, e: ElementModel)
    ensures
        render_all(es.push(e)) == render_all(es) + render(e),
{
    assert(es.push(e).subrange(0, es.len() as int) == es);
}

impl Element {
    /// An element with the given tag, attributes and children.
    pub fn new_node(tag: &str, attrs: Vec<(&str, &str)>, children: Vec<Element>) -> (r: Element)
        ensures
            r@ == ElementModel::Node(tag@, str_pairs(attrs@), models(children@)),
    {
        let mut s_attrs: Vec<(String, String)> = Vec::new();
        let n = attrs.len();
        let mut i: usize = 0;
        while i < n
            invariant
                n == attrs@.len(),
                i <= n,
                attrs_model(s_attrs@) == str_pairs(attrs@.take(i as int)),
            decreases n - i,
        {
            let pair = (String::from_str(attrs[i].0), String::from_str(attrs[i].1));
            proof {
                assert(attrs@.take(i + 1) == attrs@.take(i as int).push(attrs@[i as int]));
                assert(s_attrs@.push(pair).map_values(|a: (String, String)| (a.0@, a.1@))
                    =~= attrs_model(s_attrs@).push((pair.0@, pair.1@)));
            }
            s_attrs.push(pair);
            i = i + 1;
        }
        assert(attrs@.take(n as int) == attrs@);
        Element::Node(String::from_str(tag), s_attrs, children)
    }

    /// An element from owned parts.
    pub fn node(tag: String, attrs: Vec<(String, String)>, children: Vec<Element>) -> (r: Element)
        ensures
            r@ == ElementModel::Node(tag@, attrs_model(attrs@), models(children@)),
    {
        Element::Node(tag, attrs, children)
    }

    /// Character data.
    pub fn new_text(content: &str) -> (r: Element)
        ensures
            r@ == ElementModel::Text(content@),
    {
        Element::Text(String::from_str(content))
    }

    /// Appends the text of this element to `out`.
    pub fn write_to(&self, out: &mut String)
        ensures
            final(out)@ == old(out)@ + render(self@),
        decreases self,
    {
        match self {
            Element::Node(tag, attrs, children) => {
                let ghost start = out@;
                proof {
                    reveal_strlit("<");
                    reveal_strlit(">");
                }
                out.append("<");
                out.append(tag.as_str());
                let n = attrs.len();
                for i in 0..n
                    invariant
                        n == attrs@.len(),
                        out@ == start + seq!['<'] + tag@ + render_attrs(
                            attrs_model(attrs@.take(i as int)),
                        ),
                {
                    proof {
                        reveal_strlit("<");
                        assert(attrs_model(attrs@.take(i + 1)).drop_last() == attrs_model(
                            attrs@.take(i as int),
                        ));
                    }
                    out.append(" ");
                    out.append(attrs[i].0.as_str());
                    out.append("=\"");
                    append_escaped(out, attrs[i].1.as_str());
                    out.append("\"");
                    proof {
                        reveal_strlit(" ");
                        reveal_strlit("=\"");
                        reveal_strlit("\"");
                    }
                }
                assert(attrs@.take(n as int) == attrs@);
                if children.len() == 0 {
                    out.append("/>");
                    proof {
                        reveal_strlit("/>");
                    }
                } else {
                    out.append(">");
                    let m = children.len();
                    for i in 0..m
                        invariant
                            m == children@.len(),
                            *self == Element::Node(*tag, *attrs, *children),
                            out@ == start + seq!['<'] + tag@ + render_attrs(attrs_model(attrs@))
                                + seq!['>'] + render_all(models(children@.take(i as int))),
                    {
                        proof {
                            reveal_strlit("<");
                            reveal_strlit(">");
                            assert(children@.take(i + 1) == children@.take(i as int).push(
                                children@[i as int],
                            ));
                            lemma_models_push(children@.take(i as int), children@[i as int]);
                            lemma_render_all_push(
                                models(children@.take(i as int)),
                                model(children@[i as int]),
                            );
                            assert(decreases_to!(*self => (*self)->2));
                            assert(decreases_to!(*children => children[i as int]));
                        }
                        children[i].write_to(out);
                    }
                    assert(children@.take(m as int) == children@);
                    out.append("</");
                    out.append(tag.as_str());
                    out.append(">");
                    proof {
                        reveal_strlit("</");
                        reveal_strlit(">");
                    }
                }
            },
            Element::Text(t) => {
                append_escaped(out, t.as_str());
            },
        }
    }

    /// The text of this element.
    pub fn to_string(&self) -> (r: String)
        ensures
            r@ == render(self@),
    {
        let mut out = String::new();
        self.write_to(&mut out);
        out
    }
}


/// An XML document: its declared encoding and its root element.
pub struct Document {
    encoding: String,
    root: Element,
}

/// `<?xml version="1.0" encoding="enc"?>` followed by the root's text.
pub open spec fn render_document(encoding: Seq<char>, root: ElementModel) -> Seq<char> {
    "<?xml version=\"1.0\" encoding=\""@ + encoding + "\"?>"@ + render(root)
}

impl Document {
    pub closed spec fn spec_encoding(&self) -> Seq<char> {
        self.encoding@
    }

    pub closed spec fn spec_root(&self) -> Element {
        self.root
    }

    /// A document with the given encoding and an empty `xml` root.
    pub fn new(encoding: &str) -> (r: Document)
        ensures
            r.spec_encoding() == encoding@,
            r.spec_root()@ == ElementModel::Node("xml"@, Seq::empty(), Seq::empty()),
    {
        let root = Element::new_node("xml", Vec::new(), Vec::new());
        proof {
            assert(models(Seq::<Element>::empty()) == Seq::<ElementModel>::empty());
            assert(str_pairs(Seq::<(&str, &str)>::empty()) =~= Seq::empty());
        }
        Document { encoding: String::from_str(encoding), root }
    }

    pub fn set_root(&mut self, element: Element)
        ensures
            final(self).spec_root() == element,
            final(self).spec_encoding() == old(self).spec_encoding(),
    {
        self.root = element;
    }

    pub fn get_root(&self) -> (r: &Element)
        ensures
            *r == self.spec_root(),
    {
        &self.root
    }

    pub fn get_mut_root(&mut self) -> (r: &mut Element)
        ensures
            *r == old(self).spec_root(),
            final(self).spec_root() == *final(r),
            final(self).spec_encoding() == old(self).spec_encoding(),
    {
        &mut self.root
    }

    /// The text of the document.
    pub fn to_string(&self) -> (r: String)
        ensures
            r@ == render_document(self.spec_encoding(), self.spec_root()@),
    {
        let mut out = String::from_str("<?xml version=\"1.0\" encoding=\"");
        out.append(self.encoding.as_str());
        out.append("\"?>");
        self.root.write_to(&mut out);
        out
    }
}

} // verus!
