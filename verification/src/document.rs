//! A TOML document as plain data.

use vstd::prelude::*;

verus! {

/// `toml::Value`, of which nothing is seen here: the parser's result is
/// rewritten as a [`Node`] before any of it is read.
#[verifier::external_type_specification]
#[verifier::external_body]
pub struct ExTomlValue(toml::Value);

/// `toml::de::Error`, of which nothing is seen here: it is handed on to the
/// caller as it came.
#[verifier::external_type_specification]
#[verifier::external_body]
pub struct ExTomlError(toml::de::Error);

/// One value of a TOML document.
///
/// A table lists its entries in order. One that comes from the parser has
/// them in the lexicographic order of their keys, each key once.
#[derive(Debug, PartialEq, Eq)]
pub enum Node {
    String(String),
    Integer(i64),
    /// A float, as the bits of its IEEE 754 binary64 form.
    Float(u64),
    Boolean(bool),
    /// A date-time, in the text form in which TOML writes it.
    Datetime(String),
    Array(Vec<Node>),
    Table(Vec<(String, Node)>),
}

/// The mathematical model of a [`Node`].
pub enum NodeView {
    String(Seq<char>),
    Integer(i64),
    Float(u64),
    Boolean(bool),
    Datetime(Seq<char>),
    Array(Seq<NodeView>),
    Table(Seq<(Seq<char>, NodeView)>),
}

impl View for Node {
    type V = NodeView;

    open spec fn view(&self) -> NodeView
        decreases self,
    {
        match self {
            Node::String(s) => NodeView::String(s@),
            Node::Integer(i) => NodeView::Integer(*i),
            Node::Float(bits) => NodeView::Float(*bits),
            Node::Boolean(b) => NodeView::Boolean(*b),
            Node::Datetime(text) => NodeView::Datetime(text@),
            Node::Array(items) => NodeView::Array(
                Seq::new(
                    items.len() as nat,
                    |i: int|
                        if 0 <= i < items.len() {
                            items[i]@
                        } else {
                            NodeView::Boolean(false)
                        },
                ),
            ),
            Node::Table(entries) => NodeView::Table(
                Seq::new(
                    entries.len() as nat,
                    |i: int|
                        if 0 <= i < entries.len() {
                            (entries[i].0@, entries[i].1@)
                        } else {
                            (Seq::empty(), NodeView::Boolean(false))
                        },
                ),
            ),
        }
    }
}

impl Clone for Node {
    fn clone(&self) -> (copy: Node)
        ensures
            copy@ == self@,
        decreases self,
    {
        match self {
            Node::String(s) => Node::String(s.clone()),
            Node::Integer(i) => Node::Integer(*i),
            Node::Float(bits) => Node::Float(*bits),
            Node::Boolean(b) => Node::Boolean(*b),
            Node::Datetime(text) => Node::Datetime(text.clone()),
            Node::Array(items) => {
                let mut copies: Vec<Node> = Vec::new();
                let mut i: usize = 0;
                while i < items.len()
                    invariant
                        self is Array && self->Array_0 == *items,
                        i <= items.len(),
                        copies.len() == i,
                        forall|j: int| 0 <= j < i ==> copies[j]@ == items[j]@,
                    decreases items.len() - i,
                {
                    assert(decreases_to!(*self => self->Array_0[i as int]));
                    let copy = items[i].clone();
                    copies.push(copy);
                    i += 1;
                }
                assert(Node::Array(copies)@->Array_0 =~= self@->Array_0);
                Node::Array(copies)
            },
            Node::Table(entries) => {
                let mut copies: Vec<(String, Node)> = Vec::new();
                let mut i: usize = 0;
                while i < entries.len()
                    invariant
                        self is Table && self->Table_0 == *entries,
                        i <= entries.len(),
                        copies.len() == i,
                        forall|j: int|
                            0 <= j < i ==> copies[j].0@ == entries[j].0@ && copies[j].1@
                                == entries[j].1@,
                    decreases entries.len() - i,
                {
                    let key = entries[i].0.clone();
                    assert(decreases_to!(*self => self->Table_0[i as int].1));
                    let value = entries[i].1.clone();
                    copies.push((key, value));
                    i += 1;
                }
                assert(Node::Table(copies)@->Table_0 =~= self@->Table_0);
                Node::Table(copies)
            },
        }
    }
}

impl DeepView for Node {
    type V = NodeView;

    open spec fn deep_view(&self) -> NodeView {
        self@
    }
}

/// The model of an array is that of its items, and the model of a table that
/// of its entries.
pub proof fn lemma_view_of_children(node: Node)
    ensures
        node matches Node::Array(items) ==> node@ == NodeView::Array(items.deep_view()),
        node matches Node::Table(entries) ==> node@ == NodeView::Table(entries.deep_view()),
{
    reveal_with_fuel(<Node as View>::view, 2);
    match node {
        Node::Array(items) => {
            assert(node@->Array_0 =~= items.deep_view());
        },
        Node::Table(entries) => {
            assert(node@->Table_0 =~= entries.deep_view());
        },
        _ => {},
    }
}

/// The value of the first entry that stands under `key`.
pub open spec fn lookup(entries: Seq<(Seq<char>, NodeView)>, key: Seq<char>) -> Option<NodeView>
    decreases entries.len(),
{
    if entries.len() == 0 {
        None
    } else if entries[0].0 == key {
        Some(entries[0].1)
    } else {
        lookup(entries.drop_first(), key)
    }
}

impl NodeView {
    /// The value under `key`, where this is a table that has the key.
    pub open spec fn get(self, key: Seq<char>) -> Option<NodeView> {
        match self {
            NodeView::Table(entries) => lookup(entries, key),
            _ => None,
        }
    }
}

/// Whether two texts hold the same characters.
pub(crate) fn same_text(left: &str, right: &str) -> (same: bool)
    ensures
        same == (left@ == right@),
{
    left.to_owned() == right.to_owned()
}

impl Node {
    /// Indexes into a table by a key: the value under `key` where this is a
    /// table that has the key, `None` for any other value.
    pub fn get(&self, key: &str) -> (found: Option<&Node>)
        ensures
            found.deep_view() == self@.get(key@),
    {
        match self {
            Node::Table(entries) => {
                proof {
                    lemma_view_of_children(*self);
                }
                let ghost all = entries.deep_view();
                let mut i: usize = 0;
                assert(all.skip(0) =~= all);
                while i < entries.len()
                    invariant
                        i <= entries.len(),
                        all == entries.deep_view(),
                        self@ == NodeView::Table(all),
                        lookup(all, key@) == lookup(all.skip(i as int), key@),
                    decreases entries.len() - i,
                {
                    assert(all.skip(i as int).drop_first() =~= all.skip(i + 1));
                    assert(all.skip(i as int)[0] == all[i as int]);
                    assert(all[i as int] == entries@[i as int].deep_view());
                    if same_text(entries[i].0.as_str(), key) {
                        return Some(&entries[i].1);
                    }
                    i += 1;
                }
                None
            },
            _ => None,
        }
    }
}

/// What the TOML parser makes of a text: the root table of the document it
/// holds, or `None` where the text is no TOML document.
pub uninterp spec fn toml_document(text: Seq<char>) -> Option<NodeView>;

/// Rewrites a `toml::Value` that the parser made as a [`Node`], variant by
/// variant: a float by `to_bits`, a date-time by its `Display`, an array item
/// by item, a table entry by entry in the order in which it hands them out.
///
/// Nothing is claimed of the result here; [`parse_document`] gives a name to
/// what becomes of a text.
#[verifier::external_body]
fn lift(value: toml::Value) -> Node {
    match value {
        toml::Value::String(s) => Node::String(s),
        toml::Value::Integer(i) => Node::Integer(i),
        toml::Value::Float(x) => Node::Float(x.to_bits()),
        toml::Value::Boolean(b) => Node::Boolean(b),
        toml::Value::Datetime(d) => Node::Datetime(d.to_string()),
        toml::Value::Array(a) => Node::Array(a.into_iter().map(lift).collect()),
        toml::Value::Table(t) => Node::Table(t.into_iter().map(|(k, v)| (k, lift(v))).collect()),
    }
}

/// Parses a TOML document with the `FromStr` of `toml::Table` and rewrites
/// the table with [`lift`].
///
/// The answer depends on the text alone: the contract gives it the name
/// [`toml_document`], says that an error comes exactly where the parser
/// refuses the text, and claims nothing else.
#[verifier::external_body]
pub(crate) fn parse_document(text: &str) -> (r: Result<Node, toml::de::Error>)
    ensures
        match r {
            Ok(root) => toml_document(text@) == Some(root@),
            Err(_) => toml_document(text@) is None,
        },
{
    match text.parse::<toml::Table>() {
        Ok(table) => Ok(lift(toml::Value::Table(table))),
        Err(e) => Err(e),
    }
}

} // verus!


