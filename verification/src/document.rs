//! TOML documents: the outside parser's values turned into the library's own
//! tree, and the pieces that every table decoder is made of.
use vstd::prelude::*;

verus! {

/// A TOML value.
pub enum Node {
    Text(String),
    Integer(i64),
    /// The IEEE-754 bits of a float.
    Float(u64),
    Boolean(bool),
    /// A date or time, in TOML notation.
    Datetime(String),
    Array(Vec<Node>),
    /// The entries of a table, in the order of their keys.
    Table(Vec<(String, Node)>),
}

/// The contents of a [`Node`].
pub enum NodeView {
    Text(Seq<char>),
    Integer(i64),
    Float(u64),
    Boolean(bool),
    Datetime(Seq<char>),
    Array(Seq<NodeView>),
    Table(Seq<(Seq<char>, NodeView)>),
}

/// The contents of a node.
pub open spec fn node_view(node: Node) -> NodeView
    decreases node,
{
    match node {
        Node::Text(s) => NodeView::Text(s@),
        Node::Integer(n) => NodeView::Integer(n),
        Node::Float(bits) => NodeView::Float(bits),
        Node::Boolean(b) => NodeView::Boolean(b),
        Node::Datetime(s) => NodeView::Datetime(s@),
        Node::Array(items) => NodeView::Array(
            Seq::new(
                items@.len(),
                |i: int|
                    if 0 <= i < items@.len() {
                        node_view(items@[i])
                    } else {
                        NodeView::Boolean(false)
                    },
            ),
        ),
        Node::Table(entries) => NodeView::Table(
            Seq::new(
                entries@.len(),
                |i: int|
                    if 0 <= i < entries@.len() {
                        (entries@[i].0@, node_view(entries@[i].1))
                    } else {
                        (Seq::empty(), NodeView::Boolean(false))
                    },
            ),
        ),
    }
}

impl View for Node {
    type V = NodeView;

    open spec fn view(&self) -> NodeView {
        node_view(*self)
    }
}

/// `toml::Value`: a value of a parsed document.
#[verifier::external_type_specification]
#[verifier::external_body]
pub struct ExValue(toml::Value);

/// What a `toml::Value` holds, down to its leaves.
pub uninterp spec fn held(value: toml::Value) -> NodeView;

/// What `toml::from_str` makes of a document: the table it denotes, or the
/// parser's message.
pub uninterp spec fn document(raw: Seq<char>) -> Result<NodeView, Seq<char>>;

/// `toml::from_str` into a table: the result depends on the text alone, and
/// a document is always a table.
#[verifier::external_body]
fn parse_toml(raw: &str) -> (r: Result<toml::Value, String>)
    ensures
        match r {
            Ok(value) => document(raw@) == Ok::<NodeView, Seq<char>>(held(value)),
            Err(message) => document(raw@) == Err::<NodeView, Seq<char>>(message@),
        },
{
    match toml::from_str::<toml::Table>(raw) {
        Ok(table) => Ok(toml::Value::Table(table)),
        Err(err) => Err(err.to_string()),
    }
}

/// One level of a `toml::Value`.
enum Opened {
    Text(String),
    Integer(i64),
    Float(u64),
    Boolean(bool),
    Datetime(String),
    Array(Vec<toml::Value>),
    Table(Vec<(String, toml::Value)>),
}

/// The variants of `toml::Value`, told apart: every variant's payload comes
/// out unchanged, a float as its bits, a datetime in its own notation, a
/// table as its entries in iteration order.
#[verifier::external_body]
fn open_value(value: toml::Value) -> (r: Opened)
    ensures
        held(value) == match r {
            Opened::Text(s) => NodeView::Text(s@),
            Opened::Integer(n) => NodeView::Integer(n),
            Opened::Float(bits) => NodeView::Float(bits),
            Opened::Boolean(b) => NodeView::Boolean(b),
            Opened::Datetime(s) => NodeView::Datetime(s@),
            Opened::Array(items) => NodeView::Array(
                Seq::new(items@.len(), |i: int| held(items@[i])),
            ),
            Opened::Table(entries) => NodeView::Table(
                Seq::new(entries@.len(), |i: int| (entries@[i].0@, held(entries@[i].1))),
            ),
        },
{
    match value {
        toml::Value::String(s) => Opened::Text(s),
        toml::Value::Integer(n) => Opened::Integer(n),
        toml::Value::Float(x) => Opened::Float(x.to_bits()),
        toml::Value::Boolean(b) => Opened::Boolean(b),
        toml::Value::Datetime(d) => Opened::Datetime(d.to_string()),
        toml::Value::Array(items) => Opened::Array(items),
        toml::Value::Table(table) => Opened::Table(table.into_iter().collect()),
    }
}

/// Turns a value of the parser into a node, level by level.
fn node_of(value: toml::Value) -> (r: Node)
    ensures
        r@ == held(value),
    decreases held(value),
{
    let ghost whole = held(value);
    match open_value(value) {
        Opened::Text(s) => Node::Text(s),
        Opened::Integer(n) => Node::Integer(n),
        Opened::Float(bits) => Node::Float(bits),
        Opened::Boolean(b) => Node::Boolean(b),
        Opened::Datetime(s) => Node::Datetime(s),
        Opened::Array(items) => {
            let ghost views = Seq::new(items@.len(), |i: int| held(items@[i]));
            let ghost all = items@;
            let mut items = items;
            let mut out: Vec<Node> = Vec::new();
            while items.len() > 0
                invariant
                    whole == held(value),
                    whole == NodeView::Array(views),
                    views.len() == all.len(),
                    forall|i: int| 0 <= i < all.len() ==> #[trigger] views[i] == held(all[i]),
                    items@ == all.skip(out@.len() as int),
                    out@.len() <= all.len(),
                    forall|i: int| 0 <= i < out@.len() ==> (#[trigger] out@[i])@ == views[i],
                decreases items@.len(),
            {
                let ghost k = out@.len() as int;
                let item = items.remove(0);
                assert(item == all[k]);
                assert(decreases_to!(whole => whole->Array_0));
                assert(decreases_to!(views => views[k]));
                out.push(node_of(item));
                assert(items@ =~= all.skip(k + 1));
            }
            let node = Node::Array(out);
            assert(node@->Array_0 =~= views);
            node
        },
        Opened::Table(entries) => {
            let ghost views = Seq::new(
                entries@.len(),
                |i: int| (entries@[i].0@, held(entries@[i].1)),
            );
            let ghost all = entries@;
            let mut entries = entries;
            let mut out: Vec<(String, Node)> = Vec::new();
            while entries.len() > 0
                invariant
                    whole == held(value),
                    whole == NodeView::Table(views),
                    views.len() == all.len(),
                    forall|i: int|
                        0 <= i < all.len() ==> #[trigger] views[i] == (all[i].0@, held(all[i].1)),
                    entries@ == all.skip(out@.len() as int),
                    out@.len() <= all.len(),
                    forall|i: int|
                        0 <= i < out@.len() ==> ((#[trigger] out@[i]).0@, out@[i].1@) == views[i],
                decreases entries@.len(),
            {
                let ghost k = out@.len() as int;
                let (key, item) = entries.remove(0);
                assert((key, item) == all[k]);
                assert(decreases_to!(whole => whole->Table_0));
                assert(decreases_to!(views => views[k]));
                assert(decreases_to!(views[k] => views[k].1));
                out.push((key, node_of(item)));
                assert(entries@ =~= all.skip(k + 1));
            }
            let node = Node::Table(out);
            assert(node@->Table_0 =~= views);
            node
        },
    }
}

/// Parses a TOML document.
pub fn read_document(raw: &str) -> (r: Result<Node, String>)
    ensures
        match r {
            Ok(node) => document(raw@) == Ok::<NodeView, Seq<char>>(node@),
            Err(message) => document(raw@) == Err::<NodeView, Seq<char>>(message@),
        },
{
    match parse_toml(raw) {
        Ok(value) => Ok(node_of(value)),
        Err(message) => Err(message),
    }
}

} // verus!
