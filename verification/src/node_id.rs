//! Node identifiers: a namespace index and an identifier.

use vstd::prelude::*;

verus! {

/// The identifier part of a node id.
#[derive(Debug)]
pub enum Identifier {
    /// A numeric identifier (`i=`).
    Numeric(u32),
    /// A string identifier (`s=`).
    String(String),
    /// A GUID identifier (`g=`), its sixteen bytes read big-endian.
    Guid(u128),
    /// An opaque byte-string identifier (`b=`).
    ByteString(Vec<u8>),
}

/// Mathematical view of an [`Identifier`].
pub enum IdentifierView {
    Numeric(u32),
    Text(Seq<char>),
    Guid(u128),
    Opaque(Seq<u8>),
}

impl View for Identifier {
    type V = IdentifierView;

    open spec fn view(&self) -> IdentifierView {
        match self {
            Identifier::Numeric(n) => IdentifierView::Numeric(*n),
            Identifier::String(s) => IdentifierView::Text(s@),
            Identifier::Guid(g) => IdentifierView::Guid(*g),
            Identifier::ByteString(b) => IdentifierView::Opaque(b@),
        }
    }
}

/// An identifier for a node in the address space of an OPC UA server.
#[derive(Debug)]
pub struct NodeId {
    /// The index of the namespace.
    pub namespace: u16,
    /// The identifier within the namespace.
    pub identifier: Identifier,
}

/// Mathematical view of a [`NodeId`].
pub struct NodeIdView {
    pub namespace: u16,
    pub identifier: IdentifierView,
}

impl View for NodeId {
    type V = NodeIdView;

    open spec fn view(&self) -> NodeIdView {
        NodeIdView { namespace: self.namespace, identifier: self.identifier@ }
    }
}

/// The view of the numeric node id `ns=namespace;i=value`.
pub open spec fn numeric_view(namespace: u16, value: u32) -> NodeIdView {
    NodeIdView { namespace, identifier: IdentifierView::Numeric(value) }
}

/// The view of the string node id `ns=namespace;s=text`.
pub open spec fn string_view(namespace: u16, text: Seq<char>) -> NodeIdView {
    NodeIdView { namespace, identifier: IdentifierView::Text(text) }
}

/// Whether a node id is the null node id (`i=0` in namespace 0).
pub open spec fn is_null_view(id: NodeIdView) -> bool {
    id == numeric_view(0, 0)
}

/// Whether `ids` holds `id`.
pub open spec fn ids_contain(ids: Seq<NodeIdView>, id: NodeIdView) -> bool {
    exists|i: int| 0 <= i < ids.len() && ids[i] == id
}

/// The views of a sequence of node ids.
pub open spec fn id_views(ids: Seq<NodeId>) -> Seq<NodeIdView> {
    ids.map_values(|id: NodeId| id@)
}

/// Byte-by-byte equality of two byte vectors.
pub fn bytes_equal(a: &Vec<u8>, b: &Vec<u8>) -> (r: bool)
    ensures
        r == (a@ == b@),
{
    if a.len() != b.len() {
        return false;
    }
    let mut i: usize = 0;
    while i < a.len()
        invariant
            a.len() == b.len(),
            i <= a.len(),
            forall|j: int| 0 <= j < i ==> a@[j] == b@[j],
        decreases a.len() - i,
    {
        if a[i] != b[i] {
            return false;
        }
        i = i + 1;
    }
    assert(a@ =~= b@);
    true
}

/// Element-wise copy of a byte vector.
pub fn copy_bytes(a: &Vec<u8>) -> (r: Vec<u8>)
    ensures
        r@ == a@,
{
    let mut r: Vec<u8> = Vec::new();
    let mut i: usize = 0;
    while i < a.len()
        invariant
            i <= a.len(),
            r@ == a@.subrange(0, i as int),
        decreases a.len() - i,
    {
        r.push(a[i]);
        i = i + 1;
    }
    assert(r@ =~= a@);
    r
}

impl Identifier {
    /// Whether two identifiers are equal.
    pub fn equals(&self, other: &Identifier) -> (r: bool)
        ensures
            r == (self@ == other@),
    {
        match (self, other) {
            (Identifier::Numeric(a), Identifier::Numeric(b)) => *a == *b,
            (Identifier::String(a), Identifier::String(b)) => *a == *b,
            (Identifier::Guid(a), Identifier::Guid(b)) => *a == *b,
            (Identifier::ByteString(a), Identifier::ByteString(b)) => bytes_equal(a, b),
            _ => false,
        }
    }

    /// A copy of the identifier.
    pub fn duplicate(&self) -> (r: Identifier)
        ensures
            r@ == self@,
    {
        match self {
            Identifier::Numeric(n) => Identifier::Numeric(*n),
            Identifier::String(s) => Identifier::String(s.clone()),
            Identifier::Guid(g) => Identifier::Guid(*g),
            Identifier::ByteString(b) => Identifier::ByteString(copy_bytes(b)),
        }
    }
}

impl NodeId {
    /// A numeric node id.
    pub fn numeric(namespace: u16, value: u32) -> (r: NodeId)
        ensures
            r@ == numeric_view(namespace, value),
    {
        NodeId { namespace, identifier: Identifier::Numeric(value) }
    }

    /// A string node id.
    pub fn string(namespace: u16, text: &str) -> (r: NodeId)
        ensures
            r@ == string_view(namespace, text@),
    {
        NodeId { namespace, identifier: Identifier::String(text.to_owned()) }
    }

    /// A string node id that takes ownership of the text.
    pub fn from_string(namespace: u16, text: String) -> (r: NodeId)
        ensures
            r@ == string_view(namespace, text@),
    {
        NodeId { namespace, identifier: Identifier::String(text) }
    }

    /// The null node id.
    pub fn null() -> (r: NodeId)
        ensures
            is_null_view(r@),
    {
        NodeId::numeric(0, 0)
    }

    /// Whether this is the null node id.
    pub fn is_null(&self) -> (r: bool)
        ensures
            r == is_null_view(self@),
    {
        self.namespace == 0 && matches!(self.identifier, Identifier::Numeric(0))
    }

    /// Whether two node ids are equal.
    pub fn equals(&self, other: &NodeId) -> (r: bool)
        ensures
            r == (self@ == other@),
    {
        self.namespace == other.namespace && self.identifier.equals(&other.identifier)
    }

    /// A copy of the node id.
    pub fn duplicate(&self) -> (r: NodeId)
        ensures
            r@ == self@,
    {
        NodeId { namespace: self.namespace, identifier: self.identifier.duplicate() }
    }
}

/// Whether `ids` holds a node id equal to `id`.
pub fn contains_id(ids: &[NodeId], id: &NodeId) -> (r: bool)
    ensures
        r == ids_contain(id_views(ids@), id@),
{
    let mut i: usize = 0;
    while i < ids.len()
        invariant
            i <= ids.len(),
            forall|j: int| 0 <= j < i ==> ids@[j]@ != id@,
        decreases ids.len() - i,
    {
        if ids[i].equals(id) {
            assert(id_views(ids@)[i as int] == id@);
            return true;
        }
        i = i + 1;
    }
    assert forall|j: int| 0 <= j < id_views(ids@).len() implies id_views(ids@)[j] != id@ by {
        assert(id_views(ids@)[j] == ids@[j]@);
    }
    false
}

/// A copy of a list of node ids.
pub fn duplicate_ids(ids: &[NodeId]) -> (r: Vec<NodeId>)
    ensures
        id_views(r@) == id_views(ids@),
{
    let mut r: Vec<NodeId> = Vec::new();
    let mut i: usize = 0;
    while i < ids.len()
        invariant
            i <= ids.len(),
            r.len() == i,
            forall|j: int| 0 <= j < i ==> r@[j]@ == ids@[j]@,
        decreases ids.len() - i,
    {
        r.push(ids[i].duplicate());
        i = i + 1;
    }
    assert(id_views(r@) =~= id_views(ids@));
    r
}

/// The decimal digit character of `d`, for `d < 10`.
pub open spec fn digit_char(d: nat) -> char {
    ((48 + d) as u32) as char
}

/// The decimal text of a natural number, without leading zeros.
pub open spec fn decimal_text(n: nat) -> Seq<char>
    decreases n,
{
    if n < 10 {
        seq![digit_char(n)]
    } else {
        decimal_text(n / 10) + seq![digit_char(n % 10)]
    }
}

proof fn lemma_digit_char_injective(a: nat, b: nat)
    requires
        a < 10,
        b < 10,
        digit_char(a) == digit_char(b),
    ensures
        a == b,
{
    assert(digit_char(a) as u32 == 48 + a);
    assert(digit_char(b) as u32 == 48 + b);
}

/// The decimal text of a number has one digit below 10 and at least two from 10 on.
pub proof fn lemma_decimal_text_len(n: nat)
    ensures
        decimal_text(n).len() >= 1,
        n >= 10 ==> decimal_text(n).len() >= 2,
    decreases n,
{
    if n >= 10 {
        lemma_decimal_text_len(n / 10);
    }
}

/// Distinct numbers have distinct decimal texts.
pub proof fn lemma_decimal_text_injective(a: nat, b: nat)
    requires
        decimal_text(a) == decimal_text(b),
    ensures
        a == b,
    decreases a,
{
    lemma_decimal_text_len(a);
    lemma_decimal_text_len(b);
    if a < 10 && b < 10 {
        assert(decimal_text(a)[0] == digit_char(a));
        assert(decimal_text(b)[0] == digit_char(b));
        lemma_digit_char_injective(a, b);
    } else if a >= 10 && b >= 10 {
        let da = decimal_text(a);
        let db = decimal_text(b);
        assert(da.last() == digit_char(a % 10));
        assert(db.last() == digit_char(b % 10));
        lemma_digit_char_injective(a % 10, b % 10);
        assert(da.drop_last() =~= decimal_text(a / 10));
        assert(db.drop_last() =~= decimal_text(b / 10));
        lemma_decimal_text_injective(a / 10, b / 10);
    } else {
        assert(decimal_text(a).len() != decimal_text(b).len());
    }
}

/// The text form (OPC UA Part 6, 5.3.1.10) of a node id with a numeric or string identifier:
/// `ns=<namespace>;` when the namespace is not 0, then `i=<number>` or `s=<text>`.
pub open spec fn simple_node_id_text(id: NodeIdView) -> Seq<char> {
    let prefix = if id.namespace == 0 {
        Seq::<char>::empty()
    } else {
        seq!['n', 's', '='] + decimal_text(id.namespace as nat) + seq![';']
    };
    match id.identifier {
        IdentifierView::Numeric(n) => prefix + seq!['i', '='] + decimal_text(n as nat),
        IdentifierView::Text(t) => prefix + seq!['s', '='] + t,
        _ => Seq::<char>::empty(),
    }
}

/// Whether the text form of `id` reads back as `id`: a numeric identifier, or a string
/// identifier that is not empty and holds no line feed (the parser's pattern wants at
/// least one character after `s=` and stops at a line feed).
pub open spec fn text_form_reads_back(id: NodeIdView) -> bool {
    match id.identifier {
        IdentifierView::Numeric(_) => true,
        IdentifierView::Text(t) => t.len() > 0 && !t.contains('\n'),
        _ => false,
    }
}

/// The text that the `opcua_types` `Display` implementation gives a node id.
pub uninterp spec fn node_id_text(id: NodeIdView) -> Seq<char>;

/// The node id that `opcua_types` parses from a text (`NodeId::from_str`), if any.
pub uninterp spec fn parsed_node_id(text: Seq<char>) -> Option<NodeIdView>;

/// The view of an optional node id.
pub open spec fn opt_id_view(id: Option<NodeId>) -> Option<NodeIdView> {
    match id {
        Some(i) => Some(i@),
        None => None,
    }
}

/// Formats a node id with `opcua_types::NodeId`'s `Display` implementation.
///
/// Trusted: the result is the library's text of the node id; for numeric and string
/// identifiers that text is `[ns=<n>;]i=<number>` or `[ns=<n>;]s=<text>`, as
/// `NodeId::fmt` and `Identifier::fmt` write it. GUID and byte-string texts are left named.
#[verifier::external_body]
pub fn format_node_id(id: &NodeId) -> (r: String)
    ensures
        r@ == node_id_text(id@),
        (id@.identifier is Numeric || id@.identifier is Text) ==> r@ == simple_node_id_text(id@),
{
    let identifier = match &id.identifier {
        Identifier::Numeric(n) => opcua_types::Identifier::Numeric(*n),
        Identifier::String(s) => opcua_types::Identifier::String(s.as_str().into()),
        Identifier::Guid(g) => opcua_types::Identifier::Guid(opcua_types::Guid::from_bytes(g.to_be_bytes())),
        Identifier::ByteString(b) => opcua_types::Identifier::ByteString(b.clone().into()),
    };
    opcua_types::NodeId { namespace: id.namespace, identifier }.to_string()
}

/// Parses a node id with `opcua_types::NodeId::from_str`.
///
/// Trusted: the result is the library's parse of the text, converted one for one (a null
/// byte string becomes an empty one). Which texts parse is left named, but for the text
/// form `[ns=<n>;]i=<number>` or `[ns=<n>;]s=<text>` of an id whose form reads back (see
/// [`text_form_reads_back`]): `NodeId::from_str` matches it against
/// `^(ns=([0-9]+);)?([isgb]=.+)$` and `Identifier::from_str` reads the number or takes
/// the text, so the parse is that id.
#[verifier::external_body]
pub fn parse_node_id(text: &str) -> (r: Option<NodeId>)
    ensures
        opt_id_view(r) == parsed_node_id(text@),
        forall|id: NodeIdView|
            text_form_reads_back(id) && #[trigger] simple_node_id_text(id) == text@ ==> opt_id_view(r) == Some(id),
{
    let id = <opcua_types::NodeId as std::str::FromStr>::from_str(text).ok()?;
    let identifier = match id.identifier {
        opcua_types::Identifier::Numeric(n) => Identifier::Numeric(n),
        opcua_types::Identifier::String(s) => Identifier::String(s.as_ref().to_owned()),
        opcua_types::Identifier::Guid(g) => Identifier::Guid(u128::from_be_bytes(g.to_bytes())),
        opcua_types::Identifier::ByteString(b) => Identifier::ByteString(b.value.unwrap_or_default()),
    };
    Some(NodeId { namespace: id.namespace, identifier })
}

} // verus!
