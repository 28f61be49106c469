//! The entities of the document tree.

use vstd::prelude::*;

use crate::key_order::str_eq;
use crate::props::Properties;
use crate::span::Spanned;
use vstd::std_specs::cmp::PartialEqSpec;

verus! {

/// Arbitrary-precision integer literal, kept as its original text.
#[derive(Clone, Debug)]
pub struct Integer(String);

impl Integer {
    /// The canonical textual form.
    pub closed spec fn text(self) -> Seq<char> {
        self.0@
    }

    /// Wraps a pre-validated integer numeral; the text is stored unchanged.
    pub fn from_string(val: String) -> (r: Integer)
        ensures
            r.text() == val@,
    {
        Integer(val)
    }

    /// Read-only access to the canonical text.
    pub fn as_str(&self) -> (r: &str)
        ensures
            r@ == self.text(),
    {
        self.0.as_str()
    }
}

/// Known type identifier described by the format specification.
///
/// The set of built-in names is deliberately empty for now: it is reserved
/// until the specification fixes a list, so this type offers no constructor
/// and no value of it can be made, here or by a client.  `Custom` is the
/// only classification a `TypeName` is ever given.
#[derive(Clone, Copy, Debug)]
pub struct BuiltinType {
    name: &'static str,
}

impl BuiltinType {
    /// The canonical textual form.
    pub closed spec fn text(self) -> Seq<char> {
        self.name@
    }

    /// The canonical name of the built-in type.
    pub fn as_str(&self) -> (r: &'static str)
        ensures
            r@ == self.text(),
    {
        self.name
    }
}

impl PartialEq for Integer {
    /// Two integer literals are equal exactly when their texts are: `"1"`
    /// and `"0x1"` differ here even though they denote the same number.
    fn eq(&self, other: &Integer) -> bool {
        self.0 == other.0
    }
}

impl vstd::std_specs::cmp::PartialEqSpecImpl for Integer {
    open spec fn obeys_eq_spec() -> bool {
        true
    }

    open spec fn eq_spec(&self, other: &Integer) -> bool {
        self.text() == other.text()
    }
}

/// Equality of integer literals is textual identity of the canonical forms:
/// two literals are equal exactly when their stored texts agree, never by
/// numeric value alone.
pub proof fn lemma_integer_eq_is_text_identity(a: Integer, b: Integer)
    ensures
        a.eq_spec(&b) <==> a.text() == b.text(),
{
}

/// Arbitrary-precision decimal literal, kept as its original text.
#[derive(Clone, Debug)]
pub struct Decimal(String);

impl Decimal {
    /// The canonical textual form.
    pub closed spec fn text(self) -> Seq<char> {
        self.0@
    }

    /// Wraps a pre-validated decimal numeral; the text is stored unchanged.
    pub fn from_string(val: String) -> (r: Decimal)
        ensures
            r.text() == val@,
    {
        Decimal(val)
    }

    /// Read-only access to the canonical text.
    pub fn as_str(&self) -> (r: &str)
        ensures
            r@ == self.text(),
    {
        self.0.as_str()
    }
}

impl PartialEq for Decimal {
    /// Two decimal literals are equal exactly when their texts are: `"1.50"`
    /// and `"1.5"` differ here even though they denote the same number.
    fn eq(&self, other: &Decimal) -> bool {
        self.0 == other.0
    }
}

impl vstd::std_specs::cmp::PartialEqSpecImpl for Decimal {
    open spec fn obeys_eq_spec() -> bool {
        true
    }

    open spec fn eq_spec(&self, other: &Decimal) -> bool {
        self.text() == other.text()
    }
}

/// Equality of decimal literals is textual identity of the canonical forms:
/// `"1.50"` and `"1.5"` stay distinct even though they denote one number.
pub proof fn lemma_decimal_eq_is_text_identity(a: Decimal, b: Decimal)
    ensures
        a.eq_spec(&b) <==> a.text() == b.text(),
{
}

/// Type identifier attached to a node or a value.
#[derive(Clone, Debug)]
pub struct TypeName(TypeNameInner);

#[derive(Clone, Debug)]
enum TypeNameInner {
    Builtin(BuiltinType),
    Custom(String),
}

impl TypeName {
    /// The canonical string form, whatever the classification.
    pub closed spec fn text(self) -> Seq<char> {
        match self.0 {
            TypeNameInner::Builtin(b) => b.text(),
            TypeNameInner::Custom(s) => s@,
        }
    }

    /// Whether this name carries the `Custom` classification.
    pub closed spec fn is_custom(self) -> bool {
        self.0 is Custom
    }

    /// Classifies raw text as a type name.
    ///
    /// Recognition of built-in names is reserved for a future fixed list, so
    /// today every input is classified `Custom` and the stored text is
    /// exactly the input.  Identifier syntax is not checked here: rejecting
    /// malformed names is the producing parser's duty.
    pub fn from_string(val: String) -> (r: TypeName)
        ensures
            r.is_custom(),
            r.text() == val@,
    {
        TypeName(TypeNameInner::Custom(val))
    }

    /// Dereferences to the canonical string, for either classification.
    pub fn as_str(&self) -> (r: &str)
        ensures
            r@ == self.text(),
    {
        match &self.0 {
            TypeNameInner::Builtin(t) => t.as_str(),
            TypeNameInner::Custom(t) => t.as_str(),
        }
    }
}

impl PartialEq for TypeName {
    /// Equal when the classifications agree and the canonical strings agree.
    fn eq(&self, other: &TypeName) -> bool {
        match (&self.0, &other.0) {
            (TypeNameInner::Custom(a), TypeNameInner::Custom(b)) => *a == *b,
            (TypeNameInner::Builtin(a), TypeNameInner::Builtin(b)) => str_eq(
                a.as_str(),
                b.as_str(),
            ),
            _ => false,
        }
    }
}

impl vstd::std_specs::cmp::PartialEqSpecImpl for TypeName {
    open spec fn obeys_eq_spec() -> bool {
        true
    }

    open spec fn eq_spec(&self, other: &TypeName) -> bool {
        self.is_custom() == other.is_custom() && self.text() == other.text()
    }
}

/// Scalar value: the closed set of literal kinds.
///
/// Consumers are expected to match exhaustively; adding a kind is a breaking
/// change by design.
#[derive(Clone, Debug)]
pub enum Literal {
    /// Integer value
    Int(Integer),
    /// Decimal (or floating point) value
    Decimal(Decimal),
    /// String value
    String(String),
    /// Boolean value
    Boolean(bool),
    /// Null value
    Null,
}

impl PartialEq for Literal {
    /// Equal when the kinds agree and the payloads agree; numeric payloads
    /// compare by canonical text.
    fn eq(&self, other: &Literal) -> bool {
        match (self, other) {
            (Literal::Int(a), Literal::Int(b)) => *a == *b,
            (Literal::Decimal(a), Literal::Decimal(b)) => *a == *b,
            (Literal::String(a), Literal::String(b)) => *a == *b,
            (Literal::Boolean(a), Literal::Boolean(b)) => *a == *b,
            (Literal::Null, Literal::Null) => true,
            _ => false,
        }
    }
}

impl vstd::std_specs::cmp::PartialEqSpecImpl for Literal {
    open spec fn obeys_eq_spec() -> bool {
        true
    }

    open spec fn eq_spec(&self, other: &Literal) -> bool {
        match (self, other) {
            (Literal::Int(a), Literal::Int(b)) => a.text() == b.text(),
            (Literal::Decimal(a), Literal::Decimal(b)) => a.text() == b.text(),
            (Literal::String(a), Literal::String(b)) => a@ == b@,
            (Literal::Boolean(a), Literal::Boolean(b)) => a == b,
            (Literal::Null, Literal::Null) => true,
            _ => false,
        }
    }
}

/// Possibly typed value: a literal plus an optional type annotation.
///
/// No cross-validation between annotation and literal kind happens here;
/// semantic checks belong to a downstream stage.
#[derive(Clone, Debug)]
pub struct Value<S> {
    pub type_annotation: Option<Spanned<TypeName, S>>,
    pub literal: Spanned<Literal, S>,
}

/// Single node of the document tree.
///
/// Arguments keep their construction order; properties are ordered by key.
/// An absent children block and a present-but-empty one are distinct states
/// of storage, though both enumerate no children.
#[derive(Debug)]
pub struct Node<S> {
    pub type_annotation: Option<Spanned<TypeName, S>>,
    pub node_name: Spanned<String, S>,
    pub arguments: Vec<Spanned<Value<S>, S>>,
    pub properties: Properties<S>,
    pub children: Option<Spanned<Vec<Spanned<Node<S>, S>>, S>>,
}

impl<S> Node<S> {
    /// The direct children in document order: empty both when no children
    /// block was written and when an empty one was.
    pub open spec fn children_seq(self) -> Seq<Spanned<Node<S>, S>> {
        match self.children {
            Some(c) => c.value@,
            None => Seq::empty(),
        }
    }

    /// Returns node children in document order.
    pub fn children(&self) -> (r: &[Spanned<Node<S>, S>])
        ensures
            r@ == self.children_seq(),
    {
        match &self.children {
            Some(c) => c.value.as_slice(),
            None => &[],
        }
    }

    /// Appends a positional argument after the ones already present:
    /// argument order is construction order, never re-sorted.
    pub fn push_argument(&mut self, arg: Spanned<Value<S>, S>)
        ensures
            final(self).arguments@ == old(self).arguments@.push(arg),
            final(self).type_annotation == old(self).type_annotation,
            final(self).node_name == old(self).node_name,
            final(self).properties == old(self).properties,
            final(self).children == old(self).children,
    {
        self.arguments.push(arg);
    }
}

/// A node with no children block and a node with an empty children block
/// both enumerate no children: the two states stay distinguishable in
/// storage (`children` absent or present) yet indistinguishable through
/// `children()`.
pub proof fn lemma_children_absent_or_empty<S>(n: Node<S>)
    ensures
        n.children is None ==> n.children_seq() == Seq::<Spanned<Node<S>, S>>::empty(),
        (n.children matches Some(c) && c.value@.len() == 0) ==> n.children_seq()
            == Seq::<Spanned<Node<S>, S>>::empty(),
{
    if n.children matches Some(c) && c.value@.len() == 0 {
        assert(n.children_seq() =~= Seq::<Spanned<Node<S>, S>>::empty());
    }
}

/// Document root: an ordered sequence of top-level nodes.
#[derive(Debug)]
pub struct Document<S> {
    pub children: Vec<Spanned<Node<S>, S>>,
}

impl<S> Document<S> {
    /// Returns the top-level nodes in document order.
    pub fn nodes(&self) -> (r: &[Spanned<Node<S>, S>])
        ensures
            r@ == self.children@,
    {
        self.children.as_slice()
    }
}

} // verus!
