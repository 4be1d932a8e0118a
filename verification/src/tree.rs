//! Generic parse tree: each node carries a rule tag, the matched source text,
//! and its ordered child nodes. The semantic pass dispatches on the rule tag
//! and recurses into unrecognized nodes, so wrapper rules pass through
//! unchanged.
use vstd::prelude::*;

verus! {

use vstd::string::StringExecFns;

/// The grammar rules the semantic pass distinguishes. Every node whose rule
/// has no meaning of its own carries `Other` and is traversed structurally.
#[derive(Clone, Copy, Debug, PartialEq, Eq, Structural)]
pub enum RuleTag {
    Identifier,
    ScopedName,
    ModuleDcl,
    StructDef,
    TypeDeclarator,
    ConstDcl,
    Member,
    Declarators,
    Declarator,
    SimpleDeclarator,
    ArrayDeclarator,
    FixedArraySize,
    ConstExpr,
    UnaryExpr,
    UnaryOperator,
    PrimaryExpr,
    Literal,
    OrExpr,
    XorExpr,
    AndExpr,
    LShiftExpr,
    RShiftExpr,
    AddExpr,
    SubExpr,
    MulExpr,
    DivExpr,
    ModExpr,
    DecimalIntegerLiteral,
    OctalIntegerLiteral,
    HexIntegerLiteral,
    FloatingPtLiteral,
    IntegralPart,
    FractionalPart,
    Exponent,
    FloatSuffix,
    BooleanLiteral,
    CharacterLiteral,
    FloatType,
    DoubleType,
    LongDoubleType,
    UnsignedShortInt,
    UnsignedLongInt,
    UnsignedLongLongInt,
    SignedShortInt,
    SignedLongInt,
    SignedLongLongInt,
    CharType,
    WideCharType,
    BooleanType,
    OctetType,
    StringType,
    WideStringType,
    SequenceType,
    UnionDef,
    Other,
}

/// One node of the parse tree.
#[derive(Debug)]
pub struct ParseNode {
    pub tag: RuleTag,
    pub text: String,
    pub children: Vec<ParseNode>,
}

/// Mathematical view of `ParseNode`.
#[verifier::ext_equal]
pub struct NodeView {
    pub tag: RuleTag,
    pub text: Seq<char>,
    pub children: Seq<NodeView>,
}

pub open spec fn node_view(n: ParseNode) -> NodeView
    decreases n,
{
    NodeView { tag: n.tag, text: n.text@, children: nodes_view(n.children@) }
}

/// The views of a sequence of parse nodes, in order.
pub open spec fn nodes_view(s: Seq<ParseNode>) -> Seq<NodeView>
    decreases s,
{
    Seq::new(
        s.len(),
        |i: int|
            if 0 <= i < s.len() {
                node_view(s[i])
            } else {
                vstd::pervasive::arbitrary()
            },
    )
}

pub broadcast proof fn lemma_nodes_view_len(s: Seq<ParseNode>)
    ensures
        (#[trigger] nodes_view(s)).len() == s.len(),
{
}

pub broadcast proof fn lemma_nodes_view_index(s: Seq<ParseNode>, i: int)
    requires
        0 <= i < s.len(),
    ensures
        #[trigger] nodes_view(s)[i] == node_view(s[i]),
{
}

impl View for ParseNode {
    type V = NodeView;

    open spec fn view(&self) -> NodeView {
        node_view(*self)
    }
}

impl ParseNode {
    /// A leaf node: a rule tag and its matched text, no children.
    pub fn leaf(tag: RuleTag, text: String) -> (r: ParseNode)
        ensures
            r@.tag == tag,
            r@.text == text@,
            r@.children == Seq::<NodeView>::empty(),
    {
        let r = ParseNode { tag, text, children: Vec::new() };
        proof {
            assert(r@.children =~= Seq::<NodeView>::empty());
        }
        r
    }

    /// An interior node: a rule tag, optional matched text, and its ordered
    /// children; the children's well-shapedness carries over to the node's
    /// child sequence.
    pub fn node(tag: RuleTag, text: String, children: Vec<ParseNode>) -> (r: ParseNode)
        ensures
            r@.tag == tag,
            r@.text == text@,
            r@.children.len() == children@.len(),
            forall|i: int|
                0 <= i < children@.len() ==> r@.children[i] == node_view(#[trigger] children@[i]),
            (forall|i: int|
                0 <= i < children@.len() ==> node_wf(node_view(#[trigger] children@[i])))
                ==> children_wf(r@.children, 0),
    {
        let r = ParseNode { tag, text, children };
        proof {
            if forall|i: int|
                0 <= i < r.children@.len() ==> node_wf(node_view(#[trigger] r.children@[i])) {
                assert forall|i: int| 0 <= i < nodes_view(r.children@).len() implies node_wf(
                    #[trigger] nodes_view(r.children@)[i],
                ) by {
                    assert(nodes_view(r.children@)[i] == node_view(r.children@[i]));
                    assert(node_wf(node_view(r.children@[i])));
                }
                lemma_children_wf_from_forall(nodes_view(r.children@), 0);
            }
        }
        r
    }
}

// ----------------------------------------------------------------------
// Structural well-formedness: the tree shapes the semantic pass accepts
// ----------------------------------------------------------------------
/// A scoped-name node is well-shaped when every child is an identifier.
pub open spec fn name_node_wf(n: NodeView) -> bool {
    forall|k: int|
        0 <= k < n.children.len() ==> (#[trigger] n.children[k]).tag == RuleTag::Identifier
}

/// The children of a floating-point literal are part nodes only.
pub open spec fn float_parts_nodes_wf(cs: Seq<NodeView>) -> bool {
    forall|k: int|
        0 <= k < cs.len() ==> ((#[trigger] cs[k]).tag == RuleTag::IntegralPart || cs[k].tag
            == RuleTag::FractionalPart || cs[k].tag == RuleTag::Exponent || cs[k].tag
            == RuleTag::FloatSuffix)
}

/// A constant-expression node is well-shaped when every rule along the
/// precedence chain has the children its resolution step reads.
pub open spec fn expr_node_wf(n: NodeView) -> bool
    decreases n, 1int,
{
    match n.tag {
        RuleTag::ConstExpr => (n.children.len() == 1 && expr_node_wf(n.children[0])) || (
        n.children.len() == 2 && expr_node_wf(n.children[0]) && expr_node_wf(n.children[1])),
        RuleTag::UnaryExpr => (n.children.len() == 1 && expr_node_wf(n.children[0])) || (
        n.children.len() == 2 && expr_node_wf(n.children[1])),
        RuleTag::PrimaryExpr => n.children.len() == 1 && {
            let c = n.children[0];
            (c.tag == RuleTag::ScopedName && name_node_wf(c)) || (c.tag == RuleTag::Literal
                && expr_node_wf(c)) || (c.tag == RuleTag::ConstExpr && expr_node_wf(c))
        },
        RuleTag::OrExpr => binary_node_wf(n),
        RuleTag::XorExpr => binary_node_wf(n),
        RuleTag::AndExpr => binary_node_wf(n),
        RuleTag::LShiftExpr => binary_node_wf(n),
        RuleTag::RShiftExpr => binary_node_wf(n),
        RuleTag::AddExpr => binary_node_wf(n),
        RuleTag::SubExpr => binary_node_wf(n),
        RuleTag::MulExpr => binary_node_wf(n),
        RuleTag::DivExpr => binary_node_wf(n),
        RuleTag::ModExpr => binary_node_wf(n),
        RuleTag::Literal => n.children.len() >= 1 && expr_node_wf(n.children[0]),
        RuleTag::DecimalIntegerLiteral => true,
        RuleTag::OctalIntegerLiteral => true,
        RuleTag::HexIntegerLiteral => true,
        RuleTag::BooleanLiteral => true,
        RuleTag::CharacterLiteral => true,
        RuleTag::FloatingPtLiteral => float_parts_nodes_wf(n.children),
        _ => false,
    }
}

/// A binary-operator node carries the rest of the chain as its first child.
pub open spec fn binary_node_wf(n: NodeView) -> bool
    decreases n, 0int,
{
    n.children.len() >= 1 && expr_node_wf(n.children[0])
}

/// A type-specification node is well-shaped for resolution.
pub open spec fn type_node_wf(n: NodeView) -> bool
    decreases n,
{
    match n.tag {
        RuleTag::FloatType => true,
        RuleTag::DoubleType => true,
        RuleTag::LongDoubleType => true,
        RuleTag::UnsignedShortInt => true,
        RuleTag::UnsignedLongInt => true,
        RuleTag::UnsignedLongLongInt => true,
        RuleTag::SignedShortInt => true,
        RuleTag::SignedLongInt => true,
        RuleTag::SignedLongLongInt => true,
        RuleTag::CharType => true,
        RuleTag::WideCharType => true,
        RuleTag::BooleanType => true,
        RuleTag::OctetType => true,
        RuleTag::StringType => n.children.len() == 0 || expr_node_wf(n.children[0]),
        RuleTag::WideStringType => n.children.len() == 0 || expr_node_wf(n.children[0]),
        RuleTag::SequenceType => (n.children.len() == 1 && type_node_wf(n.children[0])) || (
        n.children.len() == 2 && type_node_wf(n.children[0]) && expr_node_wf(n.children[1])),
        RuleTag::ScopedName => name_node_wf(n),
        _ => false,
    }
}

/// A fixed-array-size node wraps one well-shaped size expression.
pub open spec fn fixed_size_node_wf(n: NodeView) -> bool {
    n.children.len() >= 1 && expr_node_wf(n.children[0])
}

/// A declarator node wraps one simple or array declarator whose name slot is
/// an identifier and whose bracketed sizes are well-shaped.
pub open spec fn declarator_node_wf(n: NodeView) -> bool {
    n.children.len() >= 1 && {
        let d = n.children[0];
        (d.tag == RuleTag::SimpleDeclarator && d.children.len() >= 1 && d.children[0].tag
            == RuleTag::Identifier) || (d.tag == RuleTag::ArrayDeclarator && d.children.len() >= 1
            && d.children[0].tag == RuleTag::Identifier && forall|k: int|
            1 <= k < d.children.len() ==> fixed_size_node_wf(#[trigger] d.children[k]))
    }
}

/// A member-line node carries a well-shaped type and well-shaped declarators.
pub open spec fn member_node_wf(n: NodeView) -> bool {
    n.children.len() >= 2 && type_node_wf(n.children[0]) && forall|k: int|
        0 <= k < n.children[1].children.len() ==> declarator_node_wf(
            #[trigger] n.children[1].children[k],
        )
}

/// A parse node is well-shaped for the walk: the declaration rules have the
/// children their registration steps read, and every other rule has
/// well-shaped children, so structural traversal cannot fail either. The
/// parser produces only well-shaped nodes, and the walk succeeds on every
/// well-shaped tree.
pub open spec fn node_wf(n: NodeView) -> bool
    decreases n, 1int,
{
    match n.tag {
        RuleTag::ModuleDcl => n.children.len() >= 1 && children_wf(n.children, 1),
        RuleTag::StructDef => n.children.len() >= 1 && forall|k: int|
            1 <= k < n.children.len() ==> member_node_wf(#[trigger] n.children[k]),
        RuleTag::TypeDeclarator => n.children.len() >= 2 && type_node_wf(n.children[0]) && forall|
            k: int,
        |
            0 <= k < n.children[1].children.len() ==> declarator_node_wf(
                #[trigger] n.children[1].children[k],
            ),
        RuleTag::ConstDcl => n.children.len() >= 3 && type_node_wf(n.children[0])
            && n.children[1].tag == RuleTag::Identifier && expr_node_wf(n.children[2]),
        _ => children_wf(n.children, 0),
    }
}

/// Every child from position `i` on is well-shaped.
pub open spec fn children_wf(cs: Seq<NodeView>, i: int) -> bool
    decreases cs, cs.len() - i,
{
    i < 0 || i >= cs.len() || (node_wf(cs[i]) && children_wf(cs, i + 1))
}


/// Well-shapedness of every child from position `i` on follows from
/// well-shapedness of each.
pub proof fn lemma_children_wf_from_forall(cs: Seq<NodeView>, i: int)
    requires
        forall|k: int| i <= k < cs.len() ==> node_wf(#[trigger] cs[k]),
    ensures
        children_wf(cs, i),
    decreases cs.len() - i,
{
    if i < 0 || i >= cs.len() {
    } else {
        lemma_children_wf_from_forall(cs, i + 1);
    }
}

/// Whether two text slices hold the same characters.
pub fn str_eq(a: &str, b: &str) -> (r: bool)
    ensures
        r == (a@ == b@),
{
    let sa = String::from_str(a);
    let sb = String::from_str(b);
    sa == sb
}

/// The view of a scope path: the identifier sequence from the root.
pub open spec fn scope_view(s: Seq<String>) -> Seq<Seq<char>> {
    Seq::new(s.len(), |i: int| s[i]@)
}

} // verus!
