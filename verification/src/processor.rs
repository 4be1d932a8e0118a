//! Semantic pass: a rule-tag-dispatched recursive walk over the parse tree
//! that registers type, struct, union-placeholder and constant declarations in
//! the scoped module tree. Every executable step is verified against a
//! spec-level builder function that states exactly which model the walk
//! produces, and which error aborts it, for every input tree.
use vstd::prelude::*;

use crate::ast::{
    BinaryOp, ConstDclView, IdlConstDcl, IdlModule, IdlScopedName, IdlStructMember, IdlTypeDcl,
    IdlTypeDclKind, IdlTypeSpec, IdlValueExpr, ModuleView, ScopedNameView, StructMemberView,
    TypeDclKindView, TypeSpecView, UnaryOp, ValueExprView, clone_type_spec, module_wf,
    opt_string_view, type_dcl_wf, type_spec_view, type_spec_wf, value_expr_view,
};
use crate::tree::{
    NodeView, ParseNode, RuleTag, binary_node_wf, children_wf, declarator_node_wf, expr_node_wf,
    fixed_size_node_wf, float_parts_nodes_wf, member_node_wf, name_node_wf, node_view, node_wf,
    nodes_view, scope_view, str_eq, type_node_wf,
};
use crate::{ErrorView, IdlError};

verus! {

broadcast use crate::tree::lemma_nodes_view_len, crate::tree::lemma_nodes_view_index;

// ----------------------------------------------------------------------
// Spec: reading identifiers, scoped names, expressions and types
// ----------------------------------------------------------------------
/// What reading an identifier node yields: its text, or the expected-item
/// error on any other rule.
pub open spec fn spec_read_identifier(n: NodeView) -> Result<Seq<char>, ErrorView> {
    if n.tag == RuleTag::Identifier {
        Result::Ok(n.text)
    } else {
        Result::Err(ErrorView::ExpectedItem(RuleTag::Identifier))
    }
}

/// The identifier texts of the child nodes from position `i` on; the
/// expected-item error if any child is not an identifier.
pub open spec fn spec_name_parts(cs: Seq<NodeView>, i: int) -> Result<Seq<Seq<char>>, ErrorView>
    decreases cs.len() - i,
{
    if i < 0 || i >= cs.len() {
        Result::Ok(Seq::<Seq<char>>::empty())
    } else {
        match spec_read_identifier(cs[i]) {
            Result::Ok(id) => match spec_name_parts(cs, i + 1) {
                Result::Ok(rest) => Result::Ok(seq![id] + rest),
                Result::Err(e) => Result::Err(e),
            },
            Result::Err(e) => Result::Err(e),
        }
    }
}

/// A scoped name is absolute when its source text starts with `::`.
pub open spec fn spec_is_absolute(text: Seq<char>) -> bool {
    text.len() >= 2 && text.subrange(0, 2) == "::"@
}

/// What reading a scoped-name node yields: its identifier segments and its
/// absolute flag.
pub open spec fn spec_read_scoped_name(n: NodeView) -> Result<ScopedNameView, ErrorView> {
    match spec_name_parts(n.children, 0) {
        Result::Ok(parts) => Result::Ok(
            ScopedNameView { parts, absolute: spec_is_absolute(n.text) },
        ),
        Result::Err(e) => Result::Err(e),
    }
}

/// The unary operator named by an operator node's text; a plus sign stands
/// for any unrecognized spelling, which the parser never produces.
pub open spec fn spec_unary_op(n: NodeView) -> UnaryOp {
    if n.text == "-"@ {
        UnaryOp::Neg
    } else if n.text == "~"@ {
        UnaryOp::Inverse
    } else {
        UnaryOp::Pos
    }
}

/// The four optional textual parts of a floating-point literal, folded from
/// the part nodes from position `i` on; an internal error on any other rule.
pub open spec fn spec_float_parts(
    cs: Seq<NodeView>,
    i: int,
    acc: (Option<Seq<char>>, Option<Seq<char>>, Option<Seq<char>>, Option<Seq<char>>),
) -> Result<(Option<Seq<char>>, Option<Seq<char>>, Option<Seq<char>>, Option<Seq<char>>), ErrorView>
    decreases cs.len() - i,
{
    if i < 0 || i >= cs.len() {
        Result::Ok(acc)
    } else {
        let c = cs[i];
        if c.tag == RuleTag::IntegralPart {
            spec_float_parts(cs, i + 1, (Option::Some(c.text), acc.1, acc.2, acc.3))
        } else if c.tag == RuleTag::FractionalPart {
            spec_float_parts(cs, i + 1, (acc.0, Option::Some(c.text), acc.2, acc.3))
        } else if c.tag == RuleTag::Exponent {
            spec_float_parts(cs, i + 1, (acc.0, acc.1, Option::Some(c.text), acc.3))
        } else if c.tag == RuleTag::FloatSuffix {
            spec_float_parts(cs, i + 1, (acc.0, acc.1, acc.2, Option::Some(c.text)))
        } else {
            Result::Err(ErrorView::InternalError)
        }
    }
}

/// What resolving a constant-expression node yields: the structurally
/// preserved expression, mirroring the grammar's operator-precedence chain,
/// or the error that aborts the pass. No arithmetic folding occurs.
pub open spec fn spec_read_const_expr(n: NodeView) -> Result<ValueExprView, ErrorView>
    decreases n, 1int,
{
    match n.tag {
        RuleTag::ConstExpr => if n.children.len() >= 2 {
            match spec_read_const_expr(n.children[0]) {
                Result::Ok(e1) => match spec_read_const_expr(n.children[1]) {
                    Result::Ok(e2) => Result::Ok(
                        ValueExprView::Expr(Box::new(e1), Box::new(e2)),
                    ),
                    Result::Err(e) => Result::Err(e),
                },
                Result::Err(e) => Result::Err(e),
            }
        } else if n.children.len() == 1 {
            spec_read_const_expr(n.children[0])
        } else {
            Result::Err(ErrorView::ExpectedItem(RuleTag::ConstExpr))
        },
        RuleTag::UnaryExpr => if n.children.len() >= 2 {
            match spec_read_const_expr(n.children[1]) {
                Result::Ok(e) => Result::Ok(
                    ValueExprView::UnaryOp(spec_unary_op(n.children[0]), Box::new(e)),
                ),
                Result::Err(e) => Result::Err(e),
            }
        } else if n.children.len() == 1 {
            spec_read_const_expr(n.children[0])
        } else {
            Result::Err(ErrorView::ExpectedItem(RuleTag::PrimaryExpr))
        },
        RuleTag::PrimaryExpr => if n.children.len() >= 1 {
            let c = n.children[0];
            if c.tag == RuleTag::ScopedName {
                match spec_read_scoped_name(c) {
                    Result::Ok(name) => Result::Ok(ValueExprView::ScopedName(name)),
                    Result::Err(e) => Result::Err(e),
                }
            } else if c.tag == RuleTag::Literal {
                spec_read_const_expr(c)
            } else if c.tag == RuleTag::ConstExpr {
                match spec_read_const_expr(c) {
                    Result::Ok(e) => Result::Ok(ValueExprView::Brace(Box::new(e))),
                    Result::Err(e) => Result::Err(e),
                }
            } else {
                Result::Err(ErrorView::ExpectedItem(RuleTag::PrimaryExpr))
            }
        } else {
            Result::Err(ErrorView::ExpectedItem(RuleTag::PrimaryExpr))
        },
        RuleTag::OrExpr => spec_binary_rest(n, BinaryOp::Or),
        RuleTag::XorExpr => spec_binary_rest(n, BinaryOp::Xor),
        RuleTag::AndExpr => spec_binary_rest(n, BinaryOp::And),
        RuleTag::LShiftExpr => spec_binary_rest(n, BinaryOp::LShift),
        RuleTag::RShiftExpr => spec_binary_rest(n, BinaryOp::RShift),
        RuleTag::AddExpr => spec_binary_rest(n, BinaryOp::Add),
        RuleTag::SubExpr => spec_binary_rest(n, BinaryOp::Sub),
        RuleTag::MulExpr => spec_binary_rest(n, BinaryOp::Mul),
        RuleTag::DivExpr => spec_binary_rest(n, BinaryOp::Div),
        RuleTag::ModExpr => spec_binary_rest(n, BinaryOp::Mod),
        RuleTag::DecimalIntegerLiteral => Result::Ok(ValueExprView::DecLiteral(n.text)),
        RuleTag::OctalIntegerLiteral => Result::Ok(ValueExprView::OctLiteral(n.text)),
        RuleTag::HexIntegerLiteral => Result::Ok(ValueExprView::HexLiteral(n.text)),
        RuleTag::FloatingPtLiteral => match spec_float_parts(
            n.children,
            0,
            (Option::None, Option::None, Option::None, Option::None),
        ) {
            Result::Ok(parts) => Result::Ok(
                ValueExprView::FloatLiteral(parts.0, parts.1, parts.2, parts.3),
            ),
            Result::Err(e) => Result::Err(e),
        },
        RuleTag::BooleanLiteral => Result::Ok(
            ValueExprView::BooleanLiteral(n.text == "TRUE"@),
        ),
        RuleTag::CharacterLiteral => Result::Ok(ValueExprView::CharLiteral(n.text)),
        _ => if n.children.len() >= 1 {
            spec_read_const_expr(n.children[0])
        } else {
            Result::Err(ErrorView::InternalError)
        },
    }
}

/// What a binary-operator rule node yields: its own operator combined with
/// the resolved right-hand operand.
pub open spec fn spec_binary_rest(n: NodeView, op: BinaryOp) -> Result<ValueExprView, ErrorView>
    decreases n, 0int,
{
    if n.children.len() >= 1 {
        match spec_read_const_expr(n.children[0]) {
            Result::Ok(e) => Result::Ok(ValueExprView::BinaryOp(op, Box::new(e))),
            Result::Err(e) => Result::Err(e),
        }
    } else {
        Result::Err(ErrorView::InternalError)
    }
}

/// What resolving a type-specification node yields: primitive keywords map
/// one-to-one, strings and sequences carry optional bound expressions, scoped
/// names become name references, and any unrecognized wrapper rule resolves
/// through its single child.
pub open spec fn spec_read_type_spec(n: NodeView) -> Result<TypeSpecView, ErrorView>
    decreases n,
{
    match n.tag {
        RuleTag::FloatType => Result::Ok(TypeSpecView::F32Type),
        RuleTag::DoubleType => Result::Ok(TypeSpecView::F64Type),
        RuleTag::LongDoubleType => Result::Ok(TypeSpecView::F128Type),
        RuleTag::UnsignedShortInt => Result::Ok(TypeSpecView::U16Type),
        RuleTag::UnsignedLongLongInt => Result::Ok(TypeSpecView::U64Type),
        RuleTag::UnsignedLongInt => Result::Ok(TypeSpecView::U32Type),
        RuleTag::SignedShortInt => Result::Ok(TypeSpecView::I16Type),
        RuleTag::SignedLongLongInt => Result::Ok(TypeSpecView::I64Type),
        RuleTag::SignedLongInt => Result::Ok(TypeSpecView::I32Type),
        RuleTag::CharType => Result::Ok(TypeSpecView::CharType),
        RuleTag::WideCharType => Result::Ok(TypeSpecView::WideCharType),
        RuleTag::BooleanType => Result::Ok(TypeSpecView::BooleanType),
        RuleTag::OctetType => Result::Ok(TypeSpecView::OctetType),
        RuleTag::StringType => if n.children.len() == 0 {
            Result::Ok(TypeSpecView::StringType(Option::None))
        } else {
            match spec_read_const_expr(n.children[0]) {
                Result::Ok(b) => Result::Ok(TypeSpecView::StringType(Option::Some(Box::new(b)))),
                Result::Err(e) => Result::Err(e),
            }
        },
        RuleTag::WideStringType => if n.children.len() == 0 {
            Result::Ok(TypeSpecView::WideStringType(Option::None))
        } else {
            match spec_read_const_expr(n.children[0]) {
                Result::Ok(b) => Result::Ok(
                    TypeSpecView::WideStringType(Option::Some(Box::new(b))),
                ),
                Result::Err(e) => Result::Err(e),
            }
        },
        RuleTag::SequenceType => if n.children.len() == 1 {
            match spec_read_type_spec(n.children[0]) {
                Result::Ok(t) => Result::Ok(
                    TypeSpecView::SequenceType(Box::new(t), Option::None),
                ),
                Result::Err(e) => Result::Err(e),
            }
        } else if n.children.len() >= 2 {
            match spec_read_type_spec(n.children[0]) {
                Result::Ok(t) => match spec_read_const_expr(n.children[1]) {
                    Result::Ok(b) => Result::Ok(
                        TypeSpecView::SequenceType(Box::new(t), Option::Some(Box::new(b))),
                    ),
                    Result::Err(e) => Result::Err(e),
                },
                Result::Err(e) => Result::Err(e),
            }
        } else {
            Result::Err(ErrorView::InternalError)
        },
        RuleTag::ScopedName => match spec_read_scoped_name(n) {
            Result::Ok(name) => Result::Ok(TypeSpecView::ScopedName(name)),
            Result::Err(e) => Result::Err(e),
        },
        _ => if n.children.len() >= 1 {
            spec_read_type_spec(n.children[0])
        } else {
            Result::Err(ErrorView::InternalError)
        },
    }
}

/// The dimension expressions of an array declarator, read from the
/// fixed-array-size nodes from position `i` on, in source order, outermost
/// first.
pub open spec fn spec_read_dims(cs: Seq<NodeView>, i: int) -> Result<Seq<ValueExprView>, ErrorView>
    decreases cs.len() - i,
{
    if i < 0 || i >= cs.len() {
        Result::Ok(Seq::<ValueExprView>::empty())
    } else if cs[i].children.len() == 0 {
        Result::Err(ErrorView::InternalError)
    } else {
        match spec_read_const_expr(cs[i].children[0]) {
            Result::Ok(d) => match spec_read_dims(cs, i + 1) {
                Result::Ok(rest) => Result::Ok(seq![d] + rest),
                Result::Err(e) => Result::Err(e),
            },
            Result::Err(e) => Result::Err(e),
        }
    }
}

/// What resolving one declarator of a struct member line yields: a member
/// bound to the shared type directly, or to an array wrapping of it carrying
/// the dimension expressions in source order.
pub open spec fn spec_read_declarator_member(n: NodeView, t: TypeSpecView) -> Result<
    StructMemberView,
    ErrorView,
> {
    if n.children.len() == 0 {
        Result::Err(ErrorView::InternalError)
    } else {
        let decl = n.children[0];
        if decl.tag == RuleTag::SimpleDeclarator {
            if decl.children.len() == 0 {
                Result::Err(ErrorView::InternalError)
            } else {
                match spec_read_identifier(decl.children[0]) {
                    Result::Ok(id) => Result::Ok(StructMemberView { id, type_spec: t }),
                    Result::Err(e) => Result::Err(e),
                }
            }
        } else if decl.tag == RuleTag::ArrayDeclarator {
            if decl.children.len() == 0 {
                Result::Err(ErrorView::InternalError)
            } else {
                match spec_read_identifier(decl.children[0]) {
                    Result::Ok(id) => match spec_read_dims(decl.children, 1) {
                        Result::Ok(dims) => Result::Ok(
                            StructMemberView {
                                id,
                                type_spec: TypeSpecView::ArrayType(Box::new(t), dims),
                            },
                        ),
                        Result::Err(e) => Result::Err(e),
                    },
                    Result::Err(e) => Result::Err(e),
                }
            }
        } else {
            Result::Err(ErrorView::InternalError)
        }
    }
}

/// The members declared by the declarators from position `i` on, every one
/// sharing the same resolved type.
pub open spec fn spec_read_member_declarators(
    cs: Seq<NodeView>,
    i: int,
    t: TypeSpecView,
) -> Result<Seq<StructMemberView>, ErrorView>
    decreases cs.len() - i,
{
    if i < 0 || i >= cs.len() {
        Result::Ok(Seq::<StructMemberView>::empty())
    } else {
        match spec_read_declarator_member(cs[i], t) {
            Result::Ok(m) => match spec_read_member_declarators(cs, i + 1, t) {
                Result::Ok(rest) => Result::Ok(seq![m] + rest),
                Result::Err(e) => Result::Err(e),
            },
            Result::Err(e) => Result::Err(e),
        }
    }
}

/// What resolving one member line yields: one shared type specification,
/// expanded into an independent member per declarator.
pub open spec fn spec_read_member(n: NodeView) -> Result<Seq<StructMemberView>, ErrorView> {
    if n.children.len() < 2 {
        Result::Err(ErrorView::InternalError)
    } else {
        match spec_read_type_spec(n.children[0]) {
            Result::Ok(t) => spec_read_member_declarators(n.children[1].children, 0, t),
            Result::Err(e) => Result::Err(e),
        }
    }
}

/// The flattened, ordered member list of a struct body: the members of every
/// member line from position `i` on.
pub open spec fn spec_struct_members(cs: Seq<NodeView>, i: int) -> Result<
    Seq<StructMemberView>,
    ErrorView,
>
    decreases cs.len() - i,
{
    if i < 0 || i >= cs.len() {
        Result::Ok(Seq::<StructMemberView>::empty())
    } else {
        match spec_read_member(cs[i]) {
            Result::Ok(ms) => match spec_struct_members(cs, i + 1) {
                Result::Ok(rest) => Result::Ok(ms + rest),
                Result::Err(e) => Result::Err(e),
            },
            Result::Err(e) => Result::Err(e),
        }
    }
}

// ----------------------------------------------------------------------
// Spec: the scope manager and declaration registration
// ----------------------------------------------------------------------
/// Position of the first entry under the given key, or -1 when the key is not
/// registered, searching from position `i` on.
pub open spec fn key_index<T>(s: Seq<(Seq<char>, T)>, key: Seq<char>, i: int) -> int
    decreases s.len() - i,
{
    if i < 0 || i >= s.len() {
        -1
    } else if s[i].0 == key {
        i
    } else {
        key_index(s, key, i + 1)
    }
}

/// A fresh module node with the given name and nesting depth.
pub open spec fn fresh_module(name: Seq<char>, level: nat) -> ModuleView {
    ModuleView {
        id: Option::Some(name),
        level,
        modules: Seq::<(Seq<char>, ModuleView)>::empty(),
        types: Seq::<(Seq<char>, TypeDclKindView)>::empty(),
        constants: Seq::<(Seq<char>, ConstDclView)>::empty(),
    }
}

/// The module tree after the scope path from position `i` on has been walked:
/// every missing intermediate module is created with its own nesting depth,
/// and every existing one is kept. Scope creation always succeeds.
pub open spec fn spec_ensure_path(m: ModuleView, path: Seq<Seq<char>>, i: int) -> ModuleView
    decreases path.len() - i,
{
    if i < 0 || i >= path.len() {
        m
    } else {
        let name = path[i];
        let j = key_index(m.modules, name, 0);
        if j >= 0 {
            ModuleView {
                modules: m.modules.update(
                    j,
                    (m.modules[j].0, spec_ensure_path(m.modules[j].1, path, i + 1)),
                ),
                ..m
            }
        } else {
            ModuleView {
                modules: m.modules.push(
                    (name, spec_ensure_path(fresh_module(name, (i + 1) as nat), path, i + 1)),
                ),
                ..m
            }
        }
    }
}

/// The module tree after a type declaration has been registered under the
/// scope path from position `i` on: missing scopes are created, and a key
/// already registered in the target scope leaves the tree unchanged: the
/// first definition wins silently.
pub open spec fn spec_insert_type(
    m: ModuleView,
    path: Seq<Seq<char>>,
    i: int,
    key: Seq<char>,
    dcl: TypeDclKindView,
) -> ModuleView
    decreases path.len() - i,
{
    if i < 0 || i >= path.len() {
        if key_index(m.types, key, 0) >= 0 {
            m
        } else {
            ModuleView { types: m.types.push((key, dcl)), ..m }
        }
    } else {
        let name = path[i];
        let j = key_index(m.modules, name, 0);
        if j >= 0 {
            ModuleView {
                modules: m.modules.update(
                    j,
                    (m.modules[j].0, spec_insert_type(m.modules[j].1, path, i + 1, key, dcl)),
                ),
                ..m
            }
        } else {
            ModuleView {
                modules: m.modules.push(
                    (
                        name,
                        spec_insert_type(
                            fresh_module(name, (i + 1) as nat),
                            path,
                            i + 1,
                            key,
                            dcl,
                        ),
                    ),
                ),
                ..m
            }
        }
    }
}

/// The module tree after a constant declaration has been registered under the
/// scope path from position `i` on, with the same first-definition-wins rule.
pub open spec fn spec_insert_const(
    m: ModuleView,
    path: Seq<Seq<char>>,
    i: int,
    key: Seq<char>,
    dcl: ConstDclView,
) -> ModuleView
    decreases path.len() - i,
{
    if i < 0 || i >= path.len() {
        if key_index(m.constants, key, 0) >= 0 {
            m
        } else {
            ModuleView { constants: m.constants.push((key, dcl)), ..m }
        }
    } else {
        let name = path[i];
        let j = key_index(m.modules, name, 0);
        if j >= 0 {
            ModuleView {
                modules: m.modules.update(
                    j,
                    (m.modules[j].0, spec_insert_const(m.modules[j].1, path, i + 1, key, dcl)),
                ),
                ..m
            }
        } else {
            ModuleView {
                modules: m.modules.push(
                    (
                        name,
                        spec_insert_const(
                            fresh_module(name, (i + 1) as nat),
                            path,
                            i + 1,
                            key,
                            dcl,
                        ),
                    ),
                ),
                ..m
            }
        }
    }
}

// ----------------------------------------------------------------------
// Spec: the recursive walk
// ----------------------------------------------------------------------
/// The module tree after one parse node has been processed under the given
/// scope path, or the error that aborts the pass. Module declarations extend
/// the scope and recurse; struct, typedef and constant declarations register
/// under the current scope; every other rule is traversed structurally.
pub open spec fn spec_process(m: ModuleView, scope: Seq<Seq<char>>, n: NodeView) -> Result<
    ModuleView,
    ErrorView,
>
    decreases n, 0int,
{
    match n.tag {
        RuleTag::ModuleDcl => if n.children.len() == 0 {
            Result::Err(ErrorView::InternalError)
        } else {
            let scope2 = scope.push(n.children[0].text);
            let m1 = spec_ensure_path(m, scope2, 0);
            spec_process_seq(m1, scope2, n.children, 1)
        },
        RuleTag::StructDef => if n.children.len() == 0 {
            Result::Err(ErrorView::InternalError)
        } else {
            let id = n.children[0].text;
            match spec_struct_members(n.children, 1) {
                Result::Ok(members) => Result::Ok(
                    spec_insert_type(m, scope, 0, id, TypeDclKindView::StructDcl(id, members)),
                ),
                Result::Err(e) => Result::Err(e),
            }
        },
        RuleTag::TypeDeclarator => if n.children.len() < 2 {
            Result::Err(ErrorView::InternalError)
        } else {
            match spec_read_type_spec(n.children[0]) {
                Result::Ok(t) => spec_process_declarators(
                    m,
                    scope,
                    t,
                    n.children[1].children,
                    0,
                ),
                Result::Err(e) => Result::Err(e),
            }
        },
        RuleTag::ConstDcl => if n.children.len() < 3 {
            Result::Err(ErrorView::InternalError)
        } else {
            match spec_read_type_spec(n.children[0]) {
                Result::Ok(t) => match spec_read_identifier(n.children[1]) {
                    Result::Ok(id) => match spec_read_const_expr(n.children[2]) {
                        Result::Ok(e) => Result::Ok(
                            spec_insert_const(
                                m,
                                scope,
                                0,
                                id,
                                ConstDclView { id, typedcl: t, value: e },
                            ),
                        ),
                        Result::Err(e) => Result::Err(e),
                    },
                    Result::Err(e) => Result::Err(e),
                },
                Result::Err(e) => Result::Err(e),
            }
        },
        _ => spec_process_seq(m, scope, n.children, 0),
    }
}

/// The module tree after the child nodes from position `i` on have been
/// processed in order, fail-fast on the first error.
pub open spec fn spec_process_seq(
    m: ModuleView,
    scope: Seq<Seq<char>>,
    cs: Seq<NodeView>,
    i: int,
) -> Result<ModuleView, ErrorView>
    decreases cs, cs.len() - i,
{
    if i < 0 || i >= cs.len() {
        Result::Ok(m)
    } else {
        match spec_process(m, scope, cs[i]) {
            Result::Ok(m2) => spec_process_seq(m2, scope, cs, i + 1),
            Result::Err(e) => Result::Err(e),
        }
    }
}

/// The module tree after one typedef declarator has registered a type alias
/// under the current scope: the declarator's name bound to the shared base
/// type, or to an array wrapping of it carrying the dimension expressions in
/// source order.
pub open spec fn spec_process_declarator(
    m: ModuleView,
    scope: Seq<Seq<char>>,
    t: TypeSpecView,
    n: NodeView,
) -> Result<ModuleView, ErrorView> {
    if n.children.len() == 0 {
        Result::Err(ErrorView::InternalError)
    } else {
        let decl = n.children[0];
        if decl.tag == RuleTag::SimpleDeclarator {
            if decl.children.len() == 0 {
                Result::Err(ErrorView::InternalError)
            } else {
                match spec_read_identifier(decl.children[0]) {
                    Result::Ok(id) => Result::Ok(
                        spec_insert_type(m, scope, 0, id, TypeDclKindView::TypeDcl(id, t)),
                    ),
                    Result::Err(e) => Result::Err(e),
                }
            }
        } else if decl.tag == RuleTag::ArrayDeclarator {
            if decl.children.len() == 0 {
                Result::Err(ErrorView::InternalError)
            } else {
                match spec_read_identifier(decl.children[0]) {
                    Result::Ok(id) => match spec_read_dims(decl.children, 1) {
                        Result::Ok(dims) => Result::Ok(
                            spec_insert_type(
                                m,
                                scope,
                                0,
                                id,
                                TypeDclKindView::TypeDcl(
                                    id,
                                    TypeSpecView::ArrayType(Box::new(t), dims),
                                ),
                            ),
                        ),
                        Result::Err(e) => Result::Err(e),
                    },
                    Result::Err(e) => Result::Err(e),
                }
            }
        } else {
            Result::Err(ErrorView::InternalError)
        }
    }
}

/// The module tree after the typedef declarators from position `i` on have
/// registered one type alias each, all sharing the same resolved base type.
pub open spec fn spec_process_declarators(
    m: ModuleView,
    scope: Seq<Seq<char>>,
    t: TypeSpecView,
    cs: Seq<NodeView>,
    i: int,
) -> Result<ModuleView, ErrorView>
    decreases cs.len() - i,
{
    if i < 0 || i >= cs.len() {
        Result::Ok(m)
    } else {
        match spec_process_declarator(m, scope, t, cs[i]) {
            Result::Ok(m2) => spec_process_declarators(m2, scope, t, cs, i + 1),
            Result::Err(e) => Result::Err(e),
        }
    }
}

// ----------------------------------------------------------------------
// Exec: the scope manager
// ----------------------------------------------------------------------
impl IdlModule {
    /// Position of the first submodule entry under the given name.
    fn find_module(&self, name: &String) -> (r: Option<usize>)
        ensures
            match r {
                Option::Some(j) => key_index(self@.modules, name@, 0) == j as int && j
                    < self.modules@.len(),
                Option::None => key_index(self@.modules, name@, 0) == -1,
            },
    {
        let n = self.modules.len();
        let mut j: usize = 0;
        while j < n
            invariant
                n == self.modules@.len(),
                j <= n,
                key_index(self@.modules, name@, 0) == key_index(self@.modules, name@, j as int),
            decreases n - j,
        {
            if self.modules[j].0 == *name {
                proof {
                    assert(self@.modules[j as int].0 == name@);
                }
                return Option::Some(j);
            }
            proof {
                assert(self@.modules[j as int].0 != name@);
            }
            j = j + 1;
        }
        Option::None
    }

    /// Position of the first type entry under the given key.
    fn find_type(&self, key: &String) -> (r: Option<usize>)
        ensures
            match r {
                Option::Some(j) => key_index(self@.types, key@, 0) == j as int,
                Option::None => key_index(self@.types, key@, 0) == -1,
            },
    {
        let n = self.types.len();
        let mut j: usize = 0;
        while j < n
            invariant
                n == self.types@.len(),
                j <= n,
                key_index(self@.types, key@, 0) == key_index(self@.types, key@, j as int),
            decreases n - j,
        {
            if self.types[j].0 == *key {
                proof {
                    assert(self@.types[j as int].0 == key@);
                }
                return Option::Some(j);
            }
            proof {
                assert(self@.types[j as int].0 != key@);
            }
            j = j + 1;
        }
        Option::None
    }

    /// Position of the first constant entry under the given key.
    fn find_const(&self, key: &String) -> (r: Option<usize>)
        ensures
            match r {
                Option::Some(j) => key_index(self@.constants, key@, 0) == j as int,
                Option::None => key_index(self@.constants, key@, 0) == -1,
            },
    {
        let n = self.constants.len();
        let mut j: usize = 0;
        while j < n
            invariant
                n == self.constants@.len(),
                j <= n,
                key_index(self@.constants, key@, 0) == key_index(self@.constants, key@, j as int),
            decreases n - j,
        {
            if self.constants[j].0 == *key {
                proof {
                    assert(self@.constants[j as int].0 == key@);
                }
                return Option::Some(j);
            }
            proof {
                assert(self@.constants[j as int].0 != key@);
            }
            j = j + 1;
        }
        Option::None
    }

    /// Walks the scope path from position `i` on, creating every missing
    /// intermediate module with its own nesting depth.
    fn ensure_path_at(&mut self, scope: &Vec<String>, i: usize)
        ensures
            final(self)@ == spec_ensure_path(old(self)@, scope_view(scope@), i as int),
        decreases scope.len() - i,
    {
        if i >= scope.len() {
            return ;
        }
        let ghost before = self@;
        let ghost path = scope_view(scope@);
        let name = &scope[i];
        proof {
            assert(path[i as int] == name@);
        }
        match self.find_module(name) {
            Option::Some(j) => {
                let mut entry = self.modules.remove(j);
                let ghost k0 = entry.0@;
                let ghost sub0 = entry.1@;
                proof {
                    assert(k0 == before.modules[j as int].0);
                    assert(sub0 == before.modules[j as int].1);
                }
                entry.1.ensure_path_at(scope, i + 1);
                let ghost e2 = entry;
                self.modules.insert(j, entry);
                proof {
                    assert(self.modules@ =~= old(self).modules@.update(j as int, e2));
                    assert(self@.modules =~~= before.modules.update(
                        j as int,
                        (k0, spec_ensure_path(sub0, path, i + 1)),
                    ));
                    assert(self@ =~~= spec_ensure_path(before, path, i as int));
                }
            },
            Option::None => {
                let mut fresh = IdlModule::new(Option::Some(name.clone()), i + 1);
                proof {
                    assert(fresh@ =~~= fresh_module(name@, (i + 1) as nat));
                }
                fresh.ensure_path_at(scope, i + 1);
                let ghost f2 = fresh@;
                let key2 = name.clone();
                self.modules.push((key2, fresh));
                proof {
                    assert(self@.modules =~~= before.modules.push(
                        (name@, spec_ensure_path(fresh_module(name@, (i + 1) as nat), path, i + 1)),
                    ));
                    assert(self@ =~~= spec_ensure_path(before, path, i as int));
                }
            },
        }
    }
}


impl IdlModule {
    /// Registers a type declaration under the scope path from position `i`
    /// on, creating missing scopes; an already-used key is left as it is.
    fn insert_type_at(&mut self, scope: &Vec<String>, i: usize, key: String, dcl: IdlTypeDcl)
        ensures
            final(self)@ == spec_insert_type(
                old(self)@,
                scope_view(scope@),
                i as int,
                key@,
                dcl@,
            ),
        decreases scope.len() - i,
    {
        let ghost before = self@;
        let ghost path = scope_view(scope@);
        if i >= scope.len() {
            match self.find_type(&key) {
                Option::Some(_) => {
                    proof {
                        assert(self@ =~~= spec_insert_type(before, path, i as int, key@, dcl@));
                    }
                },
                Option::None => {
                    let ghost kv = key@;
                    let ghost dv = dcl@;
                    self.types.push((key, dcl));
                    proof {
                        assert(self@.types =~~= before.types.push((kv, dv)));
                        assert(self@ =~~= spec_insert_type(before, path, i as int, kv, dv));
                    }
                },
            }
            return ;
        }
        let name = &scope[i];
        proof {
            assert(path[i as int] == name@);
        }
        match self.find_module(name) {
            Option::Some(j) => {
                let ghost kv = key@;
                let ghost dv = dcl@;
                let mut entry = self.modules.remove(j);
                let ghost k0 = entry.0@;
                let ghost sub0 = entry.1@;
                proof {
                    assert(k0 == before.modules[j as int].0);
                    assert(sub0 == before.modules[j as int].1);
                }
                entry.1.insert_type_at(scope, i + 1, key, dcl);
                let ghost e2 = entry;
                self.modules.insert(j, entry);
                proof {
                    assert(self.modules@ =~= old(self).modules@.update(j as int, e2));
                    assert(self@.modules =~~= before.modules.update(
                        j as int,
                        (k0, spec_insert_type(sub0, path, i + 1, kv, dv)),
                    ));
                    assert(self@ =~~= spec_insert_type(before, path, i as int, kv, dv));
                }
            },
            Option::None => {
                let ghost kv = key@;
                let ghost dv = dcl@;
                let mut fresh = IdlModule::new(Option::Some(name.clone()), i + 1);
                proof {
                    assert(fresh@ =~~= fresh_module(name@, (i + 1) as nat));
                }
                fresh.insert_type_at(scope, i + 1, key, dcl);
                let key2 = name.clone();
                self.modules.push((key2, fresh));
                proof {
                    assert(self@.modules =~~= before.modules.push(
                        (
                            name@,
                            spec_insert_type(
                                fresh_module(name@, (i + 1) as nat),
                                path,
                                i + 1,
                                kv,
                                dv,
                            ),
                        ),
                    ));
                    assert(self@ =~~= spec_insert_type(before, path, i as int, kv, dv));
                }
            },
        }
    }

    /// Registers a constant declaration under the scope path from position
    /// `i` on, creating missing scopes; an already-used key is left as it is.
    fn insert_const_at(&mut self, scope: &Vec<String>, i: usize, key: String, dcl: IdlConstDcl)
        ensures
            final(self)@ == spec_insert_const(
                old(self)@,
                scope_view(scope@),
                i as int,
                key@,
                dcl@,
            ),
        decreases scope.len() - i,
    {
        let ghost before = self@;
        let ghost path = scope_view(scope@);
        if i >= scope.len() {
            match self.find_const(&key) {
                Option::Some(_) => {
                    proof {
                        assert(self@ =~~= spec_insert_const(before, path, i as int, key@, dcl@));
                    }
                },
                Option::None => {
                    let ghost kv = key@;
                    let ghost dv = dcl@;
                    self.constants.push((key, dcl));
                    proof {
                        assert(self@.constants =~~= before.constants.push((kv, dv)));
                        assert(self@ =~~= spec_insert_const(before, path, i as int, kv, dv));
                    }
                },
            }
            return ;
        }
        let name = &scope[i];
        proof {
            assert(path[i as int] == name@);
        }
        match self.find_module(name) {
            Option::Some(j) => {
                let ghost kv = key@;
                let ghost dv = dcl@;
                let mut entry = self.modules.remove(j);
                let ghost k0 = entry.0@;
                let ghost sub0 = entry.1@;
                proof {
                    assert(k0 == before.modules[j as int].0);
                    assert(sub0 == before.modules[j as int].1);
                }
                entry.1.insert_const_at(scope, i + 1, key, dcl);
                let ghost e2 = entry;
                self.modules.insert(j, entry);
                proof {
                    assert(self.modules@ =~= old(self).modules@.update(j as int, e2));
                    assert(self@.modules =~~= before.modules.update(
                        j as int,
                        (k0, spec_insert_const(sub0, path, i + 1, kv, dv)),
                    ));
                    assert(self@ =~~= spec_insert_const(before, path, i as int, kv, dv));
                }
            },
            Option::None => {
                let ghost kv = key@;
                let ghost dv = dcl@;
                let mut fresh = IdlModule::new(Option::Some(name.clone()), i + 1);
                proof {
                    assert(fresh@ =~~= fresh_module(name@, (i + 1) as nat));
                }
                fresh.insert_const_at(scope, i + 1, key, dcl);
                let key2 = name.clone();
                self.modules.push((key2, fresh));
                proof {
                    assert(self@.modules =~~= before.modules.push(
                        (
                            name@,
                            spec_insert_const(
                                fresh_module(name@, (i + 1) as nat),
                                path,
                                i + 1,
                                kv,
                                dv,
                            ),
                        ),
                    ));
                    assert(self@ =~~= spec_insert_const(before, path, i as int, kv, dv));
                }
            },
        }
    }
}

/// The unnamed root module an empty model starts from.
pub open spec fn empty_root() -> ModuleView {
    ModuleView {
        id: Option::None,
        level: 0,
        modules: Seq::<(Seq<char>, ModuleView)>::empty(),
        types: Seq::<(Seq<char>, TypeDclKindView)>::empty(),
        constants: Seq::<(Seq<char>, ConstDclView)>::empty(),
    }
}

/// The state of one generation pass: the module tree being populated.
pub struct ProcessData {
    pub root_module: IdlModule,
}

impl ProcessData {
    /// A pass over an empty root module.
    pub fn new(_config: &crate::Configuration) -> (r: ProcessData)
        ensures
            r.root_module@ == empty_root(),
    {
        let root_module = IdlModule::new(Option::None, 0);
        proof {
            assert(root_module@ =~~= empty_root());
        }
        ProcessData { root_module }
    }

    /// Makes the module node for the given scope path exist, creating every
    /// missing intermediate module. Scope creation always succeeds.
    pub fn lookup_module(&mut self, scope: &Vec<String>)
        ensures
            final(self).root_module@ == spec_ensure_path(
                old(self).root_module@,
                scope_view(scope@),
                0,
            ),
    {
        self.root_module.ensure_path_at(scope, 0);
    }

    /// Registers a type declaration under the given scope; re-adding an
    /// already-registered identifier is a no-op: the first definition wins.
    pub fn add_type_dcl(&mut self, scope: &Vec<String>, key: String, type_dcl: IdlTypeDcl) -> (r:
        Result<(), IdlError>)
        ensures
            r is Ok,
            final(self).root_module@ == spec_insert_type(
                old(self).root_module@,
                scope_view(scope@),
                0,
                key@,
                type_dcl@,
            ),
    {
        self.root_module.insert_type_at(scope, 0, key, type_dcl);
        Ok(())
    }

    /// Registers a constant declaration under the given scope; re-adding an
    /// already-registered identifier is a no-op: the first definition wins.
    pub fn add_const_dcl(&mut self, scope: &Vec<String>, key: String, const_dcl: IdlConstDcl) -> (r:
        Result<(), IdlError>)
        ensures
            r is Ok,
            final(self).root_module@ == spec_insert_const(
                old(self).root_module@,
                scope_view(scope@),
                0,
                key@,
                const_dcl@,
            ),
    {
        self.root_module.insert_const_at(scope, 0, key, const_dcl);
        Ok(())
    }
}

// ----------------------------------------------------------------------
// Exec: reading identifiers, names, expressions and types
// ----------------------------------------------------------------------
/// The view of an identifier-reading result.
pub open spec fn id_res(r: Result<String, IdlError>) -> Result<Seq<char>, ErrorView> {
    match r {
        Result::Ok(s) => Result::Ok(s@),
        Result::Err(e) => Result::Err(e@),
    }
}

/// The view of a scoped-name-reading result.
pub open spec fn name_res(r: Result<IdlScopedName, IdlError>) -> Result<ScopedNameView, ErrorView> {
    match r {
        Result::Ok(n) => Result::Ok(n@),
        Result::Err(e) => Result::Err(e@),
    }
}

/// The views of a sequence of name segments.
pub open spec fn strings_view(s: Seq<String>) -> Seq<Seq<char>> {
    Seq::new(s.len(), |i: int| s[i]@)
}

/// The view of a name-segment-collecting result.
pub open spec fn parts_res(r: Result<Vec<String>, IdlError>) -> Result<Seq<Seq<char>>, ErrorView> {
    match r {
        Result::Ok(v) => Result::Ok(strings_view(v@)),
        Result::Err(e) => Result::Err(e@),
    }
}

/// The view of an expression-resolving result.
pub open spec fn expr_res(r: Result<Box<IdlValueExpr>, IdlError>) -> Result<
    ValueExprView,
    ErrorView,
> {
    match r {
        Result::Ok(e) => Result::Ok(value_expr_view(*e)),
        Result::Err(e) => Result::Err(e@),
    }
}

/// The view of a type-resolving result.
pub open spec fn ts_res(r: Result<Box<IdlTypeSpec>, IdlError>) -> Result<TypeSpecView, ErrorView> {
    match r {
        Result::Ok(t) => Result::Ok(type_spec_view(*t)),
        Result::Err(e) => Result::Err(e@),
    }
}

/// The views of a sequence of dimension expressions.
pub open spec fn exprs_view(s: Seq<Box<IdlValueExpr>>) -> Seq<ValueExprView> {
    Seq::new(s.len(), |i: int| value_expr_view(*s[i]))
}

/// The view of a dimension-collecting result.
pub open spec fn dims_res(r: Result<Vec<Box<IdlValueExpr>>, IdlError>) -> Result<
    Seq<ValueExprView>,
    ErrorView,
> {
    match r {
        Result::Ok(v) => Result::Ok(exprs_view(v@)),
        Result::Err(e) => Result::Err(e@),
    }
}

/// The view of a single-member result.
pub open spec fn member_res(r: Result<Box<IdlStructMember>, IdlError>) -> Result<
    StructMemberView,
    ErrorView,
> {
    match r {
        Result::Ok(m) => Result::Ok(m@),
        Result::Err(e) => Result::Err(e@),
    }
}

/// The views of a sequence of struct members.
pub open spec fn members_view(s: Seq<Box<IdlStructMember>>) -> Seq<StructMemberView> {
    Seq::new(s.len(), |i: int| s[i]@)
}

/// The view of a member-list result.
pub open spec fn members_res(r: Result<Vec<Box<IdlStructMember>>, IdlError>) -> Result<
    Seq<StructMemberView>,
    ErrorView,
> {
    match r {
        Result::Ok(v) => Result::Ok(members_view(v@)),
        Result::Err(e) => Result::Err(e@),
    }
}

impl ProcessData {
    /// Reads an identifier node's text; any other rule is the expected-item
    /// error.
    fn read_identifier(&self, _scope: &Vec<String>, pair: &ParseNode) -> (r: Result<
        String,
        IdlError,
    >)
        ensures
            id_res(r) == spec_read_identifier(pair@),
    {
        if pair.tag == RuleTag::Identifier {
            Ok(pair.text.clone())
        } else {
            Err(IdlError::ExpectedItem(RuleTag::Identifier))
        }
    }

    /// Collects the identifier segments of a scoped name from position `i`
    /// on.
    fn read_name_parts(&self, scope: &Vec<String>, cs: &Vec<ParseNode>, i: usize) -> (r: Result<
        Vec<String>,
        IdlError,
    >)
        ensures
            parts_res(r) == spec_name_parts(nodes_view(cs@), i as int),
        decreases cs.len() - i,
    {
        if i >= cs.len() {
            let v: Vec<String> = Vec::new();
            proof {
                assert(strings_view(v@) =~= Seq::<Seq<char>>::empty());
            }
            return Ok(v);
        }
        let id = self.read_identifier(scope, &cs[i])?;
        let mut rest = self.read_name_parts(scope, cs, i + 1)?;
        let ghost restv = rest@;
        rest.insert(0, id);
        proof {
            assert(strings_view(rest@) =~= seq![id@] + strings_view(restv));
        }
        Ok(rest)
    }

    /// Reads a scoped name: its identifier segments, and whether the source
    /// text marks it absolute with a leading `::`.
    fn read_scoped_name(&self, scope: &Vec<String>, pair: &ParseNode) -> (r: Result<
        IdlScopedName,
        IdlError,
    >)
        ensures
            name_res(r) == spec_read_scoped_name(pair@),
    {
        let t = pair.text.as_str();
        let is_absolute = if t.unicode_len() >= 2 {
            let p = t.substring_char(0, 2);
            str_eq(p, "::")
        } else {
            false
        };
        proof {
            assert(is_absolute == spec_is_absolute(pair@.text));
        }
        let parts = self.read_name_parts(scope, &pair.children, 0)?;
        let r = IdlScopedName(parts, is_absolute);
        proof {
            assert(r@.parts =~= strings_view(r.0@));
            assert(name_res(Result::Ok(r)) =~~= spec_read_scoped_name(pair@));
        }
        Ok(r)
    }

    /// Resolves a constant expression, mirroring the grammar's
    /// operator-precedence chain; the expression structure and all literal
    /// text are preserved verbatim, never folded.
    fn read_const_expr(&self, scope: &Vec<String>, pair: &ParseNode) -> (r: Result<
        Box<IdlValueExpr>,
        IdlError,
    >)
        ensures
            expr_res(r) == spec_read_const_expr(pair@),
        decreases pair, 1int,
    {
        match pair.tag {
            RuleTag::ConstExpr => {
                if pair.children.len() >= 2 {
                    let e1 = self.read_const_expr(scope, &pair.children[0])?;
                    let e2 = self.read_const_expr(scope, &pair.children[1])?;
                    Ok(Box::new(IdlValueExpr::Expr(e1, e2)))
                } else if pair.children.len() == 1 {
                    self.read_const_expr(scope, &pair.children[0])
                } else {
                    Err(IdlError::ExpectedItem(RuleTag::ConstExpr))
                }
            },
            RuleTag::UnaryExpr => {
                if pair.children.len() >= 2 {
                    let op = self.read_unary_op(&pair.children[0]);
                    let e = self.read_const_expr(scope, &pair.children[1])?;
                    Ok(Box::new(IdlValueExpr::UnaryOp(op, e)))
                } else if pair.children.len() == 1 {
                    self.read_const_expr(scope, &pair.children[0])
                } else {
                    Err(IdlError::ExpectedItem(RuleTag::PrimaryExpr))
                }
            },
            RuleTag::PrimaryExpr => {
                if pair.children.len() >= 1 {
                    let c = &pair.children[0];
                    proof {
                        assert(pair@.children[0] == node_view(pair.children@[0]));
                        assert(c@ == pair@.children[0]);
                    }
                    if c.tag == RuleTag::ScopedName {
                        let name = self.read_scoped_name(scope, c)?;
                        Ok(Box::new(IdlValueExpr::ScopedName(name)))
                    } else if c.tag == RuleTag::Literal {
                        self.read_const_expr(scope, c)
                    } else if c.tag == RuleTag::ConstExpr {
                        let e = self.read_const_expr(scope, c)?;
                        Ok(Box::new(IdlValueExpr::Brace(e)))
                    } else {
                        Err(IdlError::ExpectedItem(RuleTag::PrimaryExpr))
                    }
                } else {
                    Err(IdlError::ExpectedItem(RuleTag::PrimaryExpr))
                }
            },
            RuleTag::OrExpr => self.read_binary_rest(scope, pair, BinaryOp::Or),
            RuleTag::XorExpr => self.read_binary_rest(scope, pair, BinaryOp::Xor),
            RuleTag::AndExpr => self.read_binary_rest(scope, pair, BinaryOp::And),
            RuleTag::LShiftExpr => self.read_binary_rest(scope, pair, BinaryOp::LShift),
            RuleTag::RShiftExpr => self.read_binary_rest(scope, pair, BinaryOp::RShift),
            RuleTag::AddExpr => self.read_binary_rest(scope, pair, BinaryOp::Add),
            RuleTag::SubExpr => self.read_binary_rest(scope, pair, BinaryOp::Sub),
            RuleTag::MulExpr => self.read_binary_rest(scope, pair, BinaryOp::Mul),
            RuleTag::DivExpr => self.read_binary_rest(scope, pair, BinaryOp::Div),
            RuleTag::ModExpr => self.read_binary_rest(scope, pair, BinaryOp::Mod),
            RuleTag::DecimalIntegerLiteral => Ok(
                Box::new(IdlValueExpr::DecLiteral(pair.text.clone())),
            ),
            RuleTag::OctalIntegerLiteral => Ok(
                Box::new(IdlValueExpr::OctLiteral(pair.text.clone())),
            ),
            RuleTag::HexIntegerLiteral => Ok(
                Box::new(IdlValueExpr::HexLiteral(pair.text.clone())),
            ),
            RuleTag::FloatingPtLiteral => {
                let mut pi: Option<String> = Option::None;
                let mut pf: Option<String> = Option::None;
                let mut pe: Option<String> = Option::None;
                let mut ps: Option<String> = Option::None;
                let n = pair.children.len();
                let mut k: usize = 0;
                while k < n
                    invariant
                        pair@.tag == RuleTag::FloatingPtLiteral,
                        n == pair.children@.len(),
                        k <= n,
                        spec_float_parts(
                            pair@.children,
                            0,
                            (
                                Option::<Seq<char>>::None,
                                Option::<Seq<char>>::None,
                                Option::<Seq<char>>::None,
                                Option::<Seq<char>>::None,
                            ),
                        ) == spec_float_parts(
                            pair@.children,
                            k as int,
                            (
                                crate::ast::opt_string_view(pi),
                                crate::ast::opt_string_view(pf),
                                crate::ast::opt_string_view(pe),
                                crate::ast::opt_string_view(ps),
                            ),
                        ),
                    decreases n - k,
                {
                    let c = &pair.children[k];
                    proof {
                        assert(pair@.children[k as int] == node_view(pair.children@[k as int]));
                        assert(pair@.children[k as int].tag == c.tag);
                        assert(pair@.children[k as int].text == c.text@);
                    }
                    if c.tag == RuleTag::IntegralPart {
                        pi = Option::Some(c.text.clone());
                    } else if c.tag == RuleTag::FractionalPart {
                        pf = Option::Some(c.text.clone());
                    } else if c.tag == RuleTag::Exponent {
                        pe = Option::Some(c.text.clone());
                    } else if c.tag == RuleTag::FloatSuffix {
                        ps = Option::Some(c.text.clone());
                    } else {
                    proof {
                            let accv = (
                                crate::ast::opt_string_view(pi),
                                crate::ast::opt_string_view(pf),
                                crate::ast::opt_string_view(pe),
                                crate::ast::opt_string_view(ps),
                            );
                            assert(pair@.children.len() == pair.children@.len());
                            assert(0 <= k < pair@.children.len());
                            let cv = pair@.children[k as int];
                            assert(cv.tag == c.tag);
                            assert(cv.tag != RuleTag::IntegralPart);
                            assert(cv.tag != RuleTag::FractionalPart);
                            assert(cv.tag != RuleTag::Exponent);
                            assert(cv.tag != RuleTag::FloatSuffix);
                            assert(spec_float_parts(pair@.children, k as int, accv) is Err);
                            assert(spec_read_const_expr(pair@) is Err);
                        }
                        return Err(IdlError::InternalError);
                    }
                    k = k + 1;
                }
                proof {
                    let accv = (
                        crate::ast::opt_string_view(pi),
                        crate::ast::opt_string_view(pf),
                        crate::ast::opt_string_view(pe),
                        crate::ast::opt_string_view(ps),
                    );
                    assert(spec_float_parts(pair@.children, n as int, accv) == Result::<
                        (Option<Seq<char>>, Option<Seq<char>>, Option<Seq<char>>, Option<Seq<char>>),
                        ErrorView,
                    >::Ok(accv));
                    assert(spec_read_const_expr(pair@) == Result::<ValueExprView, ErrorView>::Ok(
                        ValueExprView::FloatLiteral(accv.0, accv.1, accv.2, accv.3),
                    ));
                }
                Ok(Box::new(IdlValueExpr::FloatLiteral(pi, pf, pe, ps)))
            },
            RuleTag::BooleanLiteral => {
                let b = str_eq(pair.text.as_str(), "TRUE");
                Ok(Box::new(IdlValueExpr::BooleanLiteral(b)))
            },
            RuleTag::CharacterLiteral => Ok(
                Box::new(IdlValueExpr::CharLiteral(pair.text.clone())),
            ),
            _ => {
                if pair.children.len() >= 1 {
                    self.read_const_expr(scope, &pair.children[0])
                } else {
                    Err(IdlError::InternalError)
                }
            },
        }
    }

    /// The unary operator spelled by an operator node.
    fn read_unary_op(&self, pair: &ParseNode) -> (r: UnaryOp)
        ensures
            r == spec_unary_op(pair@),
    {
        if str_eq(pair.text.as_str(), "-") {
            UnaryOp::Neg
        } else if str_eq(pair.text.as_str(), "~") {
            UnaryOp::Inverse
        } else {
            UnaryOp::Pos
        }
    }

    /// Resolves the right-hand operand of a binary-operator rule node and
    /// attaches the node's own operator.
    fn read_binary_rest(&self, scope: &Vec<String>, pair: &ParseNode, op: BinaryOp) -> (r: Result<
        Box<IdlValueExpr>,
        IdlError,
    >)
        ensures
            expr_res(r) == spec_binary_rest(pair@, op),
        decreases pair, 0int,
    {
        if pair.children.len() >= 1 {
            let e = self.read_const_expr(scope, &pair.children[0])?;
            Ok(Box::new(IdlValueExpr::BinaryOp(op, e)))
        } else {
            Err(IdlError::InternalError)
        }
    }

    /// Resolves a type specification by rule tag; unrecognized wrapper rules
    /// resolve through their single child.
    pub fn read_type_spec(&self, scope: &Vec<String>, pair: &ParseNode) -> (r: Result<
        Box<IdlTypeSpec>,
        IdlError,
    >)
        ensures
            ts_res(r) == spec_read_type_spec(pair@),
        decreases pair,
    {
        match pair.tag {
            RuleTag::FloatType => Ok(Box::new(IdlTypeSpec::F32Type)),
            RuleTag::DoubleType => Ok(Box::new(IdlTypeSpec::F64Type)),
            RuleTag::LongDoubleType => Ok(Box::new(IdlTypeSpec::F128Type)),
            RuleTag::UnsignedShortInt => Ok(Box::new(IdlTypeSpec::U16Type)),
            RuleTag::UnsignedLongLongInt => Ok(Box::new(IdlTypeSpec::U64Type)),
            RuleTag::UnsignedLongInt => Ok(Box::new(IdlTypeSpec::U32Type)),
            RuleTag::SignedShortInt => Ok(Box::new(IdlTypeSpec::I16Type)),
            RuleTag::SignedLongLongInt => Ok(Box::new(IdlTypeSpec::I64Type)),
            RuleTag::SignedLongInt => Ok(Box::new(IdlTypeSpec::I32Type)),
            RuleTag::CharType => Ok(Box::new(IdlTypeSpec::CharType)),
            RuleTag::WideCharType => Ok(Box::new(IdlTypeSpec::WideCharType)),
            RuleTag::BooleanType => Ok(Box::new(IdlTypeSpec::BooleanType)),
            RuleTag::OctetType => Ok(Box::new(IdlTypeSpec::OctetType)),
            RuleTag::StringType => {
                if pair.children.len() == 0 {
                    Ok(Box::new(IdlTypeSpec::StringType(Option::None)))
                } else {
                    let b = self.read_const_expr(scope, &pair.children[0])?;
                    Ok(Box::new(IdlTypeSpec::StringType(Option::Some(b))))
                }
            },
            RuleTag::WideStringType => {
                if pair.children.len() == 0 {
                    Ok(Box::new(IdlTypeSpec::WideStringType(Option::None)))
                } else {
                    let b = self.read_const_expr(scope, &pair.children[0])?;
                    Ok(Box::new(IdlTypeSpec::WideStringType(Option::Some(b))))
                }
            },
            RuleTag::SequenceType => {
                if pair.children.len() == 1 {
                    let t = self.read_type_spec(scope, &pair.children[0])?;
                    Ok(Box::new(IdlTypeSpec::SequenceType(t, Option::None)))
                } else if pair.children.len() >= 2 {
                    let t = self.read_type_spec(scope, &pair.children[0])?;
                    let b = self.read_const_expr(scope, &pair.children[1])?;
                    Ok(Box::new(IdlTypeSpec::SequenceType(t, Option::Some(b))))
                } else {
                    Err(IdlError::InternalError)
                }
            },
            RuleTag::ScopedName => {
                let name = self.read_scoped_name(scope, pair)?;
                Ok(Box::new(IdlTypeSpec::ScopedName(name)))
            },
            _ => {
                if pair.children.len() >= 1 {
                    self.read_type_spec(scope, &pair.children[0])
                } else {
                    Err(IdlError::InternalError)
                }
            },
        }
    }

    /// Collects the dimension expressions of an array declarator from the
    /// fixed-array-size nodes from position `i` on, in source order.
    fn read_dims(&self, scope: &Vec<String>, cs: &Vec<ParseNode>, i: usize) -> (r: Result<
        Vec<Box<IdlValueExpr>>,
        IdlError,
    >)
        ensures
            dims_res(r) == spec_read_dims(nodes_view(cs@), i as int),
        decreases cs.len() - i,
    {
        if i >= cs.len() {
            let v: Vec<Box<IdlValueExpr>> = Vec::new();
            proof {
                assert(exprs_view(v@) =~= Seq::<ValueExprView>::empty());
            }
            return Ok(v);
        }
        if cs[i].children.len() == 0 {
            return Err(IdlError::InternalError);
        }
        let d = self.read_const_expr(scope, &cs[i].children[0])?;
        let mut rest = self.read_dims(scope, cs, i + 1)?;
        let ghost restv = rest@;
        rest.insert(0, d);
        proof {
            assert(exprs_view(rest@) =~= seq![value_expr_view(*rest@[0])] + exprs_view(restv));
        }
        Ok(rest)
    }

    /// Resolves one declarator of a struct member line into an independent
    /// member bound to the shared type, wrapping it in an array type whose
    /// dimension expressions keep their source order, outermost first.
    pub fn read_struct_member_declarator(
        &self,
        scope: &Vec<String>,
        pair: &ParseNode,
        type_spec: &Box<IdlTypeSpec>,
    ) -> (r: Result<Box<IdlStructMember>, IdlError>)
        ensures
            member_res(r) == spec_read_declarator_member(pair@, type_spec@),
    {
        proof {
            assert(pair@.children.len() == pair.children@.len());
        }
        if pair.children.len() == 0 {
            return Err(IdlError::InternalError);
        }
        let decl = &pair.children[0];
        proof {
            assert(pair@.children[0] == node_view(pair.children@[0]));
            assert(decl@ == pair@.children[0]);
        }
        if decl.tag == RuleTag::SimpleDeclarator {
            if decl.children.len() == 0 {
                return Err(IdlError::InternalError);
            }
            proof {
                assert(decl@.children == nodes_view(decl.children@));
                assert(decl@.children[0] == node_view(decl.children@[0]));
            }
            let id = self.read_identifier(scope, &decl.children[0])?;
            let member = IdlStructMember {
                id,
                type_spec: Box::new(clone_type_spec(&**type_spec)),
            };
            Ok(Box::new(member))
        } else if decl.tag == RuleTag::ArrayDeclarator {
            if decl.children.len() == 0 {
                return Err(IdlError::InternalError);
            }
            proof {
                assert(decl@.children == nodes_view(decl.children@));
                assert(decl@.children[0] == node_view(decl.children@[0]));
            }
            let id = self.read_identifier(scope, &decl.children[0])?;
            let dims = self.read_dims(scope, &decl.children, 1)?;
            let ghost dimsv = exprs_view(dims@);
            let array_type = IdlTypeSpec::ArrayType(
                Box::new(clone_type_spec(&**type_spec)),
                dims,
            );
            proof {
                assert(type_spec_view(array_type) =~~= TypeSpecView::ArrayType(
                    Box::new(type_spec@),
                    dimsv,
                ));
            }
            let member = IdlStructMember { id, type_spec: Box::new(array_type) };
            Ok(Box::new(member))
        } else {
            Err(IdlError::InternalError)
        }
    }

    /// Resolves the declarators of one member line from position `i` on, all
    /// sharing the same resolved type.
    fn read_member_declarators(
        &self,
        scope: &Vec<String>,
        cs: &Vec<ParseNode>,
        i: usize,
        type_spec: &Box<IdlTypeSpec>,
    ) -> (r: Result<Vec<Box<IdlStructMember>>, IdlError>)
        ensures
            members_res(r) == spec_read_member_declarators(
                nodes_view(cs@),
                i as int,
                type_spec@,
            ),
        decreases cs.len() - i,
    {
        if i >= cs.len() {
            let v: Vec<Box<IdlStructMember>> = Vec::new();
            proof {
                assert(members_view(v@) =~= Seq::<StructMemberView>::empty());
            }
            return Ok(v);
        }
        let m = self.read_struct_member_declarator(scope, &cs[i], type_spec)?;
        let mut rest = self.read_member_declarators(scope, cs, i + 1, type_spec)?;
        let ghost restv = rest@;
        rest.insert(0, m);
        proof {
            assert(members_view(rest@) =~= seq![rest@[0]@] + members_view(restv));
        }
        Ok(rest)
    }

    /// Resolves one member line: one shared type specification, expanded into
    /// an independent member per declarator.
    fn read_member(&self, scope: &Vec<String>, pair: &ParseNode) -> (r: Result<
        Vec<Box<IdlStructMember>>,
        IdlError,
    >)
        ensures
            members_res(r) == spec_read_member(pair@),
    {
        proof {
            assert(pair@.children.len() == pair.children@.len());
        }
        if pair.children.len() < 2 {
            return Err(IdlError::InternalError);
        }
        proof {
            assert(pair@.children[0] == node_view(pair.children@[0]));
            assert(pair@.children[1] == node_view(pair.children@[1]));
        }
        let type_spec = self.read_type_spec(scope, &pair.children[0])?;
        self.read_member_declarators(scope, &pair.children[1].children, 0, &type_spec)
    }

    /// Flattens the member lines of a struct body from position `i` on into
    /// one ordered member list.
    fn read_struct_body(&self, scope: &Vec<String>, cs: &Vec<ParseNode>, i: usize) -> (r: Result<
        Vec<Box<IdlStructMember>>,
        IdlError,
    >)
        ensures
            members_res(r) == spec_struct_members(nodes_view(cs@), i as int),
        decreases cs.len() - i,
    {
        if i >= cs.len() {
            let v: Vec<Box<IdlStructMember>> = Vec::new();
            proof {
                assert(members_view(v@) =~= Seq::<StructMemberView>::empty());
            }
            return Ok(v);
        }
        let mut ms = self.read_member(scope, &cs[i])?;
        let ghost msv = ms@;
        let mut rest = self.read_struct_body(scope, cs, i + 1)?;
        let ghost restv = rest@;
        ms.append(&mut rest);
        proof {
            assert(members_view(ms@) =~= members_view(msv) + members_view(restv));
        }
        Ok(ms)
    }
}

// ----------------------------------------------------------------------
// Exec: the recursive walk
// ----------------------------------------------------------------------
impl ProcessData {
    /// Registers one typedef declarator: the declarator's name aliased to the
    /// shared base type, or to an array wrapping of it whose dimension
    /// expressions keep their source order.
    pub fn process_declarator(
        &mut self,
        scope: &mut Vec<String>,
        pair: &ParseNode,
        type_spec: &Box<IdlTypeSpec>,
    ) -> (r: Result<(), IdlError>)
        ensures
            final(scope)@ == old(scope)@,
            ({
                let s = spec_process_declarator(
                    old(self).root_module@,
                    scope_view(old(scope)@),
                    type_spec@,
                    pair@,
                );
                match r {
                    Result::Ok(_) => s matches Result::Ok(m) && final(self).root_module@ == m,
                    Result::Err(e) => s == Result::<ModuleView, ErrorView>::Err(e@),
                }
            }),
    {
        proof {
            assert(pair@.children.len() == pair.children@.len());
        }
        if pair.children.len() == 0 {
            return Err(IdlError::InternalError);
        }
        let decl = &pair.children[0];
        proof {
            assert(pair@.children[0] == node_view(pair.children@[0]));
            assert(decl@ == pair@.children[0]);
        }
        if decl.tag == RuleTag::SimpleDeclarator {
            if decl.children.len() == 0 {
                return Err(IdlError::InternalError);
            }
            proof {
                assert(decl@.children[0] == node_view(decl.children@[0]));
            }
            let id = self.read_identifier(scope, &decl.children[0])?;
            let key = id.clone();
            let type_dcl = IdlTypeDcl(
                IdlTypeDclKind::TypeDcl(id, Box::new(clone_type_spec(&**type_spec))),
            );
            let _ = self.add_type_dcl(scope, key, type_dcl);
            Ok(())
        } else if decl.tag == RuleTag::ArrayDeclarator {
            if decl.children.len() == 0 {
                return Err(IdlError::InternalError);
            }
            proof {
                assert(decl@.children == nodes_view(decl.children@));
                assert(decl@.children[0] == node_view(decl.children@[0]));
            }
            let id = self.read_identifier(scope, &decl.children[0])?;
            let key = id.clone();
            let dims = self.read_dims(scope, &decl.children, 1)?;
            let ghost dimsv = exprs_view(dims@);
            let array_type = IdlTypeSpec::ArrayType(
                Box::new(clone_type_spec(&**type_spec)),
                dims,
            );
            proof {
                assert(type_spec_view(array_type) =~~= TypeSpecView::ArrayType(
                    Box::new(type_spec@),
                    dimsv,
                ));
            }
            let type_dcl = IdlTypeDcl(IdlTypeDclKind::TypeDcl(id, Box::new(array_type)));
            let _ = self.add_type_dcl(scope, key, type_dcl);
            Ok(())
        } else {
            Err(IdlError::InternalError)
        }
    }

    /// Registers the typedef declarators from position `i` on, one type alias
    /// each, sharing the resolved base type.
    fn process_declarators(
        &mut self,
        scope: &mut Vec<String>,
        cs: &Vec<ParseNode>,
        i: usize,
        type_spec: &Box<IdlTypeSpec>,
    ) -> (r: Result<(), IdlError>)
        ensures
            final(scope)@ == old(scope)@,
            ({
                let s = spec_process_declarators(
                    old(self).root_module@,
                    scope_view(old(scope)@),
                    type_spec@,
                    nodes_view(cs@),
                    i as int,
                );
                match r {
                    Result::Ok(_) => s matches Result::Ok(m) && final(self).root_module@ == m,
                    Result::Err(e) => s == Result::<ModuleView, ErrorView>::Err(e@),
                }
            }),
        decreases cs.len() - i,
    {
        if i >= cs.len() {
            return Ok(());
        }
        proof {
            assert(nodes_view(cs@)[i as int] == node_view(cs@[i as int]));
        }
        self.process_declarator(scope, &cs[i], type_spec)?;
        self.process_declarators(scope, cs, i + 1, type_spec)
    }

    /// Processes one parse node: module declarations extend the scope and
    /// recurse, struct, typedef and constant declarations register under the
    /// current scope, and every other rule is traversed structurally, so
    /// unhandled wrapper rules pass through. The first resolution failure
    /// aborts the pass.
    pub fn process(&mut self, scope: &mut Vec<String>, pair: &ParseNode) -> (r: Result<
        (),
        IdlError,
    >)
        ensures
            ({
                let s = spec_process(
                    old(self).root_module@,
                    scope_view(old(scope)@),
                    pair@,
                );
                match r {
                    Result::Ok(_) => s matches Result::Ok(m) && final(self).root_module@ == m
                        && final(scope)@ == old(scope)@,
                    Result::Err(e) => s == Result::<ModuleView, ErrorView>::Err(e@),
                }
            }),
        decreases pair, 1int,
    {
        proof {
            assert(pair@.children.len() == pair.children@.len());
        }
        match pair.tag {
            RuleTag::ModuleDcl => {
                if pair.children.len() == 0 {
                    return Err(IdlError::InternalError);
                }
                proof {
                    assert(pair@.children[0] == node_view(pair.children@[0]));
                }
                let id = pair.children[0].text.clone();
                scope.push(id);
                proof {
                    assert(scope_view(scope@) =~= scope_view(old(scope)@).push(
                        pair@.children[0].text,
                    ));
                }
                self.lookup_module(scope);
                let res = self.process_seq(scope, &pair.children, 1);
                match res {
                    Result::Ok(_) => {
                        scope.pop();
                        proof {
                            assert(scope@ =~= old(scope)@);
                        }
                        Ok(())
                    },
                    Result::Err(e) => Err(e),
                }
            },
            RuleTag::StructDef => {
                if pair.children.len() == 0 {
                    return Err(IdlError::InternalError);
                }
                proof {
                    assert(pair@.children[0] == node_view(pair.children@[0]));
                }
                let id = pair.children[0].text.clone();
                let key = id.clone();
                let members = self.read_struct_body(scope, &pair.children, 1)?;
                let ghost membersv = members_view(members@);
                let typedcl = IdlTypeDcl(IdlTypeDclKind::StructDcl(id, members));
                proof {
                    assert(typedcl@ =~~= TypeDclKindView::StructDcl(key@, membersv));
                }
                let _ = self.add_type_dcl(scope, key, typedcl);
                Ok(())
            },
            RuleTag::TypeDeclarator => {
                if pair.children.len() < 2 {
                    return Err(IdlError::InternalError);
                }
                proof {
                    assert(pair@.children[0] == node_view(pair.children@[0]));
                    assert(pair@.children[1] == node_view(pair.children@[1]));
                }
                let type_spec = self.read_type_spec(scope, &pair.children[0])?;
                self.process_declarators(scope, &pair.children[1].children, 0, &type_spec)
            },
            RuleTag::ConstDcl => {
                if pair.children.len() < 3 {
                    return Err(IdlError::InternalError);
                }
                proof {
                    assert(pair@.children[0] == node_view(pair.children@[0]));
                    assert(pair@.children[1] == node_view(pair.children@[1]));
                    assert(pair@.children[2] == node_view(pair.children@[2]));
                }
                let type_spec = self.read_type_spec(scope, &pair.children[0])?;
                let id = self.read_identifier(scope, &pair.children[1])?;
                let key = id.clone();
                let const_expr = self.read_const_expr(scope, &pair.children[2])?;
                let const_dcl = IdlConstDcl { id, typedcl: type_spec, value: const_expr };
                let _ = self.add_const_dcl(scope, key, const_dcl);
                Ok(())
            },
            _ => self.process_seq(scope, &pair.children, 0),
        }
    }

    /// Processes the child nodes from position `i` on, in order, fail-fast on
    /// the first error.
    pub fn process_seq(&mut self, scope: &mut Vec<String>, cs: &Vec<ParseNode>, i: usize) -> (r: Result<
        (),
        IdlError,
    >)
        ensures
            ({
                let s = spec_process_seq(
                    old(self).root_module@,
                    scope_view(old(scope)@),
                    nodes_view(cs@),
                    i as int,
                );
                match r {
                    Result::Ok(_) => s matches Result::Ok(m) && final(self).root_module@ == m
                        && final(scope)@ == old(scope)@,
                    Result::Err(e) => s == Result::<ModuleView, ErrorView>::Err(e@),
                }
            }),
        decreases cs@, cs.len() - i,
    {
        if i >= cs.len() {
            return Ok(());
        }
        proof {
            assert(nodes_view(cs@)[i as int] == node_view(cs@[i as int]));
        }
        self.process(scope, &cs[i])?;
        self.process_seq(scope, cs, i + 1)
    }
}

// ----------------------------------------------------------------------
// Renderability of everything the walk registers
// ----------------------------------------------------------------------
/// A resolved type specification is always renderable.
pub proof fn lemma_read_type_spec_wf(n: NodeView)
    ensures
        spec_read_type_spec(n) matches Result::Ok(t) ==> type_spec_wf(t),
    decreases n,
{
    match n.tag {
        RuleTag::SequenceType => {
            if n.children.len() >= 1 {
                lemma_read_type_spec_wf(n.children[0]);
            }
        },
        RuleTag::FloatType => {
        },
        _ => {
            if n.children.len() >= 1 {
                lemma_read_type_spec_wf(n.children[0]);
            }
        },
    }
}

/// A resolved member's type is renderable whenever the shared base type is.
pub proof fn lemma_declarator_member_wf(n: NodeView, t: TypeSpecView)
    requires
        type_spec_wf(t),
    ensures
        spec_read_declarator_member(n, t) matches Result::Ok(m) ==> type_spec_wf(m.type_spec),
{
}

/// Every member of a member line is renderable whenever the shared base type
/// is.
pub proof fn lemma_member_declarators_wf(cs: Seq<NodeView>, i: int, t: TypeSpecView)
    requires
        type_spec_wf(t),
    ensures
        spec_read_member_declarators(cs, i, t) matches Result::Ok(ms) ==> forall|k: int|
            0 <= k < ms.len() ==> type_spec_wf(#[trigger] ms[k].type_spec),
    decreases cs.len() - i,
{
    if i < 0 || i >= cs.len() {
    } else {
        lemma_declarator_member_wf(cs[i], t);
        lemma_member_declarators_wf(cs, i + 1, t);
    }
}

/// Every member of a resolved member line is renderable.
pub proof fn lemma_read_member_wf(n: NodeView)
    ensures
        spec_read_member(n) matches Result::Ok(ms) ==> forall|k: int|
            0 <= k < ms.len() ==> type_spec_wf(#[trigger] ms[k].type_spec),
{
    if n.children.len() >= 2 {
        lemma_read_type_spec_wf(n.children[0]);
        match spec_read_type_spec(n.children[0]) {
            Result::Ok(t) => {
                lemma_member_declarators_wf(n.children[1].children, 0, t);
            },
            Result::Err(_) => {
            },
        }
    }
}

/// Every member of a resolved struct body is renderable.
pub proof fn lemma_struct_members_wf(cs: Seq<NodeView>, i: int)
    ensures
        spec_struct_members(cs, i) matches Result::Ok(ms) ==> forall|k: int|
            0 <= k < ms.len() ==> type_spec_wf(#[trigger] ms[k].type_spec),
    decreases cs.len() - i,
{
    if i < 0 || i >= cs.len() {
    } else {
        lemma_read_member_wf(cs[i]);
        lemma_struct_members_wf(cs, i + 1);
    }
}

/// A found key position is in bounds and carries the key.
pub proof fn lemma_key_index_bounds<T>(s: Seq<(Seq<char>, T)>, key: Seq<char>, i: int)
    requires
        0 <= i,
    ensures
        key_index(s, key, i) == -1 || (i <= key_index(s, key, i) < s.len() && s[key_index(
            s,
            key,
            i,
        )].0 == key),
    decreases s.len() - i,
{
    if i >= s.len() {
    } else if s[i].0 == key {
    } else {
        lemma_key_index_bounds(s, key, i + 1);
    }
}

/// Walking a scope path keeps a renderable module tree renderable and leaves
/// the root's own name unchanged.
pub proof fn lemma_ensure_path_wf(m: ModuleView, path: Seq<Seq<char>>, i: int)
    requires
        module_wf(m),
    ensures
        module_wf(spec_ensure_path(m, path, i)),
        spec_ensure_path(m, path, i).id == m.id,
        spec_ensure_path(m, path, i).types == m.types,
        spec_ensure_path(m, path, i).constants == m.constants,
    decreases path.len() - i,
{
    if i < 0 || i >= path.len() {
    } else {
        let name = path[i];
        let j = key_index(m.modules, name, 0);
        let res = spec_ensure_path(m, path, i);
        lemma_key_index_bounds(m.modules, name, 0);
        if j >= 0 {
            assert(m.modules[j].1.id is Some && module_wf(m.modules[j].1));
            lemma_ensure_path_wf(m.modules[j].1, path, i + 1);
            assert forall|k: int| 0 <= k < res.modules.len() implies (#[trigger] res.modules[
                k].1.id) is Some && module_wf(res.modules[k].1) by {
                if k != j {
                    assert(res.modules[k] == m.modules[k]);
                    assert(m.modules[k].1.id is Some && module_wf(m.modules[k].1));
                }
            }
            assert(module_wf(res));
        } else {
            let fresh = fresh_module(name, (i + 1) as nat);
            assert(module_wf(fresh));
            lemma_ensure_path_wf(fresh, path, i + 1);
            assert forall|k: int| 0 <= k < res.modules.len() implies (#[trigger] res.modules[
                k].1.id) is Some && module_wf(res.modules[k].1) by {
                if k < m.modules.len() {
                    assert(res.modules[k] == m.modules[k]);
                    assert(m.modules[k].1.id is Some && module_wf(m.modules[k].1));
                }
            }
            assert(module_wf(res));
        }
    }
}

/// Registering a renderable type declaration keeps a renderable module tree
/// renderable.
pub proof fn lemma_insert_type_wf(
    m: ModuleView,
    path: Seq<Seq<char>>,
    i: int,
    key: Seq<char>,
    dcl: TypeDclKindView,
)
    requires
        module_wf(m),
        type_dcl_wf(dcl),
    ensures
        module_wf(spec_insert_type(m, path, i, key, dcl)),
        spec_insert_type(m, path, i, key, dcl).id == m.id,
    decreases path.len() - i,
{
    let res = spec_insert_type(m, path, i, key, dcl);
    if i < 0 || i >= path.len() {
        if key_index(m.types, key, 0) >= 0 {
        } else {
            assert forall|k: int| 0 <= k < res.types.len() implies type_dcl_wf(
                #[trigger] res.types[k].1,
            ) by {
                if k < m.types.len() {
                    assert(res.types[k] == m.types[k]);
                    assert(type_dcl_wf(m.types[k].1));
                }
            }
            assert(module_wf(res));
        }
    } else {
        let name = path[i];
        let j = key_index(m.modules, name, 0);
        lemma_key_index_bounds(m.modules, name, 0);
        if j >= 0 {
            assert(m.modules[j].1.id is Some && module_wf(m.modules[j].1));
            lemma_insert_type_wf(m.modules[j].1, path, i + 1, key, dcl);
            assert forall|k: int| 0 <= k < res.modules.len() implies (#[trigger] res.modules[
                k].1.id) is Some && module_wf(res.modules[k].1) by {
                if k != j {
                    assert(res.modules[k] == m.modules[k]);
                    assert(m.modules[k].1.id is Some && module_wf(m.modules[k].1));
                }
            }
            assert(module_wf(res));
        } else {
            let fresh = fresh_module(name, (i + 1) as nat);
            assert(module_wf(fresh));
            lemma_insert_type_wf(fresh, path, i + 1, key, dcl);
            assert forall|k: int| 0 <= k < res.modules.len() implies (#[trigger] res.modules[
                k].1.id) is Some && module_wf(res.modules[k].1) by {
                if k < m.modules.len() {
                    assert(res.modules[k] == m.modules[k]);
                    assert(m.modules[k].1.id is Some && module_wf(m.modules[k].1));
                }
            }
            assert(module_wf(res));
        }
    }
}

/// Registering a constant whose declared type is renderable keeps a
/// renderable module tree renderable.
pub proof fn lemma_insert_const_wf(
    m: ModuleView,
    path: Seq<Seq<char>>,
    i: int,
    key: Seq<char>,
    dcl: ConstDclView,
)
    requires
        module_wf(m),
        type_spec_wf(dcl.typedcl),
    ensures
        module_wf(spec_insert_const(m, path, i, key, dcl)),
        spec_insert_const(m, path, i, key, dcl).id == m.id,
    decreases path.len() - i,
{
    let res = spec_insert_const(m, path, i, key, dcl);
    if i < 0 || i >= path.len() {
        if key_index(m.constants, key, 0) >= 0 {
        } else {
            assert forall|k: int| 0 <= k < res.constants.len() implies type_spec_wf(
                (#[trigger] res.constants[k].1).typedcl,
            ) by {
                if k < m.constants.len() {
                    assert(res.constants[k] == m.constants[k]);
                    assert(type_spec_wf(m.constants[k].1.typedcl));
                }
            }
            assert(module_wf(res));
        }
    } else {
        let name = path[i];
        let j = key_index(m.modules, name, 0);
        lemma_key_index_bounds(m.modules, name, 0);
        if j >= 0 {
            assert(m.modules[j].1.id is Some && module_wf(m.modules[j].1));
            lemma_insert_const_wf(m.modules[j].1, path, i + 1, key, dcl);
            assert forall|k: int| 0 <= k < res.modules.len() implies (#[trigger] res.modules[
                k].1.id) is Some && module_wf(res.modules[k].1) by {
                if k != j {
                    assert(res.modules[k] == m.modules[k]);
                    assert(m.modules[k].1.id is Some && module_wf(m.modules[k].1));
                }
            }
            assert(module_wf(res));
        } else {
            let fresh = fresh_module(name, (i + 1) as nat);
            assert(module_wf(fresh));
            lemma_insert_const_wf(fresh, path, i + 1, key, dcl);
            assert forall|k: int| 0 <= k < res.modules.len() implies (#[trigger] res.modules[
                k].1.id) is Some && module_wf(res.modules[k].1) by {
                if k < m.modules.len() {
                    assert(res.modules[k] == m.modules[k]);
                    assert(m.modules[k].1.id is Some && module_wf(m.modules[k].1));
                }
            }
            assert(module_wf(res));
        }
    }
}

/// One registered typedef declarator keeps the module tree renderable
/// whenever the shared base type is renderable.
pub proof fn lemma_process_declarator_wf(
    m: ModuleView,
    scope: Seq<Seq<char>>,
    t: TypeSpecView,
    n: NodeView,
)
    requires
        module_wf(m),
        type_spec_wf(t),
    ensures
        spec_process_declarator(m, scope, t, n) matches Result::Ok(m2) ==> module_wf(m2),
{
    if n.children.len() > 0 {
        let decl = n.children[0];
        if decl.tag == RuleTag::SimpleDeclarator && decl.children.len() > 0 {
            match spec_read_identifier(decl.children[0]) {
                Result::Ok(id) => {
                    lemma_insert_type_wf(m, scope, 0, id, TypeDclKindView::TypeDcl(id, t));
                },
                Result::Err(_) => {
                },
            }
        } else if decl.tag == RuleTag::ArrayDeclarator && decl.children.len() > 0 {
            match spec_read_identifier(decl.children[0]) {
                Result::Ok(id) => {
                    match spec_read_dims(decl.children, 1) {
                        Result::Ok(dims) => {
                            lemma_insert_type_wf(
                                m,
                                scope,
                                0,
                                id,
                                TypeDclKindView::TypeDcl(
                                    id,
                                    TypeSpecView::ArrayType(Box::new(t), dims),
                                ),
                            );
                        },
                        Result::Err(_) => {
                        },
                    }
                },
                Result::Err(_) => {
                },
            }
        }
    }
}

/// A run of registered typedef declarators keeps the module tree renderable.
pub proof fn lemma_process_declarators_wf(
    m: ModuleView,
    scope: Seq<Seq<char>>,
    t: TypeSpecView,
    cs: Seq<NodeView>,
    i: int,
)
    requires
        module_wf(m),
        type_spec_wf(t),
    ensures
        spec_process_declarators(m, scope, t, cs, i) matches Result::Ok(m2) ==> module_wf(m2),
    decreases cs.len() - i,
{
    if i < 0 || i >= cs.len() {
    } else {
        lemma_process_declarator_wf(m, scope, t, cs[i]);
        match spec_process_declarator(m, scope, t, cs[i]) {
            Result::Ok(m2) => {
                lemma_process_declarators_wf(m2, scope, t, cs, i + 1);
            },
            Result::Err(_) => {
            },
        }
    }
}

/// The semantic pass keeps the module tree renderable: every model it hands
/// to the emitter can be serialized.
pub proof fn lemma_process_wf(m: ModuleView, scope: Seq<Seq<char>>, n: NodeView)
    requires
        module_wf(m),
    ensures
        spec_process(m, scope, n) matches Result::Ok(m2) ==> module_wf(m2),
    decreases n, 1int,
{
    match n.tag {
        RuleTag::ModuleDcl => {
            if n.children.len() > 0 {
                let scope2 = scope.push(n.children[0].text);
                lemma_ensure_path_wf(m, scope2, 0);
                lemma_process_seq_wf(spec_ensure_path(m, scope2, 0), scope2, n.children, 1);
            }
        },
        RuleTag::StructDef => {
            if n.children.len() > 0 {
                let id = n.children[0].text;
                lemma_struct_members_wf(n.children, 1);
                match spec_struct_members(n.children, 1) {
                    Result::Ok(members) => {
                        lemma_insert_type_wf(
                            m,
                            scope,
                            0,
                            id,
                            TypeDclKindView::StructDcl(id, members),
                        );
                    },
                    Result::Err(_) => {
                    },
                }
            }
        },
        RuleTag::TypeDeclarator => {
            if n.children.len() >= 2 {
                lemma_read_type_spec_wf(n.children[0]);
                match spec_read_type_spec(n.children[0]) {
                    Result::Ok(t) => {
                        lemma_process_declarators_wf(m, scope, t, n.children[1].children, 0);
                    },
                    Result::Err(_) => {
                    },
                }
            }
        },
        RuleTag::ConstDcl => {
            if n.children.len() >= 3 {
                lemma_read_type_spec_wf(n.children[0]);
                match spec_read_type_spec(n.children[0]) {
                    Result::Ok(t) => {
                        match spec_read_identifier(n.children[1]) {
                            Result::Ok(id) => {
                                match spec_read_const_expr(n.children[2]) {
                                    Result::Ok(e) => {
                                        lemma_insert_const_wf(
                                            m,
                                            scope,
                                            0,
                                            id,
                                            ConstDclView { id, typedcl: t, value: e },
                                        );
                                    },
                                    Result::Err(_) => {
                                    },
                                }
                            },
                            Result::Err(_) => {
                            },
                        }
                    },
                    Result::Err(_) => {
                    },
                }
            }
        },
        _ => {
            lemma_process_seq_wf(m, scope, n.children, 0);
        },
    }
}

/// Processing a run of sibling nodes keeps the module tree renderable.
pub proof fn lemma_process_seq_wf(
    m: ModuleView,
    scope: Seq<Seq<char>>,
    cs: Seq<NodeView>,
    i: int,
)
    requires
        module_wf(m),
    ensures
        spec_process_seq(m, scope, cs, i) matches Result::Ok(m2) ==> module_wf(m2),
    decreases cs, cs.len() - i,
{
    if i < 0 || i >= cs.len() {
    } else {
        lemma_process_wf(m, scope, cs[i]);
        match spec_process(m, scope, cs[i]) {
            Result::Ok(m2) => {
                lemma_process_seq_wf(m2, scope, cs, i + 1);
            },
            Result::Err(_) => {
            },
        }
    }
}

// ----------------------------------------------------------------------
// Laws of registration and resolution
// ----------------------------------------------------------------------
/// Pushing an entry under a key that is not yet registered makes that key
/// found at the old end.
proof fn lemma_key_index_after_push<T>(s: Seq<(Seq<char>, T)>, key: Seq<char>, v: T, i: int)
    requires
        0 <= i <= s.len(),
        key_index(s, key, i) == -1,
    ensures
        key_index(s.push((key, v)), key, i) == s.len(),
    decreases s.len() - i,
{
    let s2 = s.push((key, v));
    if i == s.len() {
        assert(s2[i] == (key, v));
    } else {
        assert(s[i].0 != key);
        assert(s2[i] == s[i]);
        lemma_key_index_after_push(s, key, v, i + 1);
    }
}

/// Key search depends only on the keys: updating an entry's value does not
/// move any key.
proof fn lemma_key_index_update_value<T>(
    s: Seq<(Seq<char>, T)>,
    j: int,
    v: T,
    key: Seq<char>,
    i: int,
)
    requires
        0 <= j < s.len(),
        0 <= i,
    ensures
        key_index(s.update(j, (s[j].0, v)), key, i) == key_index(s, key, i),
    decreases s.len() - i,
{
    let s2 = s.update(j, (s[j].0, v));
    if i >= s.len() {
    } else {
        assert(s2[i].0 == s[i].0);
        if s[i].0 == key {
        } else {
            lemma_key_index_update_value(s, j, v, key, i + 1);
        }
    }
}

/// Re-adding a type under an already-registered identifier in the same scope
/// is a no-op: the model after two additions equals the model after one,
/// whatever the second declaration says: the first definition wins silently.
pub proof fn lemma_first_definition_wins_type(
    m: ModuleView,
    path: Seq<Seq<char>>,
    i: int,
    key: Seq<char>,
    d1: TypeDclKindView,
    d2: TypeDclKindView,
)
    ensures
        spec_insert_type(spec_insert_type(m, path, i, key, d1), path, i, key, d2)
            == spec_insert_type(m, path, i, key, d1),
    decreases path.len() - i,
{
    let m1 = spec_insert_type(m, path, i, key, d1);
    let m2 = spec_insert_type(m1, path, i, key, d2);
    if i < 0 || i >= path.len() {
        if key_index(m.types, key, 0) >= 0 {
        } else {
            lemma_key_index_bounds(m.types, key, 0);
            lemma_key_index_after_push(m.types, key, d1, 0);
            assert(key_index(m1.types, key, 0) == m.types.len());
        }
    } else {
        let name = path[i];
        let j = key_index(m.modules, name, 0);
        lemma_key_index_bounds(m.modules, name, 0);
        if j >= 0 {
            let sub = m.modules[j].1;
            let x1 = spec_insert_type(sub, path, i + 1, key, d1);
            lemma_key_index_update_value(m.modules, j, x1, name, 0);
            assert(key_index(m1.modules, name, 0) == j);
            lemma_first_definition_wins_type(sub, path, i + 1, key, d1, d2);
            assert(m1.modules[j] == (m.modules[j].0, x1));
            assert(m2.modules =~= m1.modules.update(j, (m1.modules[j].0, x1)));
            assert(m2.modules =~= m1.modules);
            assert(m2 =~~= m1);
        } else {
            let fresh = fresh_module(name, (i + 1) as nat);
            let x1 = spec_insert_type(fresh, path, i + 1, key, d1);
            assert(x1.id == fresh.id) by {
                lemma_insert_type_id(fresh, path, i + 1, key, d1);
            }
            lemma_key_index_after_push(m.modules, name, x1, 0);
            assert(key_index(m1.modules, name, 0) == m.modules.len());
            lemma_first_definition_wins_type(fresh, path, i + 1, key, d1, d2);
            let j2 = m.modules.len() as int;
            assert(m1.modules[j2] == (name, x1));
            assert(m2.modules =~= m1.modules.update(j2, (m1.modules[j2].0, x1)));
            assert(m2.modules =~= m1.modules);
            assert(m2 =~~= m1);
        }
    }
}

/// Registering a type declaration never changes a module's own name.
proof fn lemma_insert_type_id(
    m: ModuleView,
    path: Seq<Seq<char>>,
    i: int,
    key: Seq<char>,
    dcl: TypeDclKindView,
)
    ensures
        spec_insert_type(m, path, i, key, dcl).id == m.id,
    decreases path.len() - i,
{
}

/// Re-adding a constant under an already-registered identifier in the same
/// scope is a no-op: the model after two additions equals the model after
/// one: the first definition wins silently.
pub proof fn lemma_first_definition_wins_const(
    m: ModuleView,
    path: Seq<Seq<char>>,
    i: int,
    key: Seq<char>,
    d1: ConstDclView,
    d2: ConstDclView,
)
    ensures
        spec_insert_const(spec_insert_const(m, path, i, key, d1), path, i, key, d2)
            == spec_insert_const(m, path, i, key, d1),
    decreases path.len() - i,
{
    let m1 = spec_insert_const(m, path, i, key, d1);
    let m2 = spec_insert_const(m1, path, i, key, d2);
    if i < 0 || i >= path.len() {
        if key_index(m.constants, key, 0) >= 0 {
        } else {
            lemma_key_index_bounds(m.constants, key, 0);
            lemma_key_index_after_push(m.constants, key, d1, 0);
            assert(key_index(m1.constants, key, 0) == m.constants.len());
        }
    } else {
        let name = path[i];
        let j = key_index(m.modules, name, 0);
        lemma_key_index_bounds(m.modules, name, 0);
        if j >= 0 {
            let sub = m.modules[j].1;
            let x1 = spec_insert_const(sub, path, i + 1, key, d1);
            lemma_key_index_update_value(m.modules, j, x1, name, 0);
            assert(key_index(m1.modules, name, 0) == j);
            lemma_first_definition_wins_const(sub, path, i + 1, key, d1, d2);
            assert(m1.modules[j] == (m.modules[j].0, x1));
            assert(m2.modules =~= m1.modules.update(j, (m1.modules[j].0, x1)));
            assert(m2.modules =~= m1.modules);
            assert(m2 =~~= m1);
        } else {
            let fresh = fresh_module(name, (i + 1) as nat);
            let x1 = spec_insert_const(fresh, path, i + 1, key, d1);
            lemma_key_index_after_push(m.modules, name, x1, 0);
            assert(key_index(m1.modules, name, 0) == m.modules.len());
            lemma_first_definition_wins_const(fresh, path, i + 1, key, d1, d2);
            let j2 = m.modules.len() as int;
            assert(m1.modules[j2] == (name, x1));
            assert(m2.modules =~= m1.modules.update(j2, (m1.modules[j2].0, x1)));
            assert(m2.modules =~= m1.modules);
            assert(m2 =~~= m1);
        }
    }
}

/// One declarator binds its member either to the shared type itself or to an
/// array wrapping of exactly that type.
proof fn lemma_declarator_member_type(n: NodeView, t: TypeSpecView)
    ensures
        spec_read_declarator_member(n, t) matches Result::Ok(mem) ==> (mem.type_spec == t || (
        mem.type_spec matches TypeSpecView::ArrayType(e, _) && *e == t)),
{
}

/// A multi-declarator member line expands to one member per declarator, and
/// every member's resolved type is the one shared type of the line: bound
/// directly, or as the element type of an array wrapping.
pub proof fn lemma_multi_declarators_share_type(cs: Seq<NodeView>, i: int, t: TypeSpecView)
    requires
        0 <= i <= cs.len(),
    ensures
        spec_read_member_declarators(cs, i, t) matches Result::Ok(ms) ==> ms.len() == cs.len() - i
            && forall|k: int|
            0 <= k < ms.len() ==> ((#[trigger] ms[k].type_spec) == t || (ms[k].type_spec
                matches TypeSpecView::ArrayType(e, _) && *e == t)),
    decreases cs.len() - i,
{
    if i >= cs.len() {
    } else {
        lemma_declarator_member_type(cs[i], t);
        lemma_multi_declarators_share_type(cs, i + 1, t);
        match spec_read_declarator_member(cs[i], t) {
            Result::Ok(mem) => {
                match spec_read_member_declarators(cs, i + 1, t) {
                    Result::Ok(rest) => {
                        let ms = seq![mem] + rest;
                        assert forall|k: int| 0 <= k < ms.len() implies ((#[trigger] ms[
                        k].type_spec) == t || (ms[k].type_spec matches TypeSpecView::ArrayType(
                            e,
                            _,
                        ) && *e == t)) by {
                            if k == 0 {
                                assert(ms[0] == mem);
                            } else {
                                assert(ms[k] == rest[k - 1]);
                            }
                        }
                    },
                    Result::Err(_) => {
                    },
                }
            },
            Result::Err(_) => {
            },
        }
    }
}

/// Array dimensions are read in source order, outermost first: the dimension
/// list has one entry per bracketed size, and the entry at position `k` is
/// the resolved size expression of the `k`-th bracket.
pub proof fn lemma_array_dimension_order(cs: Seq<NodeView>, i: int)
    requires
        0 <= i <= cs.len(),
    ensures
        spec_read_dims(cs, i) matches Result::Ok(dims) ==> dims.len() == cs.len() - i && forall|
            k: int,
        |
            0 <= k < dims.len() ==> spec_read_const_expr(
                cs[i + k].children[0],
            ) == Result::<ValueExprView, ErrorView>::Ok(#[trigger] dims[k]),
    decreases cs.len() - i,
{
    if i >= cs.len() {
    } else if cs[i].children.len() == 0 {
    } else {
        lemma_array_dimension_order(cs, i + 1);
        match spec_read_const_expr(cs[i].children[0]) {
            Result::Ok(d) => {
                match spec_read_dims(cs, i + 1) {
                    Result::Ok(rest) => {
                        let dims = seq![d] + rest;
                        assert forall|k: int| 0 <= k < dims.len() implies spec_read_const_expr(
                            cs[i + k].children[0],
                        ) == Result::<ValueExprView, ErrorView>::Ok(#[trigger] dims[k]) by {
                            if k == 0 {
                                assert(dims[0] == d);
                            } else {
                                assert(dims[k] == rest[k - 1]);
                            }
                        }
                    },
                    Result::Err(_) => {
                    },
                }
            },
            Result::Err(_) => {
            },
        }
    }
}

// ----------------------------------------------------------------------
// Totality: the walk succeeds on every well-shaped tree
// ----------------------------------------------------------------------
proof fn lemma_name_parts_total(cs: Seq<NodeView>, i: int)
    requires
        forall|k: int| 0 <= k < cs.len() ==> (#[trigger] cs[k]).tag == RuleTag::Identifier,
    ensures
        spec_name_parts(cs, i) is Ok,
    decreases cs.len() - i,
{
    if i < 0 || i >= cs.len() {
    } else {
        lemma_name_parts_total(cs, i + 1);
    }
}

proof fn lemma_scoped_name_total(n: NodeView)
    requires
        name_node_wf(n),
    ensures
        spec_read_scoped_name(n) is Ok,
{
    lemma_name_parts_total(n.children, 0);
}

proof fn lemma_float_parts_total(
    cs: Seq<NodeView>,
    i: int,
    acc: (Option<Seq<char>>, Option<Seq<char>>, Option<Seq<char>>, Option<Seq<char>>),
)
    requires
        float_parts_nodes_wf(cs),
    ensures
        spec_float_parts(cs, i, acc) is Ok,
    decreases cs.len() - i,
{
    if i < 0 || i >= cs.len() {
    } else {
        let c = cs[i];
        if c.tag == RuleTag::IntegralPart {
            lemma_float_parts_total(cs, i + 1, (Option::Some(c.text), acc.1, acc.2, acc.3));
        } else if c.tag == RuleTag::FractionalPart {
            lemma_float_parts_total(cs, i + 1, (acc.0, Option::Some(c.text), acc.2, acc.3));
        } else if c.tag == RuleTag::Exponent {
            lemma_float_parts_total(cs, i + 1, (acc.0, acc.1, Option::Some(c.text), acc.3));
        } else {
            lemma_float_parts_total(cs, i + 1, (acc.0, acc.1, acc.2, Option::Some(c.text)));
        }
    }
}

/// Resolution of a well-shaped constant expression always succeeds.
pub proof fn lemma_read_const_expr_total(n: NodeView)
    requires
        expr_node_wf(n),
    ensures
        spec_read_const_expr(n) is Ok,
    decreases n, 1int,
{
    match n.tag {
        RuleTag::ConstExpr => {
            lemma_read_const_expr_total(n.children[0]);
            if n.children.len() == 2 {
                lemma_read_const_expr_total(n.children[1]);
            }
        },
        RuleTag::UnaryExpr => {
            if n.children.len() == 1 {
                lemma_read_const_expr_total(n.children[0]);
            } else {
                lemma_read_const_expr_total(n.children[1]);
            }
        },
        RuleTag::PrimaryExpr => {
            let c = n.children[0];
            if c.tag == RuleTag::ScopedName {
                lemma_scoped_name_total(c);
            } else {
                lemma_read_const_expr_total(c);
            }
        },
        RuleTag::OrExpr => lemma_binary_rest_total(n, BinaryOp::Or),
        RuleTag::XorExpr => lemma_binary_rest_total(n, BinaryOp::Xor),
        RuleTag::AndExpr => lemma_binary_rest_total(n, BinaryOp::And),
        RuleTag::LShiftExpr => lemma_binary_rest_total(n, BinaryOp::LShift),
        RuleTag::RShiftExpr => lemma_binary_rest_total(n, BinaryOp::RShift),
        RuleTag::AddExpr => lemma_binary_rest_total(n, BinaryOp::Add),
        RuleTag::SubExpr => lemma_binary_rest_total(n, BinaryOp::Sub),
        RuleTag::MulExpr => lemma_binary_rest_total(n, BinaryOp::Mul),
        RuleTag::DivExpr => lemma_binary_rest_total(n, BinaryOp::Div),
        RuleTag::ModExpr => lemma_binary_rest_total(n, BinaryOp::Mod),
        RuleTag::Literal => {
            lemma_read_const_expr_total(n.children[0]);
        },
        RuleTag::FloatingPtLiteral => {
            lemma_float_parts_total(
                n.children,
                0,
                (Option::None, Option::None, Option::None, Option::None),
            );
        },
        _ => {
        },
    }
}

proof fn lemma_binary_rest_total(n: NodeView, op: BinaryOp)
    requires
        binary_node_wf(n),
    ensures
        spec_binary_rest(n, op) is Ok,
    decreases n, 0int,
{
    lemma_read_const_expr_total(n.children[0]);
}

/// Resolution of a well-shaped type specification always succeeds.
pub proof fn lemma_read_type_spec_total(n: NodeView)
    requires
        type_node_wf(n),
    ensures
        spec_read_type_spec(n) is Ok,
    decreases n,
{
    match n.tag {
        RuleTag::StringType => {
            if n.children.len() >= 1 {
                lemma_read_const_expr_total(n.children[0]);
            }
        },
        RuleTag::WideStringType => {
            if n.children.len() >= 1 {
                lemma_read_const_expr_total(n.children[0]);
            }
        },
        RuleTag::SequenceType => {
            lemma_read_type_spec_total(n.children[0]);
            if n.children.len() >= 2 {
                lemma_read_const_expr_total(n.children[1]);
            }
        },
        RuleTag::ScopedName => {
            lemma_scoped_name_total(n);
        },
        _ => {
        },
    }
}

proof fn lemma_read_dims_total(cs: Seq<NodeView>, i: int)
    requires
        forall|k: int| 1 <= k < cs.len() ==> fixed_size_node_wf(#[trigger] cs[k]),
        i >= 1,
    ensures
        spec_read_dims(cs, i) is Ok,
    decreases cs.len() - i,
{
    if i >= cs.len() {
    } else {
        lemma_read_const_expr_total(cs[i].children[0]);
        lemma_read_dims_total(cs, i + 1);
    }
}

proof fn lemma_declarator_member_total(n: NodeView, t: TypeSpecView)
    requires
        declarator_node_wf(n),
    ensures
        spec_read_declarator_member(n, t) is Ok,
{
    let d = n.children[0];
    if d.tag == RuleTag::ArrayDeclarator {
        lemma_read_dims_total(d.children, 1);
    }
}

proof fn lemma_member_declarators_total(cs: Seq<NodeView>, i: int, t: TypeSpecView)
    requires
        forall|k: int| 0 <= k < cs.len() ==> declarator_node_wf(#[trigger] cs[k]),
    ensures
        spec_read_member_declarators(cs, i, t) is Ok,
    decreases cs.len() - i,
{
    if i < 0 || i >= cs.len() {
    } else {
        lemma_declarator_member_total(cs[i], t);
        lemma_member_declarators_total(cs, i + 1, t);
    }
}

proof fn lemma_read_member_total(n: NodeView)
    requires
        member_node_wf(n),
    ensures
        spec_read_member(n) is Ok,
{
    lemma_read_type_spec_total(n.children[0]);
    match spec_read_type_spec(n.children[0]) {
        Result::Ok(t) => {
            lemma_member_declarators_total(n.children[1].children, 0, t);
        },
        Result::Err(_) => {
        },
    }
}

proof fn lemma_struct_members_total(cs: Seq<NodeView>, i: int)
    requires
        forall|k: int| 1 <= k < cs.len() ==> member_node_wf(#[trigger] cs[k]),
        i >= 1,
    ensures
        spec_struct_members(cs, i) is Ok,
    decreases cs.len() - i,
{
    if i >= cs.len() {
    } else {
        lemma_read_member_total(cs[i]);
        lemma_struct_members_total(cs, i + 1);
    }
}

proof fn lemma_process_declarators_total(
    m: ModuleView,
    scope: Seq<Seq<char>>,
    t: TypeSpecView,
    cs: Seq<NodeView>,
    i: int,
)
    requires
        forall|k: int| 0 <= k < cs.len() ==> declarator_node_wf(#[trigger] cs[k]),
    ensures
        spec_process_declarators(m, scope, t, cs, i) is Ok,
    decreases cs.len() - i,
{
    if i < 0 || i >= cs.len() {
    } else {
        let d = cs[i].children[0];
        if d.tag == RuleTag::ArrayDeclarator {
            lemma_read_dims_total(d.children, 1);
        }
        match spec_process_declarator(m, scope, t, cs[i]) {
            Result::Ok(m2) => {
                lemma_process_declarators_total(m2, scope, t, cs, i + 1);
            },
            Result::Err(_) => {
                assert(false);
            },
        }
    }
}

/// The semantic walk succeeds on every well-shaped node: the parser's output
/// is never rejected by the pass.
pub proof fn lemma_process_total(m: ModuleView, scope: Seq<Seq<char>>, n: NodeView)
    requires
        node_wf(n),
    ensures
        spec_process(m, scope, n) is Ok,
    decreases n, 1int,
{
    match n.tag {
        RuleTag::ModuleDcl => {
            let scope2 = scope.push(n.children[0].text);
            lemma_process_seq_total(spec_ensure_path(m, scope2, 0), scope2, n.children, 1);
        },
        RuleTag::StructDef => {
            lemma_struct_members_total(n.children, 1);
        },
        RuleTag::TypeDeclarator => {
            lemma_read_type_spec_total(n.children[0]);
            match spec_read_type_spec(n.children[0]) {
                Result::Ok(t) => {
                    lemma_process_declarators_total(m, scope, t, n.children[1].children, 0);
                },
                Result::Err(_) => {
                },
            }
        },
        RuleTag::ConstDcl => {
            lemma_read_type_spec_total(n.children[0]);
            lemma_read_const_expr_total(n.children[2]);
        },
        _ => {
            lemma_process_seq_total(m, scope, n.children, 0);
        },
    }
}

/// The walk over a run of well-shaped siblings succeeds.
pub proof fn lemma_process_seq_total(
    m: ModuleView,
    scope: Seq<Seq<char>>,
    cs: Seq<NodeView>,
    i: int,
)
    requires
        children_wf(cs, i),
    ensures
        spec_process_seq(m, scope, cs, i) is Ok,
    decreases cs, cs.len() - i,
{
    if i < 0 || i >= cs.len() {
    } else {
        lemma_process_total(m, scope, cs[i]);
        match spec_process(m, scope, cs[i]) {
            Result::Ok(m2) => {
                lemma_process_seq_total(m2, scope, cs, i + 1);
            },
            Result::Err(_) => {
            },
        }
    }
}
} // verus!
