//! Recursive-descent parser: turns the token stream into the generic parse
//! tree the semantic pass walks. It covers the declaration subset this
//! translator handles: modules, structs, unions (recognized, not lowered),
//! typedefs and constants, with the full constant-expression operator chain;
//! anything else is a syntax error with its location.
use vstd::prelude::*;

use crate::IdlError;
use crate::lexer::{
    Token, TokenKind, TokenKindView, TokenView, spec_syntax_error, spec_tokenize, syntax_error_at,
    tokenize, tokens_view,
};
use crate::tree::{
    NodeView, ParseNode, RuleTag, binary_node_wf, declarator_node_wf, expr_node_wf, fixed_size_node_wf, member_node_wf,
    name_node_wf, node_view, node_wf, str_eq, type_node_wf,
};

verus! {

use vstd::string::StringExecFns;

broadcast use crate::tree::lemma_nodes_view_len, crate::tree::lemma_nodes_view_index;

/// Whether the token is the identifier spelled `kw`.
fn tok_is_kw(t: &Token, kw: &str) -> (r: bool)
    ensures
        r == spec_is_kw(t@, kw@),
{
    match &t.kind {
        TokenKind::Ident => str_eq(t.text.as_str(), kw),
        _ => false,
    }
}

/// The position reported for an error at token `i`.
fn err_pos(toks: &Vec<Token>, i: usize) -> (r: usize)
    ensures
        r as nat == spec_err_pos(tokens_view(toks@), i as int),
{
    if i < toks.len() {
        toks[i].pos
    } else {
        0
    }
}

/// The IDL parser: its one entry point turns source text into the parse
/// tree of a whole compilation unit.
pub struct IdlParser;

/// The view of a compilation-unit parsing result.
pub open spec fn unit_res(r: Result<Vec<ParseNode>, IdlError>) -> Result<
    Seq<NodeView>,
    crate::ErrorView,
> {
    match r {
        Result::Ok(ns) => Result::Ok(crate::tree::nodes_view(ns@)),
        Result::Err(e) => Result::Err(e@),
    }
}

impl IdlParser {
    /// Parses a whole compilation unit: a sequence of definitions, each
    /// followed by a semicolon, spanning every token of the input text. The
    /// result is exactly the spec-level parse of the text, and every node of
    /// the resulting tree is well-shaped, so the semantic pass accepts it.
    pub fn parse(input: &str) -> (r: Result<Vec<ParseNode>, IdlError>)
        ensures
            r matches Ok(ns) ==> forall|k: int|
                0 <= k < ns@.len() ==> node_wf(node_view(#[trigger] ns@[k])),
            unit_res(r) == spec_parse_specification(input@),
    {
        parse_specification(input)
    }
}

/// Parses a whole compilation unit: a sequence of definitions, each followed
/// by a semicolon, spanning every token of the input text. The result is
/// exactly the spec-level parse of the text, and every node of the resulting
/// tree is well-shaped, so the semantic pass accepts it.
pub fn parse_specification(input: &str) -> (r: Result<Vec<ParseNode>, IdlError>)
    ensures
        r matches Ok(ns) ==> forall|k: int|
            0 <= k < ns@.len() ==> node_wf(node_view(#[trigger] ns@[k])),
        unit_res(r) == spec_parse_specification(input@),
{
    let toks = tokenize(input)?;
    let mut defs: Vec<ParseNode> = Vec::new();
    proof {
        assert(crate::tree::nodes_view(defs@) =~= Seq::<NodeView>::empty());
    }
    parse_unit_from(&toks, 0, &mut defs)?;
    Ok(defs)
}

/// Parses the definitions of a whole compilation unit from `i` on, appending
/// them to the gathered list.
fn parse_unit_from(toks: &Vec<Token>, i: usize, defs: &mut Vec<ParseNode>) -> (r: Result<
    (),
    IdlError,
>)
    requires
        forall|k: int| 0 <= k < old(defs)@.len() ==> node_wf(node_view(#[trigger] old(defs)@[k])),
    ensures
        forall|k: int|
            0 <= k < final(defs)@.len() ==> node_wf(node_view(#[trigger] final(defs)@[k])),
        ({
            let s = spec_parse_unit_from(
                tokens_view(toks@),
                i as int,
                crate::tree::nodes_view(old(defs)@),
            );
            match r {
                Result::Ok(_) => s == Result::<
                    Seq<NodeView>,
                    crate::ErrorView,
                >::Ok(crate::tree::nodes_view(final(defs)@)),
                Result::Err(e) => s == Result::<Seq<NodeView>, crate::ErrorView>::Err(e@),
            }
        }),
    decreases toks@.len() - i, 16int,
{
    let n = toks.len();
    if i >= n {
        return Ok(());
    }
    let ghost pre = crate::tree::nodes_view(defs@);
    let r = parse_definition(toks, i)?;
    let (node, j) = r;
    if j <= i || j > toks.len() {
        return Err(IdlError::InternalError);
    }
    let ghost dv = node@;
    defs.push(node);
    proof {
        assert(crate::tree::nodes_view(defs@) =~= pre.push(dv));
    }
    parse_unit_from(toks, j, defs)
}

/// Parses one definition and its terminating semicolon: a module, struct,
/// union, typedef or constant declaration.
#[verifier::rlimit(80)]
fn parse_definition(toks: &Vec<Token>, i: usize) -> (r: Result<(ParseNode, usize), IdlError>)
    requires
        i < toks@.len(),
    ensures
        r matches Ok(t) ==> i < t.1 <= toks@.len() && node_wf(t.0@),
        ppair_res(r) == spec_parse_definition(tokens_view(toks@), i as int),
    decreases toks@.len() - i, 14int,
{
    let ghost tv = tokens_view(toks@);
    proof {
        assert(tv[i as int] == toks@[i as int]@);
    }
    let t = &toks[i];
    let r = if tok_is_kw(t, "module") {
        parse_module_dcl(toks, i)?
    } else if tok_is_kw(t, "struct") {
        parse_struct_def(toks, i)?
    } else if tok_is_kw(t, "union") {
        parse_union_def(toks, i)?
    } else if tok_is_kw(t, "typedef") {
        parse_type_declarator(toks, i)?
    } else if tok_is_kw(t, "const") {
        parse_const_dcl(toks, i)?
    } else {
        return Err(syntax_error_at("expected a declaration", err_pos(toks, i)));
    };
    let (node, j) = r;
    proof {
        if j < toks.len() {
            assert(tv[j as int] == toks@[j as int]@);
        }
    }
    if j < toks.len() && matches!(&toks[j].kind, TokenKind::Semi) {
        Ok((node, j + 1))
    } else {
        Err(syntax_error_at("expected ';'", err_pos(toks, j)))
    }
}

/// Parses an identifier token into an identifier leaf.
fn parse_identifier(toks: &Vec<Token>, i: usize) -> (r: Result<(ParseNode, usize), IdlError>)
    ensures
        r matches Ok(t) ==> i < t.1 <= toks@.len() && t.0@.tag == RuleTag::Identifier && node_wf(
            t.0@,
        ),
        ppair_res(r) == spec_parse_identifier(tokens_view(toks@), i as int),
{
    let ghost tv = tokens_view(toks@);
    if i < toks.len() && matches!(&toks[i].kind, TokenKind::Ident) {
        let node = ParseNode::leaf(RuleTag::Identifier, toks[i].text.clone());
        proof {
            assert(node_wf(node@));
            assert(tv[i as int] == toks@[i as int]@);
            assert(node@ =~~= spec_ident_leaf(tv[i as int].text));
        }
        Ok((node, i + 1))
    } else {
        proof {
            if i < toks.len() {
                assert(tv[i as int] == toks@[i as int]@);
            }
        }
        Err(syntax_error_at("expected an identifier", err_pos(toks, i)))
    }
}

/// Parses `module <name> { definition* }`.
#[verifier::rlimit(80)]
fn parse_module_dcl(toks: &Vec<Token>, i: usize) -> (r: Result<(ParseNode, usize), IdlError>)
    requires
        i < toks@.len(),
    ensures
        r matches Ok(t) ==> i < t.1 <= toks@.len() && node_wf(t.0@),
        ppair_res(r) == spec_parse_module_dcl(tokens_view(toks@), i as int),
    decreases toks@.len() - i, 12int,
{
    let ghost tv = tokens_view(toks@);
    let n = toks.len();
    let r = parse_identifier(toks, i + 1)?;
    let (id_node, j) = r;
    proof {
        if j < n {
            assert(tv[j as int] == toks@[j as int]@);
        }
    }
    if !(j < n && matches!(&toks[j].kind, TokenKind::LBrace)) {
        return Err(syntax_error_at("expected '{'", err_pos(toks, j)));
    }
    if j <= i {
        return Err(IdlError::InternalError);
    }
    let mut children: Vec<ParseNode> = Vec::new();
    let ghost idv = id_node@;
    children.push(id_node);
    proof {
        assert(crate::tree::nodes_view(children@) =~= seq![idv]);
    }
    let jend = parse_defs_until(toks, j + 1, &mut children)?;
    proof {
        if jend < n {
            assert(tv[jend as int] == toks@[jend as int]@);
        }
    }
    if !(jend < n && matches!(&toks[jend].kind, TokenKind::RBrace)) {
        return Err(syntax_error_at("expected '}'", err_pos(toks, jend)));
    }
    let ghost final_children = crate::tree::nodes_view(children@);
    let node = ParseNode::node(RuleTag::ModuleDcl, String::new(), children);
    proof {
        assert(crate::tree::children_wf(node@.children, 0));
        assert(crate::tree::children_wf(node@.children, 1));
        assert(node_wf(node@));
        assert(node@.children =~= final_children);
        assert(node@.text =~= Seq::<char>::empty());
        assert(node@ == spec_node(RuleTag::ModuleDcl, Seq::<char>::empty(), final_children)) by {
            assert(node@.children == final_children);
            assert(node@.text == Seq::<char>::empty());
        }
        assert(ppair_res(Result::Ok((node, (jend + 1) as usize))) =~~= spec_parse_module_dcl(
            tv,
            i as int,
        ));
    }
    Ok((node, jend + 1))
}

/// Parses the definitions of a module body up to the closing brace,
/// appending them to the gathered children.
fn parse_defs_until(toks: &Vec<Token>, j: usize, children: &mut Vec<ParseNode>) -> (r: Result<
    usize,
    IdlError,
>)
    requires
        forall|k: int|
            0 <= k < old(children)@.len() ==> node_wf(node_view(#[trigger] old(children)@[k])),
    ensures
        final(children)@.len() >= old(children)@.len(),
        forall|k: int|
            0 <= k < final(children)@.len() ==> node_wf(
                node_view(#[trigger] final(children)@[k]),
            ),
        ({
            let s = spec_parse_defs_until(
                tokens_view(toks@),
                j as int,
                crate::tree::nodes_view(old(children)@),
            );
            match r {
                Result::Ok(jend) => j <= jend && s == Result::<
                    (Seq<NodeView>, int),
                    crate::ErrorView,
                >::Ok((crate::tree::nodes_view(final(children)@), jend as int)),
                Result::Err(e) => s == Result::<
                    (Seq<NodeView>, int),
                    crate::ErrorView,
                >::Err(e@),
            }
        }),
    decreases toks@.len() - j, 15int,
{
    let ghost tv = tokens_view(toks@);
    let n = toks.len();
    proof {
        if j < n {
            assert(tv[j as int] == toks@[j as int]@);
        }
    }
    if !(j < n) || matches!(&toks[j].kind, TokenKind::RBrace) {
        return Ok(j);
    }
    let ghost pre = crate::tree::nodes_view(children@);
    let r2 = parse_definition(toks, j)?;
    let (node, j2) = r2;
    if j2 <= j || j2 > toks.len() {
        return Err(IdlError::InternalError);
    }
    let ghost dv = node@;
    children.push(node);
    proof {
        assert(crate::tree::nodes_view(children@) =~= pre.push(dv));
    }
    parse_defs_until(toks, j2, children)
}

/// Parses `struct <name> { member* }`.
#[verifier::rlimit(80)]
fn parse_struct_def(toks: &Vec<Token>, i: usize) -> (r: Result<(ParseNode, usize), IdlError>)
    requires
        i < toks@.len(),
    ensures
        r matches Ok(t) ==> i < t.1 <= toks@.len() && node_wf(t.0@),
        ppair_res(r) == spec_parse_struct_def(tokens_view(toks@), i as int),
    decreases toks@.len() - i, 12int,
{
    let ghost tv = tokens_view(toks@);
    let n = toks.len();
    let r = parse_identifier(toks, i + 1)?;
    let (id_node, j) = r;
    proof {
        if j < n {
            assert(tv[j as int] == toks@[j as int]@);
        }
    }
    if !(j < n && matches!(&toks[j].kind, TokenKind::LBrace)) {
        return Err(syntax_error_at("expected '{'", err_pos(toks, j)));
    }
    if j <= i {
        return Err(IdlError::InternalError);
    }
    let mut children: Vec<ParseNode> = Vec::new();
    let ghost idv = id_node@;
    children.push(id_node);
    proof {
        assert(crate::tree::nodes_view(children@) =~= seq![idv]);
    }
    let jend = parse_members_until(toks, j + 1, &mut children)?;
    proof {
        if jend < n {
            assert(tv[jend as int] == toks@[jend as int]@);
        }
    }
    if !(jend < n && matches!(&toks[jend].kind, TokenKind::RBrace)) {
        return Err(syntax_error_at("expected '}'", err_pos(toks, jend)));
    }
    let ghost final_children = crate::tree::nodes_view(children@);
    let node = ParseNode::node(RuleTag::StructDef, String::new(), children);
    proof {
        assert forall|k: int| 1 <= k < node@.children.len() implies member_node_wf(
            #[trigger] node@.children[k],
        ) by {
            assert(node@.children[k] == node_view(children@[k]));
        }
        assert(node_wf(node@));
        assert(node@.children =~= final_children);
        assert(node@.text =~= Seq::<char>::empty());
        assert(node@ == spec_node(RuleTag::StructDef, Seq::<char>::empty(), final_children)) by {
            assert(node@.children == final_children);
            assert(node@.text == Seq::<char>::empty());
        }
        assert(ppair_res(Result::Ok((node, (jend + 1) as usize))) =~~= spec_parse_struct_def(
            tv,
            i as int,
        ));
    }
    Ok((node, jend + 1))
}

/// Parses the member lines of a struct body up to the closing brace,
/// appending them to the gathered children.
fn parse_members_until(toks: &Vec<Token>, j: usize, children: &mut Vec<ParseNode>) -> (r: Result<
    usize,
    IdlError,
>)
    requires
        forall|k: int|
            0 <= k < old(children)@.len() ==> node_wf(node_view(#[trigger] old(children)@[k])),
        forall|k: int|
            1 <= k < old(children)@.len() ==> member_node_wf(
                node_view(#[trigger] old(children)@[k]),
            ),
    ensures
        final(children)@.len() >= old(children)@.len(),
        forall|k: int|
            0 <= k < final(children)@.len() ==> node_wf(
                node_view(#[trigger] final(children)@[k]),
            ),
        forall|k: int|
            1 <= k < final(children)@.len() ==> member_node_wf(
                node_view(#[trigger] final(children)@[k]),
            ),
        ({
            let s = spec_parse_members_until(
                tokens_view(toks@),
                j as int,
                crate::tree::nodes_view(old(children)@),
            );
            match r {
                Result::Ok(jend) => j <= jend && s == Result::<
                    (Seq<NodeView>, int),
                    crate::ErrorView,
                >::Ok((crate::tree::nodes_view(final(children)@), jend as int)),
                Result::Err(e) => s == Result::<
                    (Seq<NodeView>, int),
                    crate::ErrorView,
                >::Err(e@),
            }
        }),
    decreases toks@.len() - j, 15int,
{
    let ghost tv = tokens_view(toks@);
    let n = toks.len();
    proof {
        if j < n {
            assert(tv[j as int] == toks@[j as int]@);
        }
    }
    if !(j < n) || matches!(&toks[j].kind, TokenKind::RBrace) {
        return Ok(j);
    }
    let ghost pre = crate::tree::nodes_view(children@);
    let r2 = parse_member(toks, j)?;
    let (node, j2) = r2;
    if j2 <= j || j2 > toks.len() {
        return Err(IdlError::InternalError);
    }
    let ghost mv = node@;
    children.push(node);
    proof {
        assert(crate::tree::nodes_view(children@) =~= pre.push(mv));
    }
    parse_members_until(toks, j2, children)
}

/// Parses one struct member line: a type specification, one or more
/// declarators, and a semicolon.
fn parse_member(toks: &Vec<Token>, i: usize) -> (r: Result<(ParseNode, usize), IdlError>)
    requires
        i < toks@.len(),
    ensures
        r matches Ok(t) ==> i < t.1 <= toks@.len() && member_node_wf(t.0@) && node_wf(t.0@),
        ppair_res(r) == spec_parse_member(tokens_view(toks@), i as int),
    decreases toks@.len() - i, 10int,
{
    let ghost tv = tokens_view(toks@);
    let n = toks.len();
    let r = parse_type_spec(toks, i)?;
    let (ts_node, j) = r;
    if j <= i {
        return Err(IdlError::InternalError);
    }
    let r2 = parse_declarators(toks, j)?;
    let (decls_node, mut k) = r2;
    proof {
        if k < n {
            assert(tv[k as int] == toks@[k as int]@);
        }
    }
    if !(k < n && matches!(&toks[k].kind, TokenKind::Semi)) {
        return Err(syntax_error_at("expected ';'", err_pos(toks, k)));
    }
    k = k + 1;
    let mut children: Vec<ParseNode> = Vec::new();
    let ghost tsv = ts_node@;
    let ghost dsv = decls_node@;
    children.push(ts_node);
    children.push(decls_node);
    let node = ParseNode::node(RuleTag::Member, String::new(), children);
    proof {
        assert(node@.children[0] == node_view(children@[0]));
        assert(node@.children[1] == node_view(children@[1]));
        assert(member_node_wf(node@));
        assert(node_wf(node@));
        assert(node@.children =~= seq![tsv, dsv]);
        assert(node@.text =~= Seq::<char>::empty());
        assert(node@ == spec_node(RuleTag::Member, Seq::<char>::empty(), seq![tsv, dsv])) by {
            assert(node@.children == seq![tsv, dsv]);
            assert(node@.text == Seq::<char>::empty());
        }
        assert(ppair_res(Result::Ok((node, k))) =~~= spec_parse_member(tv, i as int));
    }
    Ok((node, k))
}

/// Parses a comma-separated declarator list.
fn parse_declarators(toks: &Vec<Token>, i: usize) -> (r: Result<(ParseNode, usize), IdlError>)
    ensures
        r matches Ok(t) ==> i < t.1 <= toks@.len() && node_wf(t.0@) && forall|k: int|
            0 <= k < t.0@.children.len() ==> declarator_node_wf(#[trigger] t.0@.children[k]),
        ppair_res(r) == spec_parse_declarators(tokens_view(toks@), i as int),
    decreases toks@.len() - i, 9int,
{
    let ghost tv = tokens_view(toks@);
    let n = toks.len();
    let r = parse_declarator(toks, i)?;
    let (first, mut j) = r;
    if j <= i {
        return Err(IdlError::InternalError);
    }
    let mut children: Vec<ParseNode> = Vec::new();
    let ghost firstv = first@;
    children.push(first);
    let ghost j0: int = j as int;
    proof {
        assert(crate::tree::nodes_view(children@) =~= seq![firstv]);
    }
    while j < n && matches!(&toks[j].kind, TokenKind::Comma)
        invariant
            i < j <= n,
            n == toks@.len(),
            tv == tokens_view(toks@),
            forall|k: int|
                0 <= k < children@.len() ==> {
                    let cv = node_view(#[trigger] children@[k]);
                    declarator_node_wf(cv) && node_wf(cv)
                },
            spec_parse_declarators_rest(tv, j as int, crate::tree::nodes_view(children@))
                == spec_parse_declarators_rest(tv, j0, seq![firstv]),
            spec_parse_declarators(tv, i as int) == (match spec_parse_declarators_rest(
                tv,
                j0,
                seq![firstv],
            ) {
                Result::Ok(dp) => Result::<(NodeView, int), crate::ErrorView>::Ok(
                    (spec_node(RuleTag::Declarators, Seq::<char>::empty(), dp.0), dp.1),
                ),
                Result::Err(e) => Result::Err(e),
            }),
        decreases n - j,
    {
        proof {
            assert(tv[j as int] == toks@[j as int]@);
        }
        let ghost pre = crate::tree::nodes_view(children@);
        let r2 = parse_declarator(toks, j + 1)?;
        let (node, j2) = r2;
        if j2 <= j || j2 > toks.len() {
            return Err(IdlError::InternalError);
        }
        let ghost dv = node@;
        children.push(node);
        proof {
            assert(crate::tree::nodes_view(children@) =~= pre.push(dv));
        }
        j = j2;
    }
    proof {
        if j < n {
            assert(tv[j as int] == toks@[j as int]@);
        }
        assert(spec_parse_declarators_rest(tv, j as int, crate::tree::nodes_view(children@)) == Result::<
            (Seq<NodeView>, int),
            crate::ErrorView,
        >::Ok((crate::tree::nodes_view(children@), j as int)));
    }
    let ghost final_children = crate::tree::nodes_view(children@);
    let node = ParseNode::node(RuleTag::Declarators, String::new(), children);
    proof {
        assert forall|k: int| 0 <= k < node@.children.len() implies declarator_node_wf(
            #[trigger] node@.children[k],
        ) by {
            assert(node@.children[k] == node_view(children@[k]));
        }
        assert(node_wf(node@));
        assert(node@.children =~= final_children);
        assert(node@.text =~= Seq::<char>::empty());
        assert(node@ == spec_node(RuleTag::Declarators, Seq::<char>::empty(), final_children)) by {
            assert(node@.children == final_children);
            assert(node@.text == Seq::<char>::empty());
        }
        assert(ppair_res(Result::Ok((node, j))) =~~= spec_parse_declarators(tv, i as int));
    }
    Ok((node, j))
}

/// Parses one declarator: an identifier, optionally followed by one or more
/// bracketed fixed-array sizes, outermost first.
#[verifier::rlimit(80)]
fn parse_declarator(toks: &Vec<Token>, i: usize) -> (r: Result<(ParseNode, usize), IdlError>)
    ensures
        r matches Ok(t) ==> i < t.1 <= toks@.len() && declarator_node_wf(t.0@) && node_wf(t.0@),
        ppair_res(r) == spec_parse_declarator(tokens_view(toks@), i as int),
    decreases toks@.len() - i, 7int,
{
    let ghost tv = tokens_view(toks@);
    let n = toks.len();
    let r = parse_identifier(toks, i)?;
    let (id_node, mut j) = r;
    if j <= i {
        return Err(IdlError::InternalError);
    }
    proof {
        if j < n {
            assert(tv[j as int] == toks@[j as int]@);
        }
    }
    if j < n && matches!(&toks[j].kind, TokenKind::LBracket) {
        let mut inner: Vec<ParseNode> = Vec::new();
        let ghost idv = id_node@;
        inner.push(id_node);
        let ghost j0: int = j as int;
        proof {
            assert(crate::tree::nodes_view(inner@) =~= seq![idv]);
        }
        while j < n && matches!(&toks[j].kind, TokenKind::LBracket)
            invariant
                i < j <= n,
                n == toks@.len(),
                tv == tokens_view(toks@),
                inner@.len() >= 1,
                node_view(inner@[0]).tag == RuleTag::Identifier,
                forall|k: int|
                    0 <= k < inner@.len() ==> node_wf(node_view(#[trigger] inner@[k])),
                forall|k: int|
                    1 <= k < inner@.len() ==> fixed_size_node_wf(node_view(#[trigger] inner@[k])),
                spec_parse_brackets(tv, j as int, crate::tree::nodes_view(inner@))
                    == spec_parse_brackets(tv, j0, seq![idv]),
                spec_parse_declarator(tv, i as int) == (match spec_parse_brackets(
                    tv,
                    j0,
                    seq![idv],
                ) {
                    Result::Ok(bp) => Result::<(NodeView, int), crate::ErrorView>::Ok(
                        (
                            spec_node(
                                RuleTag::Declarator,
                                Seq::<char>::empty(),
                                seq![
                                    spec_node(
                                        RuleTag::ArrayDeclarator,
                                        Seq::<char>::empty(),
                                        bp.0,
                                    ),
                                ],
                            ),
                            bp.1,
                        ),
                    ),
                    Result::Err(e) => Result::Err(e),
                }),
            decreases n - j,
        {
            proof {
                assert(tv[j as int] == toks@[j as int]@);
            }
            let r2 = parse_const_expr(toks, j + 1)?;
            let (size_node, j2) = r2;
            proof {
                if j2 < n {
                    assert(tv[j2 as int] == toks@[j2 as int]@);
                }
            }
            if !(j2 < n && matches!(&toks[j2].kind, TokenKind::RBracket)) {
                return Err(syntax_error_at("expected ']'", err_pos(toks, j2)));
            }
            if j2 <= j {
                return Err(IdlError::InternalError);
            }
            let mut fas_children: Vec<ParseNode> = Vec::new();
            let ghost sv = size_node@;
            fas_children.push(size_node);
            let fas = ParseNode::node(RuleTag::FixedArraySize, String::new(), fas_children);
            proof {
                assert(fas@.children[0] == node_view(fas_children@[0]));
                assert(fixed_size_node_wf(fas@));
                assert(node_wf(fas@));
                assert(fas@.children =~= seq![sv]);
                assert(fas@.text =~= Seq::<char>::empty());
                assert(fas@ == spec_node(RuleTag::FixedArraySize, Seq::<char>::empty(), seq![sv]))
                    by {
                    assert(fas@.children == seq![sv]);
                    assert(fas@.text == Seq::<char>::empty());
                }
            }
            let ghost pre = crate::tree::nodes_view(inner@);
            let ghost fv = fas@;
            inner.push(fas);
            proof {
                assert(crate::tree::nodes_view(inner@) =~= pre.push(fv));
            }
            j = j2 + 1;
        }
        proof {
            if j < n {
                assert(tv[j as int] == toks@[j as int]@);
            }
            assert(spec_parse_brackets(tv, j as int, crate::tree::nodes_view(inner@)) == Result::<
                (Seq<NodeView>, int),
                crate::ErrorView,
            >::Ok((crate::tree::nodes_view(inner@), j as int)));
        }
        let ghost innerv = crate::tree::nodes_view(inner@);
        let arr = ParseNode::node(RuleTag::ArrayDeclarator, String::new(), inner);
        proof {
            assert forall|k: int| 0 <= k < arr@.children.len() implies #[trigger] arr@.children[k]
                == node_view(inner@[k]) by {}
            assert(arr@.children[0].tag == RuleTag::Identifier);
            assert forall|k: int| 1 <= k < arr@.children.len() implies fixed_size_node_wf(
                #[trigger] arr@.children[k],
            ) by {
                assert(arr@.children[k] == node_view(inner@[k]));
            }
            assert(node_wf(arr@));
            assert(arr@.children =~= innerv);
            assert(arr@.text =~= Seq::<char>::empty());
            assert(arr@ == spec_node(RuleTag::ArrayDeclarator, Seq::<char>::empty(), innerv)) by {
                assert(arr@.children == innerv);
                assert(arr@.text == Seq::<char>::empty());
            }
        }
        let mut wrap: Vec<ParseNode> = Vec::new();
        let ghost arrv = arr@;
        wrap.push(arr);
        let node = ParseNode::node(RuleTag::Declarator, String::new(), wrap);
        proof {
            assert(node@.children[0] == node_view(wrap@[0]));
            assert(declarator_node_wf(node@));
            assert(node_wf(node@));
            assert(node@.children =~= seq![arrv]);
            assert(node@.text =~= Seq::<char>::empty());
            assert(node@ == spec_node(RuleTag::Declarator, Seq::<char>::empty(), seq![arrv])) by {
                assert(node@.children == seq![arrv]);
                assert(node@.text == Seq::<char>::empty());
            }
            assert(ppair_res(Result::Ok((node, j))) =~~= spec_parse_declarator(tv, i as int));
        }
        Ok((node, j))
    } else {
        let mut inner: Vec<ParseNode> = Vec::new();
        let ghost idv = id_node@;
        inner.push(id_node);
        let simple = ParseNode::node(RuleTag::SimpleDeclarator, String::new(), inner);
        proof {
            assert(simple@.children[0] == node_view(inner@[0]));
            assert(node_wf(simple@));
            assert(simple@.children =~= seq![idv]);
            assert(simple@.text =~= Seq::<char>::empty());
            assert(simple@ == spec_node(RuleTag::SimpleDeclarator, Seq::<char>::empty(), seq![idv]))
                by {
                assert(simple@.children == seq![idv]);
                assert(simple@.text == Seq::<char>::empty());
            }
        }
        let mut wrap: Vec<ParseNode> = Vec::new();
        let ghost simplev = simple@;
        wrap.push(simple);
        let node = ParseNode::node(RuleTag::Declarator, String::new(), wrap);
        proof {
            assert(node@.children[0] == node_view(wrap@[0]));
            assert(declarator_node_wf(node@));
            assert(node_wf(node@));
            assert(node@.children =~= seq![simplev]);
            assert(node@.text =~= Seq::<char>::empty());
            assert(node@ == spec_node(RuleTag::Declarator, Seq::<char>::empty(), seq![simplev]))
                by {
                assert(node@.children == seq![simplev]);
                assert(node@.text == Seq::<char>::empty());
            }
            assert(ppair_res(Result::Ok((node, j))) =~~= spec_parse_declarator(tv, i as int));
        }
        Ok((node, j))
    }
}

/// Parses `typedef <type> <declarator> (, <declarator>)*`.
fn parse_type_declarator(toks: &Vec<Token>, i: usize) -> (r: Result<(ParseNode, usize), IdlError>)
    requires
        i < toks@.len(),
    ensures
        r matches Ok(t) ==> i < t.1 <= toks@.len() && node_wf(t.0@),
        ppair_res(r) == spec_parse_type_declarator(tokens_view(toks@), i as int),
    decreases toks@.len() - i, 12int,
{
    let ghost tv = tokens_view(toks@);
    let n = toks.len();
    let r = parse_type_spec(toks, i + 1)?;
    let (ts_node, j) = r;
    if j <= i {
        return Err(IdlError::InternalError);
    }
    let r2 = parse_declarators(toks, j)?;
    let (decls_node, k) = r2;
    let mut inner: Vec<ParseNode> = Vec::new();
    let ghost tsv = ts_node@;
    let ghost dsv = decls_node@;
    inner.push(ts_node);
    inner.push(decls_node);
    let node = ParseNode::node(RuleTag::TypeDeclarator, String::new(), inner);
    proof {
        assert(node@.children[0] == node_view(inner@[0]));
        assert(node@.children[1] == node_view(inner@[1]));
        assert(node_wf(node@));
        assert(node@.children =~= seq![tsv, dsv]);
        assert(node@.text =~= Seq::<char>::empty());
        assert(node@ == spec_node(RuleTag::TypeDeclarator, Seq::<char>::empty(), seq![tsv, dsv]))
            by {
            assert(node@.children == seq![tsv, dsv]);
            assert(node@.text == Seq::<char>::empty());
        }
        assert(ppair_res(Result::Ok((node, k))) =~~= spec_parse_type_declarator(tv, i as int));
    }
    Ok((node, k))
}

/// Parses `const <type> <name> = <expression>`.
fn parse_const_dcl(toks: &Vec<Token>, i: usize) -> (r: Result<(ParseNode, usize), IdlError>)
    requires
        i < toks@.len(),
    ensures
        r matches Ok(t) ==> i < t.1 <= toks@.len() && node_wf(t.0@),
        ppair_res(r) == spec_parse_const_dcl(tokens_view(toks@), i as int),
    decreases toks@.len() - i, 12int,
{
    let ghost tv = tokens_view(toks@);
    let n = toks.len();
    let r = parse_type_spec(toks, i + 1)?;
    let (ts_node, j) = r;
    if j <= i {
        return Err(IdlError::InternalError);
    }
    let r2 = parse_identifier(toks, j)?;
    let (id_node, k) = r2;
    proof {
        if k < n {
            assert(tv[k as int] == toks@[k as int]@);
        }
    }
    if !(k < n && matches!(&toks[k].kind, TokenKind::Equals)) {
        return Err(syntax_error_at("expected '='", err_pos(toks, k)));
    }
    if k <= i {
        return Err(IdlError::InternalError);
    }
    let r3 = parse_const_expr(toks, k + 1)?;
    let (e_node, m) = r3;
    let mut children: Vec<ParseNode> = Vec::new();
    let ghost tsv = ts_node@;
    let ghost idv = id_node@;
    let ghost ev = e_node@;
    children.push(ts_node);
    children.push(id_node);
    children.push(e_node);
    let node = ParseNode::node(RuleTag::ConstDcl, String::new(), children);
    proof {
        assert(node@.children[0] == node_view(children@[0]));
        assert(node@.children[1] == node_view(children@[1]));
        assert(node@.children[2] == node_view(children@[2]));
        assert(node_wf(node@));
        assert(node@.children =~= seq![tsv, idv, ev]);
        assert(node@.text =~= Seq::<char>::empty());
        assert(node@ == spec_node(RuleTag::ConstDcl, Seq::<char>::empty(), seq![tsv, idv, ev]))
            by {
            assert(node@.children == seq![tsv, idv, ev]);
            assert(node@.text == Seq::<char>::empty());
        }
        assert(ppair_res(Result::Ok((node, m))) =~~= spec_parse_const_dcl(tv, i as int));
    }
    Ok((node, m))
}

/// Parses `union <name> switch ( <type> ) { case* }`; the union body is
/// recognized syntactically and carried as structurally traversed nodes, not
/// lowered to declarations.
#[verifier::rlimit(80)]
fn parse_union_def(toks: &Vec<Token>, i: usize) -> (r: Result<(ParseNode, usize), IdlError>)
    requires
        i < toks@.len(),
    ensures
        r matches Ok(t) ==> i < t.1 <= toks@.len() && node_wf(t.0@),
        ppair_res(r) == spec_parse_union_def(tokens_view(toks@), i as int),
    decreases toks@.len() - i, 13int,
{
    let ghost tv = tokens_view(toks@);
    let n = toks.len();
    let r = parse_identifier(toks, i + 1)?;
    let (id_node, j) = r;
    proof {
        if j < n {
            assert(tv[j as int] == toks@[j as int]@);
        }
        if j + 1 < n {
            assert(tv[j + 1] == toks@[j + 1]@);
        }
    }
    if !(j < n && tok_is_kw(&toks[j], "switch")) {
        return Err(syntax_error_at("expected 'switch'", err_pos(toks, j)));
    }
    if !(j + 1 < n && matches!(&toks[j + 1].kind, TokenKind::LParen)) {
        return Err(syntax_error_at("expected '('", err_pos(toks, j + 1)));
    }
    if j <= i {
        return Err(IdlError::InternalError);
    }
    let r2 = parse_type_spec(toks, j + 2)?;
    let (disc_node, k) = r2;
    proof {
        if k < n {
            assert(tv[k as int] == toks@[k as int]@);
        }
        if k + 1 < n {
            assert(tv[k + 1] == toks@[k + 1]@);
        }
    }
    if !(k < n && matches!(&toks[k].kind, TokenKind::RParen)) {
        return Err(syntax_error_at("expected ')'", err_pos(toks, k)));
    }
    if !(k + 1 < n && matches!(&toks[k + 1].kind, TokenKind::LBrace)) {
        return Err(syntax_error_at("expected '{'", err_pos(toks, k + 1)));
    }
    if k <= i {
        return Err(IdlError::InternalError);
    }
    let mut children: Vec<ParseNode> = Vec::new();
    let ghost idv = id_node@;
    let ghost discv = disc_node@;
    children.push(id_node);
    children.push(disc_node);
    proof {
        assert(crate::tree::nodes_view(children@) =~= seq![idv, discv]);
    }
    let kend = parse_cases_until(toks, k + 2, &mut children)?;
    proof {
        if kend < n {
            assert(tv[kend as int] == toks@[kend as int]@);
        }
    }
    if !(kend < n && matches!(&toks[kend].kind, TokenKind::RBrace)) {
        return Err(syntax_error_at("expected '}'", err_pos(toks, kend)));
    }
    let ghost final_children = crate::tree::nodes_view(children@);
    let node = ParseNode::node(RuleTag::UnionDef, String::new(), children);
    proof {
        assert(crate::tree::children_wf(node@.children, 0));
        assert(node_wf(node@));
        assert(node@.children =~= final_children);
        assert(node@.text =~= Seq::<char>::empty());
        assert(node@ == spec_node(RuleTag::UnionDef, Seq::<char>::empty(), final_children)) by {
            assert(node@.children == final_children);
            assert(node@.text == Seq::<char>::empty());
        }
        assert(ppair_res(Result::Ok((node, (kend + 1) as usize))) =~~= spec_parse_union_def(
            tv,
            i as int,
        ));
    }
    Ok((node, kend + 1))
}

/// Parses the cases of a union body up to the closing brace, appending them
/// to the gathered children.
fn parse_cases_until(toks: &Vec<Token>, j: usize, children: &mut Vec<ParseNode>) -> (r: Result<
    usize,
    IdlError,
>)
    requires
        forall|k: int|
            0 <= k < old(children)@.len() ==> node_wf(node_view(#[trigger] old(children)@[k])),
    ensures
        final(children)@.len() >= old(children)@.len(),
        forall|k: int|
            0 <= k < final(children)@.len() ==> node_wf(
                node_view(#[trigger] final(children)@[k]),
            ),
        ({
            let s = spec_parse_cases_until(
                tokens_view(toks@),
                j as int,
                crate::tree::nodes_view(old(children)@),
            );
            match r {
                Result::Ok(jend) => j <= jend && s == Result::<
                    (Seq<NodeView>, int),
                    crate::ErrorView,
                >::Ok((crate::tree::nodes_view(final(children)@), jend as int)),
                Result::Err(e) => s == Result::<
                    (Seq<NodeView>, int),
                    crate::ErrorView,
                >::Err(e@),
            }
        }),
    decreases toks@.len() - j, 15int,
{
    let ghost tv = tokens_view(toks@);
    let n = toks.len();
    proof {
        if j < n {
            assert(tv[j as int] == toks@[j as int]@);
        }
    }
    if !(j < n) || matches!(&toks[j].kind, TokenKind::RBrace) {
        return Ok(j);
    }
    let ghost pre = crate::tree::nodes_view(children@);
    let r2 = parse_switch_case(toks, j)?;
    let (node, j2) = r2;
    if j2 <= j || j2 > toks.len() {
        return Err(IdlError::InternalError);
    }
    let ghost cv = node@;
    children.push(node);
    proof {
        assert(crate::tree::nodes_view(children@) =~= pre.push(cv));
    }
    parse_cases_until(toks, j2, children)
}

/// Parses one union case: its labels, the element type and declarator, and a
/// semicolon; carried as a structurally traversed node.
#[verifier::rlimit(80)]
fn parse_switch_case(toks: &Vec<Token>, i: usize) -> (r: Result<(ParseNode, usize), IdlError>)
    requires
        i < toks@.len(),
    ensures
        r matches Ok(t) ==> i < t.1 <= toks@.len() && node_wf(t.0@),
        ppair_res(r) == spec_parse_switch_case(tokens_view(toks@), i as int),
    decreases toks@.len() - i, 11int,
{
    let ghost tv = tokens_view(toks@);
    let n = toks.len();
    let mut children: Vec<ParseNode> = Vec::new();
    proof {
        assert(crate::tree::nodes_view(children@) =~= Seq::<NodeView>::empty());
    }
    let r0 = parse_case_labels(toks, i, &mut children);
    let lres = match r0 {
        Ok(p) => p,
        Err(e) => {
            return Err(e);
        },
    };
    let (j, saw_label) = lres;
    if !saw_label {
        return Err(syntax_error_at("expected 'case' or 'default'", err_pos(toks, j)));
    }
    if j >= n {
        return Err(syntax_error_at("expected a case element", err_pos(toks, j)));
    }
    if j <= i {
        return Err(IdlError::InternalError);
    }
    let r = parse_type_spec(toks, j)?;
    let (ts_node, k) = r;
    if k <= j {
        return Err(IdlError::InternalError);
    }
    let r2 = parse_declarator(toks, k)?;
    let (decl_node, m) = r2;
    proof {
        if m < n {
            assert(tv[m as int] == toks@[m as int]@);
        }
    }
    if !(m < n && matches!(&toks[m].kind, TokenKind::Semi)) {
        return Err(syntax_error_at("expected ';'", err_pos(toks, m)));
    }
    let ghost labelsv = crate::tree::nodes_view(children@);
    let ghost tsv = ts_node@;
    let ghost dv = decl_node@;
    children.push(ts_node);
    children.push(decl_node);
    let ghost final_children = crate::tree::nodes_view(children@);
    proof {
        assert(final_children =~= labelsv.push(tsv).push(dv));
    }
    let node = ParseNode::node(RuleTag::Other, String::new(), children);
    proof {
        assert(crate::tree::children_wf(node@.children, 0));
        assert(node_wf(node@));
        assert(node@.children =~= final_children);
        assert(node@.text =~= Seq::<char>::empty());
        assert(node@ == spec_node(
            RuleTag::Other,
            Seq::<char>::empty(),
            labelsv.push(tsv).push(dv),
        )) by {
            assert(node@.children == labelsv.push(tsv).push(dv));
            assert(node@.text == Seq::<char>::empty());
        }
        assert(ppair_res(Result::Ok((node, (m + 1) as usize))) =~~= spec_parse_switch_case(
            tv,
            i as int,
        ));
    }
    Ok((node, m + 1))
}

/// Parses the labels of one union case from `j` on, appending the label
/// expressions to the gathered children; reports whether any label was seen.
fn parse_case_labels(toks: &Vec<Token>, j: usize, children: &mut Vec<ParseNode>) -> (r: Result<
    (usize, bool),
    IdlError,
>)
    requires
        forall|k: int|
            0 <= k < old(children)@.len() ==> node_wf(node_view(#[trigger] old(children)@[k])),
    ensures
        forall|k: int|
            0 <= k < final(children)@.len() ==> node_wf(
                node_view(#[trigger] final(children)@[k]),
            ),
        ({
            let s = spec_parse_case_labels(
                tokens_view(toks@),
                j as int,
                crate::tree::nodes_view(old(children)@),
            );
            match r {
                Result::Ok(p) => j <= p.0 && s == Result::<
                    (Seq<NodeView>, int, bool),
                    crate::ErrorView,
                >::Ok((crate::tree::nodes_view(final(children)@), p.0 as int, p.1)),
                Result::Err(e) => s == Result::<
                    (Seq<NodeView>, int, bool),
                    crate::ErrorView,
                >::Err(e@),
            }
        }),
    decreases toks@.len() - j, 6int,
{
    let ghost tv = tokens_view(toks@);
    let n = toks.len();
    proof {
        if j < n {
            assert(tv[j as int] == toks@[j as int]@);
        }
        if j + 1 < n {
            assert(tv[j + 1] == toks@[j + 1]@);
        }
    }
    if !(j < n && (tok_is_kw(&toks[j], "case") || tok_is_kw(&toks[j], "default"))) {
        return Ok((j, false));
    }
    if tok_is_kw(&toks[j], "case") {
        let r = parse_const_expr(toks, j + 1)?;
        let (label_node, j2) = r;
        proof {
            if j2 < n {
                assert(tv[j2 as int] == toks@[j2 as int]@);
            }
        }
        if !(j2 < n && matches!(&toks[j2].kind, TokenKind::Colon)) {
            return Err(syntax_error_at("expected ':'", err_pos(toks, j2)));
        }
        if j2 <= j {
            return Err(IdlError::InternalError);
        }
        let ghost pre = crate::tree::nodes_view(children@);
        let ghost lv = label_node@;
        children.push(label_node);
        proof {
            assert(crate::tree::nodes_view(children@) =~= pre.push(lv));
        }
        let r2 = parse_case_labels(toks, j2 + 1, children)?;
        Ok((r2.0, true))
    } else {
        if !(j + 1 < n && matches!(&toks[j + 1].kind, TokenKind::Colon)) {
            return Err(syntax_error_at("expected ':'", err_pos(toks, j + 1)));
        }
        let r2 = parse_case_labels(toks, j + 2, children)?;
        Ok((r2.0, true))
    }
}

/// Parses a type specification: a primitive keyword, a bounded or unbounded
/// string or sequence, or a scoped-name reference.
#[verifier::rlimit(80)]
fn parse_type_spec(toks: &Vec<Token>, i: usize) -> (r: Result<(ParseNode, usize), IdlError>)
    ensures
        r matches Ok(t) ==> i < t.1 <= toks@.len() && type_node_wf(t.0@) && node_wf(t.0@),
        ppair_res(r) == spec_parse_type_spec(tokens_view(toks@), i as int),
    decreases toks@.len() - i, 5int,
{
    let ghost tv = tokens_view(toks@);
    let n = toks.len();
    if i >= n {
        return Err(syntax_error_at("expected a type", err_pos(toks, i)));
    }
    proof {
        assert(tv[i as int] == toks@[i as int]@);
        if i + 1 < n {
            assert(tv[i + 1] == toks@[i + 1]@);
        }
        if i + 2 < n {
            assert(tv[i + 2] == toks@[i + 2]@);
        }
    }
    let t = &toks[i];
    if tok_is_kw(t, "float") {
        return Ok((ParseNode::leaf(RuleTag::FloatType, String::new()), i + 1));
    }
    if tok_is_kw(t, "double") {
        return Ok((ParseNode::leaf(RuleTag::DoubleType, String::new()), i + 1));
    }
    if tok_is_kw(t, "short") {
        return Ok((ParseNode::leaf(RuleTag::SignedShortInt, String::new()), i + 1));
    }
    if tok_is_kw(t, "long") {
        if i + 1 < n && tok_is_kw(&toks[i + 1], "double") {
            return Ok((ParseNode::leaf(RuleTag::LongDoubleType, String::new()), i + 2));
        }
        if i + 1 < n && tok_is_kw(&toks[i + 1], "long") {
            return Ok((ParseNode::leaf(RuleTag::SignedLongLongInt, String::new()), i + 2));
        }
        return Ok((ParseNode::leaf(RuleTag::SignedLongInt, String::new()), i + 1));
    }
    if tok_is_kw(t, "unsigned") {
        if i + 1 < n && tok_is_kw(&toks[i + 1], "short") {
            return Ok((ParseNode::leaf(RuleTag::UnsignedShortInt, String::new()), i + 2));
        }
        if i + 1 < n && tok_is_kw(&toks[i + 1], "long") {
            if i + 2 < n && tok_is_kw(&toks[i + 2], "long") {
                return Ok((ParseNode::leaf(RuleTag::UnsignedLongLongInt, String::new()), i + 3));
            }
            return Ok((ParseNode::leaf(RuleTag::UnsignedLongInt, String::new()), i + 2));
        }
        return Err(syntax_error_at("expected 'short' or 'long'", err_pos(toks, i)));
    }
    if tok_is_kw(t, "char") {
        return Ok((ParseNode::leaf(RuleTag::CharType, String::new()), i + 1));
    }
    if tok_is_kw(t, "wchar") {
        return Ok((ParseNode::leaf(RuleTag::WideCharType, String::new()), i + 1));
    }
    if tok_is_kw(t, "boolean") {
        return Ok((ParseNode::leaf(RuleTag::BooleanType, String::new()), i + 1));
    }
    if tok_is_kw(t, "octet") {
        return Ok((ParseNode::leaf(RuleTag::OctetType, String::new()), i + 1));
    }
    if tok_is_kw(t, "string") || tok_is_kw(t, "wstring") {
        let tag = if tok_is_kw(t, "string") {
            RuleTag::StringType
        } else {
            RuleTag::WideStringType
        };
        if i + 1 < n && matches!(&toks[i + 1].kind, TokenKind::LAngle) {
            let r = parse_const_expr(toks, i + 2)?;
            let (bound_node, j) = r;
            proof {
                if j < n {
                    assert(tv[j as int] == toks@[j as int]@);
                }
            }
            if !(j < n && matches!(&toks[j].kind, TokenKind::RAngle)) {
                return Err(syntax_error_at("expected '>'", err_pos(toks, j)));
            }
            let mut children: Vec<ParseNode> = Vec::new();
            let ghost bv = bound_node@;
            children.push(bound_node);
            let node = ParseNode::node(tag, String::new(), children);
            proof {
                assert(node@.children[0] == node_view(children@[0]));
                assert(tag == RuleTag::StringType || tag == RuleTag::WideStringType);
                assert(type_node_wf(node@));
                assert(node_wf(node@));
                assert(node@.children =~= seq![bv]);
                assert(node@.text =~= Seq::<char>::empty());
                assert(node@ == spec_node(tag, Seq::<char>::empty(), seq![bv])) by {
                    assert(node@.children == seq![bv]);
                    assert(node@.text == Seq::<char>::empty());
                }
            }
            return Ok((node, j + 1));
        }
        return Ok((ParseNode::leaf(tag, String::new()), i + 1));
    }
    if tok_is_kw(t, "sequence") {
        if !(i + 1 < n && matches!(&toks[i + 1].kind, TokenKind::LAngle)) {
            return Err(syntax_error_at("expected '<'", err_pos(toks, i + 1)));
        }
        let r = parse_type_spec(toks, i + 2)?;
        let (elem_node, j) = r;
        let mut children: Vec<ParseNode> = Vec::new();
        let ghost ev = elem_node@;
        children.push(elem_node);
        let mut k = j;
        proof {
            if k < n {
                assert(tv[k as int] == toks@[k as int]@);
            }
        }
        if k < n && matches!(&toks[k].kind, TokenKind::Comma) {
            let r2 = parse_const_expr(toks, k + 1)?;
            let (bound_node, k2) = r2;
            let ghost bv = bound_node@;
            children.push(bound_node);
            k = k2;
            proof {
                if k < n {
                    assert(tv[k as int] == toks@[k as int]@);
                }
            }
            if !(k < n && matches!(&toks[k].kind, TokenKind::RAngle)) {
                return Err(syntax_error_at("expected '>'", err_pos(toks, k)));
            }
            let node = ParseNode::node(RuleTag::SequenceType, String::new(), children);
            proof {
                assert(node@.children[0] == node_view(children@[0]));
                assert(node@.children[1] == node_view(children@[1]));
                assert(type_node_wf(node@));
                assert(node_wf(node@));
                assert(node@.children =~= seq![ev, bv]);
                assert(node@.text =~= Seq::<char>::empty());
                assert(node@ == spec_node(RuleTag::SequenceType, Seq::<char>::empty(), seq![ev, bv]))
                    by {
                    assert(node@.children == seq![ev, bv]);
                    assert(node@.text == Seq::<char>::empty());
                }
            }
            return Ok((node, k + 1));
        }
        if !(k < n && matches!(&toks[k].kind, TokenKind::RAngle)) {
            return Err(syntax_error_at("expected '>'", err_pos(toks, k)));
        }
        let node = ParseNode::node(RuleTag::SequenceType, String::new(), children);
        proof {
            assert(node@.children[0] == node_view(children@[0]));
            assert(type_node_wf(node@));
            assert(node_wf(node@));
            assert(node@.children =~= seq![ev]);
            assert(node@.text =~= Seq::<char>::empty());
            assert(node@ == spec_node(RuleTag::SequenceType, Seq::<char>::empty(), seq![ev])) by {
                assert(node@.children == seq![ev]);
                assert(node@.text == Seq::<char>::empty());
            }
        }
        return Ok((node, k + 1));
    }
    parse_scoped_name(toks, i)
}

/// Parses a scoped name: an optional leading `::`, then `::`-separated
/// identifiers; the node's text keeps the full spelling, so a leading `::`
/// marks the name absolute.
fn parse_scoped_name(toks: &Vec<Token>, i: usize) -> (r: Result<(ParseNode, usize), IdlError>)
    ensures
        r matches Ok(t) ==> i < t.1 <= toks@.len() && t.0@.tag == RuleTag::ScopedName
            && name_node_wf(t.0@) && node_wf(t.0@),
        ppair_res(r) == spec_parse_scoped_name(tokens_view(toks@), i as int),
    decreases toks@.len() - i, 0int,
{
    let ghost tv = tokens_view(toks@);
    let n = toks.len();
    let mut text = String::new();
    let mut j = i;
    if j < n && matches!(&toks[j].kind, TokenKind::ColonColon) {
        proof {
            assert(tv[j as int] == toks@[j as int]@);
        }
        text.append("::");
        j = j + 1;
    }
    proof {
        if j < n {
            assert(tv[j as int] == toks@[j as int]@);
        }
    }
    if !(j < n && matches!(&toks[j].kind, TokenKind::Ident)) {
        return Err(syntax_error_at("expected an identifier", err_pos(toks, j)));
    }
    let mut children: Vec<ParseNode> = Vec::new();
    text.append(toks[j].text.as_str());
    children.push(ParseNode::leaf(RuleTag::Identifier, toks[j].text.clone()));
    let ghost j0: int = j + 1;
    let ghost text0 = text@;
    let ghost c0 = crate::tree::nodes_view(children@);
    proof {
        assert(c0 =~= seq![spec_ident_leaf(tv[j as int].text)]);
    }
    j = j + 1;
    while j < n && j + 1 < n && matches!(&toks[j].kind, TokenKind::ColonColon) && matches!(
        &toks[j + 1].kind,
        TokenKind::Ident,
    )
        invariant
            i < j <= n,
            n == toks@.len(),
            tv == tokens_view(toks@),
            forall|k: int|
                0 <= k < children@.len() ==> {
                    let cvk = node_view(#[trigger] children@[k]);
                    cvk.tag == RuleTag::Identifier && node_wf(cvk)
                },
            spec_scoped_name_rest(tv, j as int, text@, crate::tree::nodes_view(children@))
                == spec_scoped_name_rest(tv, j0, text0, c0),
        decreases n - j,
    {
        let ghost pre_text = text@;
        let ghost pre_children = crate::tree::nodes_view(children@);
        proof {
            assert(tv[j as int] == toks@[j as int]@);
            assert(tv[j + 1] == toks@[j + 1]@);
        }
        text.append("::");
        text.append(toks[j + 1].text.as_str());
        children.push(ParseNode::leaf(RuleTag::Identifier, toks[j + 1].text.clone()));
        proof {
            assert(text@ =~= pre_text + "::"@ + tv[j + 1].text);
            assert(crate::tree::nodes_view(children@) =~= pre_children.push(
                spec_ident_leaf(tv[j + 1].text),
            ));
        }
        j = j + 2;
    }
    proof {
        if j < n {
            assert(tv[j as int] == toks@[j as int]@);
        }
        if j + 1 < n {
            assert(tv[j + 1] == toks@[j + 1]@);
        }
        assert(spec_scoped_name_rest(tv, j as int, text@, crate::tree::nodes_view(children@)) == (
        text@,
        crate::tree::nodes_view(children@),
        j as int,
        ));
    }
    let ghost final_text = text@;
    let ghost final_children = crate::tree::nodes_view(children@);
    let node = ParseNode::node(RuleTag::ScopedName, text, children);
    proof {
        assert forall|k: int| 0 <= k < node@.children.len() implies (#[trigger] node@.children[
        k]).tag == RuleTag::Identifier by {
            assert(node@.children[k] == node_view(children@[k]));
        }
        assert(name_node_wf(node@));
        assert(node_wf(node@));
        assert(node@.children =~= final_children);
        assert(node@ =~~= spec_node(
            RuleTag::ScopedName,
            spec_scoped_name_rest(tv, j0, text0, c0).0,
            spec_scoped_name_rest(tv, j0, text0, c0).1,
        ));
        assert(ppair_res(Result::Ok((node, j))) =~~= spec_parse_scoped_name(tv, i as int));
    }
    Ok((node, j))
}

/// Parses a constant expression: a unary expression, optionally followed by
/// one binary-operator tail that carries the operator and the rest of the
/// chain, mirroring the grammar's precedence chain; nothing is evaluated.
fn parse_const_expr(toks: &Vec<Token>, i: usize) -> (r: Result<(ParseNode, usize), IdlError>)
    ensures
        r matches Ok(t) ==> i < t.1 <= toks@.len() && t.0@.tag == RuleTag::ConstExpr
            && expr_node_wf(t.0@) && node_wf(t.0@),
        ppair_res(r) == spec_parse_const_expr(tokens_view(toks@), i as int),
    decreases toks@.len() - i, 3int,
{
    let ghost tv = tokens_view(toks@);
    let n = toks.len();
    let r = parse_unary_expr(toks, i)?;
    let (unary_node, j) = r;
    if j <= i {
        return Err(IdlError::InternalError);
    }
    let mut children: Vec<ParseNode> = Vec::new();
    let ghost unv = unary_node@;
    children.push(unary_node);
    if j < n {
        proof {
            assert(tv[j as int] == toks@[j as int]@);
        }
        let op_tag = match &toks[j].kind {
            TokenKind::Pipe => Some(RuleTag::OrExpr),
            TokenKind::Caret => Some(RuleTag::XorExpr),
            TokenKind::Amp => Some(RuleTag::AndExpr),
            TokenKind::Shl => Some(RuleTag::LShiftExpr),
            TokenKind::Shr => Some(RuleTag::RShiftExpr),
            TokenKind::Plus => Some(RuleTag::AddExpr),
            TokenKind::Minus => Some(RuleTag::SubExpr),
            TokenKind::Star => Some(RuleTag::MulExpr),
            TokenKind::Slash => Some(RuleTag::DivExpr),
            TokenKind::Percent => Some(RuleTag::ModExpr),
            _ => None,
        };
        proof {
            assert(spec_op_tag(tv[j as int].kind) == (match op_tag {
                Option::Some(g) => Option::Some(g),
                Option::None => Option::<RuleTag>::None,
            }));
        }
        match op_tag {
            Some(tag) => {
                let r2 = parse_const_expr(toks, j + 1)?;
                let (rest_node, k) = r2;
                let mut op_children: Vec<ParseNode> = Vec::new();
                let ghost restv = rest_node@;
                op_children.push(rest_node);
                let op_node = ParseNode::node(tag, toks[j].text.clone(), op_children);
                proof {
                    assert(tag == RuleTag::OrExpr || tag == RuleTag::XorExpr || tag
                        == RuleTag::AndExpr || tag == RuleTag::LShiftExpr || tag
                        == RuleTag::RShiftExpr || tag == RuleTag::AddExpr || tag
                        == RuleTag::SubExpr || tag == RuleTag::MulExpr || tag == RuleTag::DivExpr
                        || tag == RuleTag::ModExpr);
                    assert(op_node@.children.len() == 1);
                    assert(op_node@.children[0] == node_view(op_children@[0]));
                    assert(op_children@[0] == rest_node);
                    assert(expr_node_wf(op_node@.children[0]));
                    assert(binary_node_wf(op_node@));
                    assert(expr_node_wf(op_node@));
                    assert(node_wf(op_node@));
                    assert(op_node@.children =~= seq![restv]);
                    assert(op_node@ == spec_node(tag, tv[j as int].text, seq![restv])) by {
                        assert(op_node@.children == seq![restv]);
                        assert(op_node@.text == tv[j as int].text);
                    }
                }
                let ghost opv = op_node@;
                children.push(op_node);
                let node = ParseNode::node(RuleTag::ConstExpr, String::new(), children);
                proof {
                    assert(node@.children[0] == node_view(children@[0]));
                    assert(node@.children[1] == node_view(children@[1]));
                    assert(expr_node_wf(node@));
                    assert(node_wf(node@));
                    assert(node@.children =~= seq![unv, opv]);
                    assert(node@.text =~= Seq::<char>::empty());
                    assert(node@ == spec_node(
                        RuleTag::ConstExpr,
                        Seq::<char>::empty(),
                        seq![unv, opv],
                    )) by {
                        assert(node@.children == seq![unv, opv]);
                        assert(node@.text == Seq::<char>::empty());
                    }
                    assert(ppair_res(Result::Ok((node, k))) =~~= spec_parse_const_expr(
                        tv,
                        i as int,
                    ));
                }
                return Ok((node, k));
            },
            None => {
            },
        }
    }
    let node = ParseNode::node(RuleTag::ConstExpr, String::new(), children);
    proof {
        assert(node@.children[0] == node_view(children@[0]));
        assert(expr_node_wf(node@));
        assert(node_wf(node@));
        assert(node@.children =~= seq![unv]);
        assert(node@.text =~= Seq::<char>::empty());
        assert(node@ == spec_node(RuleTag::ConstExpr, Seq::<char>::empty(), seq![unv])) by {
            assert(node@.children == seq![unv]);
            assert(node@.text == Seq::<char>::empty());
        }
        assert(ppair_res(Result::Ok((node, j))) =~~= spec_parse_const_expr(tv, i as int));
    }
    Ok((node, j))
}

/// Parses a unary expression: an optional unary operator, then a primary
/// expression.
fn parse_unary_expr(toks: &Vec<Token>, i: usize) -> (r: Result<(ParseNode, usize), IdlError>)
    ensures
        r matches Ok(t) ==> i < t.1 <= toks@.len() && expr_node_wf(t.0@) && node_wf(t.0@),
        ppair_res(r) == spec_parse_unary_expr(tokens_view(toks@), i as int),
    decreases toks@.len() - i, 2int,
{
    let ghost tv = tokens_view(toks@);
    let n = toks.len();
    if i < n {
        proof {
            assert(tv[i as int] == toks@[i as int]@);
        }
        let is_unary = matches!(
            &toks[i].kind,
            TokenKind::Minus | TokenKind::Plus | TokenKind::Tilde,
        );
        if is_unary {
            let op_node = ParseNode::leaf(RuleTag::UnaryOperator, toks[i].text.clone());
            let r = parse_primary_expr(toks, i + 1)?;
            let (prim_node, j) = r;
            let mut children: Vec<ParseNode> = Vec::new();
            let ghost opv = op_node@;
            let ghost primv = prim_node@;
            children.push(op_node);
            children.push(prim_node);
            let node = ParseNode::node(RuleTag::UnaryExpr, String::new(), children);
            proof {
                assert(node@.children[0] == node_view(children@[0]));
                assert(node@.children[1] == node_view(children@[1]));
                assert(expr_node_wf(node@));
                assert(node_wf(node@));
                assert(node@.children =~= seq![opv, primv]);
                assert(node@.text =~= Seq::<char>::empty());
                assert(node@ == spec_node(
                    RuleTag::UnaryExpr,
                    Seq::<char>::empty(),
                    seq![opv, primv],
                )) by {
                    assert(node@.children == seq![opv, primv]);
                    assert(node@.text == Seq::<char>::empty());
                }
                assert(ppair_res(Result::Ok((node, j))) =~~= spec_parse_unary_expr(tv, i as int));
            }
            return Ok((node, j));
        }
    }
    let r = parse_primary_expr(toks, i)?;
    let (prim_node, j) = r;
    let mut children: Vec<ParseNode> = Vec::new();
    let ghost primv = prim_node@;
    children.push(prim_node);
    let node = ParseNode::node(RuleTag::UnaryExpr, String::new(), children);
    proof {
        assert(node@.children[0] == node_view(children@[0]));
        assert(expr_node_wf(node@));
        assert(node_wf(node@));
        assert(node@.children =~= seq![primv]);
        assert(node@.text =~= Seq::<char>::empty());
        assert(node@ == spec_node(RuleTag::UnaryExpr, Seq::<char>::empty(), seq![primv])) by {
            assert(node@.children == seq![primv]);
            assert(node@.text == Seq::<char>::empty());
        }
        assert(ppair_res(Result::Ok((node, j))) =~~= spec_parse_unary_expr(tv, i as int));
    }
    Ok((node, j))
}

/// Parses a primary expression: a scoped name, a literal, or a parenthesized
/// constant expression.
#[verifier::rlimit(80)]
fn parse_primary_expr(toks: &Vec<Token>, i: usize) -> (r: Result<(ParseNode, usize), IdlError>)
    ensures
        r matches Ok(t) ==> i < t.1 <= toks@.len() && expr_node_wf(t.0@) && node_wf(t.0@),
        ppair_res(r) == spec_parse_primary_expr(tokens_view(toks@), i as int),
    decreases toks@.len() - i, 1int,
{
    let ghost tv = tokens_view(toks@);
    let n = toks.len();
    if i >= n {
        return Err(syntax_error_at("expected an expression", err_pos(toks, i)));
    }
    proof {
        assert(tv[i as int] == toks@[i as int]@);
    }
    if matches!(&toks[i].kind, TokenKind::LParen) {
        let r = parse_const_expr(toks, i + 1)?;
        let (e_node, j) = r;
        proof {
            if j < n {
                assert(tv[j as int] == toks@[j as int]@);
            }
        }
        if !(j < n && matches!(&toks[j].kind, TokenKind::RParen)) {
            return Err(syntax_error_at("expected ')'", err_pos(toks, j)));
        }
        let mut children: Vec<ParseNode> = Vec::new();
        let ghost ev = e_node@;
        children.push(e_node);
        let node = ParseNode::node(RuleTag::PrimaryExpr, String::new(), children);
        proof {
            assert(node@.children[0] == node_view(children@[0]));
            assert(expr_node_wf(node@));
            assert(node_wf(node@));
            assert(node@.children =~= seq![ev]);
            assert(node@.text =~= Seq::<char>::empty());
            assert(node@ == spec_node(RuleTag::PrimaryExpr, Seq::<char>::empty(), seq![ev])) by {
                assert(node@.children == seq![ev]);
                assert(node@.text == Seq::<char>::empty());
            }
            assert(ppair_res(Result::Ok((node, (j + 1) as usize))) =~~= spec_parse_primary_expr(
                tv,
                i as int,
            ));
        }
        return Ok((node, j + 1));
    }
    if matches!(&toks[i].kind, TokenKind::Ident) {
        if tok_is_kw(&toks[i], "TRUE") || tok_is_kw(&toks[i], "FALSE") {
            let lit = ParseNode::leaf(RuleTag::BooleanLiteral, toks[i].text.clone());
            proof {
                assert(expr_node_wf(lit@));
                assert(node_wf(lit@));
            }
            let node = wrap_literal(lit);
            proof {
                assert(ppair_res(Result::Ok((node, (i + 1) as usize))) =~~= spec_parse_primary_expr(
                    tv,
                    i as int,
                ));
            }
            return Ok((node, i + 1));
        }
        let r = parse_scoped_name(toks, i)?;
        let (name_node, j) = r;
        let mut children: Vec<ParseNode> = Vec::new();
        let ghost nv = name_node@;
        children.push(name_node);
        let node = ParseNode::node(RuleTag::PrimaryExpr, String::new(), children);
        proof {
            assert(node@.children[0] == node_view(children@[0]));
            assert(expr_node_wf(node@));
            assert(node_wf(node@));
            assert(node@.children =~= seq![nv]);
            assert(node@.text =~= Seq::<char>::empty());
            assert(node@ == spec_node(RuleTag::PrimaryExpr, Seq::<char>::empty(), seq![nv])) by {
                assert(node@.children == seq![nv]);
                assert(node@.text == Seq::<char>::empty());
            }
            assert(ppair_res(Result::Ok((node, j))) =~~= spec_parse_primary_expr(tv, i as int));
        }
        return Ok((node, j));
    }
    if matches!(&toks[i].kind, TokenKind::ColonColon) {
        let r = parse_scoped_name(toks, i)?;
        let (name_node, j) = r;
        let mut children: Vec<ParseNode> = Vec::new();
        let ghost nv = name_node@;
        children.push(name_node);
        let node = ParseNode::node(RuleTag::PrimaryExpr, String::new(), children);
        proof {
            assert(node@.children[0] == node_view(children@[0]));
            assert(expr_node_wf(node@));
            assert(node_wf(node@));
            assert(node@.children =~= seq![nv]);
            assert(node@.text =~= Seq::<char>::empty());
            assert(node@ == spec_node(RuleTag::PrimaryExpr, Seq::<char>::empty(), seq![nv])) by {
                assert(node@.children == seq![nv]);
                assert(node@.text == Seq::<char>::empty());
            }
            assert(ppair_res(Result::Ok((node, j))) =~~= spec_parse_primary_expr(tv, i as int));
        }
        return Ok((node, j));
    }
    let lit = match &toks[i].kind {
        TokenKind::DecLit => ParseNode::leaf(RuleTag::DecimalIntegerLiteral, toks[i].text.clone()),
        TokenKind::OctLit => ParseNode::leaf(RuleTag::OctalIntegerLiteral, toks[i].text.clone()),
        TokenKind::HexLit => ParseNode::leaf(RuleTag::HexIntegerLiteral, toks[i].text.clone()),
        TokenKind::CharLit => ParseNode::leaf(RuleTag::CharacterLiteral, toks[i].text.clone()),
        TokenKind::FloatLit(integral, fraction, exponent, suffix) => {
            let ghost av = crate::ast::opt_string_view(*integral);
            let ghost bv = crate::ast::opt_string_view(*fraction);
            let ghost cv = crate::ast::opt_string_view(*exponent);
            let ghost dv = crate::ast::opt_string_view(*suffix);
            let mut parts: Vec<ParseNode> = Vec::new();
            match integral {
                Some(sv) => parts.push(ParseNode::leaf(RuleTag::IntegralPart, sv.clone())),
                None => (),
            }
            proof {
                assert(crate::tree::nodes_view(parts@) =~= (match av {
                    Option::Some(sv) => seq![
                        NodeView {
                            tag: RuleTag::IntegralPart,
                            text: sv,
                            children: Seq::empty(),
                        },
                    ],
                    Option::None => Seq::<NodeView>::empty(),
                }));
            }
            let ghost p1 = crate::tree::nodes_view(parts@);
            match fraction {
                Some(sv) => parts.push(ParseNode::leaf(RuleTag::FractionalPart, sv.clone())),
                None => (),
            }
            proof {
                assert(crate::tree::nodes_view(parts@) =~= p1 + (match bv {
                    Option::Some(sv) => seq![
                        NodeView {
                            tag: RuleTag::FractionalPart,
                            text: sv,
                            children: Seq::empty(),
                        },
                    ],
                    Option::None => Seq::<NodeView>::empty(),
                }));
            }
            let ghost p2 = crate::tree::nodes_view(parts@);
            match exponent {
                Some(sv) => parts.push(ParseNode::leaf(RuleTag::Exponent, sv.clone())),
                None => (),
            }
            proof {
                assert(crate::tree::nodes_view(parts@) =~= p2 + (match cv {
                    Option::Some(sv) => seq![
                        NodeView { tag: RuleTag::Exponent, text: sv, children: Seq::empty() },
                    ],
                    Option::None => Seq::<NodeView>::empty(),
                }));
            }
            let ghost p3 = crate::tree::nodes_view(parts@);
            match suffix {
                Some(sv) => parts.push(ParseNode::leaf(RuleTag::FloatSuffix, sv.clone())),
                None => (),
            }
            proof {
                assert(crate::tree::nodes_view(parts@) =~= p3 + (match dv {
                    Option::Some(sv) => seq![
                        NodeView { tag: RuleTag::FloatSuffix, text: sv, children: Seq::empty() },
                    ],
                    Option::None => Seq::<NodeView>::empty(),
                }));
                assert(crate::tree::nodes_view(parts@) =~= spec_float_children(av, bv, cv, dv));
            }
            let ghost pv = crate::tree::nodes_view(parts@);
            let node = ParseNode::node(RuleTag::FloatingPtLiteral, toks[i].text.clone(), parts);
            proof {
                assert(crate::tree::float_parts_nodes_wf(node@.children)) by {
                    assert(node@.children =~= pv);
                }
                assert(node@.children =~= pv);
                assert(expr_node_wf(node@));
                assert(node_wf(node@));
            }
            node
        },
        _ => {
            return Err(syntax_error_at("expected a literal", err_pos(toks, i)));
        },
    };
    proof {
        assert(expr_node_wf(lit@));
        assert(node_wf(lit@));
    }
    let node = wrap_literal(lit);
    proof {
        assert(ppair_res(Result::Ok((node, (i + 1) as usize))) =~~= spec_parse_primary_expr(tv, i as int));
    }
    Ok((node, i + 1))
}

/// Wraps a literal node in the `literal` and `primary_expr` layers the
/// semantic pass resolves through.
fn wrap_literal(lit: ParseNode) -> (r: ParseNode)
    requires
        expr_node_wf(lit@),
        node_wf(lit@),
    ensures
        expr_node_wf(r@),
        node_wf(r@),
        r@ == spec_wrap_literal(lit@),
{
    let ghost litv = lit@;
    let mut lit_children: Vec<ParseNode> = Vec::new();
    lit_children.push(lit);
    let lit_node = ParseNode::node(RuleTag::Literal, String::new(), lit_children);
    proof {
        assert(lit_node@.children[0] == node_view(lit_children@[0]));
        assert(expr_node_wf(lit_node@));
        assert(node_wf(lit_node@));
        assert(lit_node@.children =~= seq![litv]);
        assert(lit_node@.text =~= Seq::<char>::empty());
        assert(lit_node@ == spec_node(RuleTag::Literal, Seq::<char>::empty(), seq![litv])) by {
            assert(lit_node@.children == seq![litv]);
            assert(lit_node@.text == Seq::<char>::empty());
        }
    }
    let mut prim_children: Vec<ParseNode> = Vec::new();
    let ghost lnv = lit_node@;
    prim_children.push(lit_node);
    let node = ParseNode::node(RuleTag::PrimaryExpr, String::new(), prim_children);
    proof {
        assert(node@.children[0] == node_view(prim_children@[0]));
        assert(expr_node_wf(node@));
        assert(node_wf(node@));
        assert(node@.children =~= seq![lnv]);
        assert(node@.text =~= Seq::<char>::empty());
        assert(node@ == spec_wrap_literal(litv)) by {
            assert(node@.children == seq![lnv]);
            assert(node@.text == Seq::<char>::empty());
        }
    }
    node
}

// ----------------------------------------------------------------------
// Spec: what the parser produces, as a function of the token sequence
// ----------------------------------------------------------------------
/// Whether a token is the identifier spelled `kw`.
pub open spec fn spec_is_kw(t: TokenView, kw: Seq<char>) -> bool {
    t.kind == TokenKindView::Ident && t.text == kw
}

/// The position reported for an error at token `i`.
pub open spec fn spec_err_pos(toks: Seq<TokenView>, i: int) -> nat {
    if 0 <= i < toks.len() {
        toks[i].pos
    } else {
        0
    }
}

/// An identifier leaf for the given text.
pub open spec fn spec_ident_leaf(text: Seq<char>) -> NodeView {
    NodeView { tag: RuleTag::Identifier, text, children: Seq::<NodeView>::empty() }
}

/// An interior node.
pub open spec fn spec_node(tag: RuleTag, text: Seq<char>, children: Seq<NodeView>) -> NodeView {
    NodeView { tag, text, children }
}

/// What parsing an identifier token yields.
pub open spec fn spec_parse_identifier(toks: Seq<TokenView>, i: int) -> Result<
    (NodeView, int),
    crate::ErrorView,
> {
    if 0 <= i < toks.len() && toks[i].kind == TokenKindView::Ident {
        Result::Ok((spec_ident_leaf(toks[i].text), i + 1))
    } else {
        Result::Err(spec_syntax_error("expected an identifier"@, spec_err_pos(toks, i)))
    }
}

/// The remaining `::`-separated segments of a scoped name from `j` on: the
/// accumulated spelling, the identifier leaves, and the position after.
pub open spec fn spec_scoped_name_rest(
    toks: Seq<TokenView>,
    j: int,
    text: Seq<char>,
    children: Seq<NodeView>,
) -> (Seq<char>, Seq<NodeView>, int)
    decreases toks.len() - j,
{
    if 0 <= j && j + 1 < toks.len() && toks[j].kind == TokenKindView::ColonColon && toks[j
        + 1].kind == TokenKindView::Ident {
        spec_scoped_name_rest(
            toks,
            j + 2,
            text + "::"@ + toks[j + 1].text,
            children.push(spec_ident_leaf(toks[j + 1].text)),
        )
    } else {
        (text, children, j)
    }
}

/// What parsing a scoped name yields: the node keeps the full spelling, so a
/// leading `::` marks the name absolute.
pub open spec fn spec_parse_scoped_name(toks: Seq<TokenView>, i: int) -> Result<
    (NodeView, int),
    crate::ErrorView,
>
    decreases toks.len() - i, 0int,
{
    let has_cc = 0 <= i < toks.len() && toks[i].kind == TokenKindView::ColonColon;
    let j0 = if has_cc {
        i + 1
    } else {
        i
    };
    let text0: Seq<char> = if has_cc {
        "::"@
    } else {
        Seq::<char>::empty()
    };
    if !(0 <= j0 < toks.len() && toks[j0].kind == TokenKindView::Ident) {
        Result::Err(spec_syntax_error("expected an identifier"@, spec_err_pos(toks, j0)))
    } else {
        let r = spec_scoped_name_rest(
            toks,
            j0 + 1,
            text0 + toks[j0].text,
            seq![spec_ident_leaf(toks[j0].text)],
        );
        Result::Ok((spec_node(RuleTag::ScopedName, r.0, r.1), r.2))
    }
}

/// The children of a floating-point literal node: one part leaf per present
/// textual part, in the fixed order integral, fraction, exponent, suffix.
pub open spec fn spec_float_children(
    a: Option<Seq<char>>,
    b: Option<Seq<char>>,
    c: Option<Seq<char>>,
    d: Option<Seq<char>>,
) -> Seq<NodeView> {
    (match a {
        Option::Some(s) => seq![
            NodeView { tag: RuleTag::IntegralPart, text: s, children: Seq::empty() },
        ],
        Option::None => Seq::<NodeView>::empty(),
    }) + (match b {
        Option::Some(s) => seq![
            NodeView { tag: RuleTag::FractionalPart, text: s, children: Seq::empty() },
        ],
        Option::None => Seq::<NodeView>::empty(),
    }) + (match c {
        Option::Some(s) => seq![
            NodeView { tag: RuleTag::Exponent, text: s, children: Seq::empty() },
        ],
        Option::None => Seq::<NodeView>::empty(),
    }) + (match d {
        Option::Some(s) => seq![
            NodeView { tag: RuleTag::FloatSuffix, text: s, children: Seq::empty() },
        ],
        Option::None => Seq::<NodeView>::empty(),
    })
}

/// A literal leaf wrapped in the `literal` and `primary_expr` layers.
pub open spec fn spec_wrap_literal(lit: NodeView) -> NodeView {
    spec_node(
        RuleTag::PrimaryExpr,
        Seq::<char>::empty(),
        seq![spec_node(RuleTag::Literal, Seq::<char>::empty(), seq![lit])],
    )
}

/// What parsing a primary expression yields: a scoped name, a literal, or a
/// parenthesized constant expression.
pub open spec fn spec_parse_primary_expr(toks: Seq<TokenView>, i: int) -> Result<
    (NodeView, int),
    crate::ErrorView,
>
    decreases toks.len() - i, 1int,
{
    if !(0 <= i < toks.len()) {
        Result::Err(spec_syntax_error("expected an expression"@, spec_err_pos(toks, i)))
    } else if toks[i].kind == TokenKindView::LParen {
        match spec_parse_const_expr(toks, i + 1) {
            Result::Ok(p) => if p.1 < toks.len() && toks[p.1].kind == TokenKindView::RParen {
                Result::Ok(
                    (spec_node(RuleTag::PrimaryExpr, Seq::<char>::empty(), seq![p.0]), p.1 + 1),
                )
            } else {
                Result::Err(spec_syntax_error("expected ')'"@, spec_err_pos(toks, p.1)))
            },
            Result::Err(e) => Result::Err(e),
        }
    } else if toks[i].kind == TokenKindView::Ident {
        if toks[i].text == "TRUE"@ || toks[i].text == "FALSE"@ {
            Result::Ok(
                (
                    spec_wrap_literal(
                        NodeView {
                            tag: RuleTag::BooleanLiteral,
                            text: toks[i].text,
                            children: Seq::empty(),
                        },
                    ),
                    i + 1,
                ),
            )
        } else {
            match spec_parse_scoped_name(toks, i) {
                Result::Ok(p) => Result::Ok(
                    (spec_node(RuleTag::PrimaryExpr, Seq::<char>::empty(), seq![p.0]), p.1),
                ),
                Result::Err(e) => Result::Err(e),
            }
        }
    } else if toks[i].kind == TokenKindView::ColonColon {
        match spec_parse_scoped_name(toks, i) {
            Result::Ok(p) => Result::Ok(
                (spec_node(RuleTag::PrimaryExpr, Seq::<char>::empty(), seq![p.0]), p.1),
            ),
            Result::Err(e) => Result::Err(e),
        }
    } else {
        match toks[i].kind {
            TokenKindView::DecLit => Result::Ok(
                (
                    spec_wrap_literal(
                        NodeView {
                            tag: RuleTag::DecimalIntegerLiteral,
                            text: toks[i].text,
                            children: Seq::empty(),
                        },
                    ),
                    i + 1,
                ),
            ),
            TokenKindView::OctLit => Result::Ok(
                (
                    spec_wrap_literal(
                        NodeView {
                            tag: RuleTag::OctalIntegerLiteral,
                            text: toks[i].text,
                            children: Seq::empty(),
                        },
                    ),
                    i + 1,
                ),
            ),
            TokenKindView::HexLit => Result::Ok(
                (
                    spec_wrap_literal(
                        NodeView {
                            tag: RuleTag::HexIntegerLiteral,
                            text: toks[i].text,
                            children: Seq::empty(),
                        },
                    ),
                    i + 1,
                ),
            ),
            TokenKindView::CharLit => Result::Ok(
                (
                    spec_wrap_literal(
                        NodeView {
                            tag: RuleTag::CharacterLiteral,
                            text: toks[i].text,
                            children: Seq::empty(),
                        },
                    ),
                    i + 1,
                ),
            ),
            TokenKindView::FloatLit(a, b, c, d) => Result::Ok(
                (
                    spec_wrap_literal(
                        NodeView {
                            tag: RuleTag::FloatingPtLiteral,
                            text: toks[i].text,
                            children: spec_float_children(a, b, c, d),
                        },
                    ),
                    i + 1,
                ),
            ),
            _ => Result::Err(spec_syntax_error("expected a literal"@, spec_err_pos(toks, i))),
        }
    }
}

/// What parsing a unary expression yields.
pub open spec fn spec_parse_unary_expr(toks: Seq<TokenView>, i: int) -> Result<
    (NodeView, int),
    crate::ErrorView,
>
    decreases toks.len() - i, 2int,
{
    let is_unary = 0 <= i < toks.len() && (toks[i].kind == TokenKindView::Minus || toks[i].kind
        == TokenKindView::Plus || toks[i].kind == TokenKindView::Tilde);
    if is_unary {
        match spec_parse_primary_expr(toks, i + 1) {
            Result::Ok(p) => Result::Ok(
                (
                    spec_node(
                        RuleTag::UnaryExpr,
                        Seq::<char>::empty(),
                        seq![
                            NodeView {
                                tag: RuleTag::UnaryOperator,
                                text: toks[i].text,
                                children: Seq::empty(),
                            },
                            p.0,
                        ],
                    ),
                    p.1,
                ),
            ),
            Result::Err(e) => Result::Err(e),
        }
    } else {
        match spec_parse_primary_expr(toks, i) {
            Result::Ok(p) => Result::Ok(
                (spec_node(RuleTag::UnaryExpr, Seq::<char>::empty(), seq![p.0]), p.1),
            ),
            Result::Err(e) => Result::Err(e),
        }
    }
}

/// The binary-operator rule for a token kind, if it is an operator.
pub open spec fn spec_op_tag(k: TokenKindView) -> Option<RuleTag> {
    match k {
        TokenKindView::Pipe => Option::Some(RuleTag::OrExpr),
        TokenKindView::Caret => Option::Some(RuleTag::XorExpr),
        TokenKindView::Amp => Option::Some(RuleTag::AndExpr),
        TokenKindView::Shl => Option::Some(RuleTag::LShiftExpr),
        TokenKindView::Shr => Option::Some(RuleTag::RShiftExpr),
        TokenKindView::Plus => Option::Some(RuleTag::AddExpr),
        TokenKindView::Minus => Option::Some(RuleTag::SubExpr),
        TokenKindView::Star => Option::Some(RuleTag::MulExpr),
        TokenKindView::Slash => Option::Some(RuleTag::DivExpr),
        TokenKindView::Percent => Option::Some(RuleTag::ModExpr),
        _ => Option::None,
    }
}

/// What parsing a constant expression yields: a unary expression, optionally
/// followed by one binary-operator tail carrying the operator and the rest of
/// the chain.
pub open spec fn spec_parse_const_expr(toks: Seq<TokenView>, i: int) -> Result<
    (NodeView, int),
    crate::ErrorView,
>
    decreases toks.len() - i, 3int,
{
    match spec_parse_unary_expr(toks, i) {
        Result::Ok(u) => if u.1 <= i {
            Result::Err(crate::ErrorView::InternalError)
        } else {
            let j = u.1;
            let op_tag = if 0 <= j < toks.len() {
                spec_op_tag(toks[j].kind)
            } else {
                Option::None
            };
            match op_tag {
                Option::Some(tag) => match spec_parse_const_expr(toks, j + 1) {
                    Result::Ok(p) => Result::Ok(
                        (
                            spec_node(
                                RuleTag::ConstExpr,
                                Seq::<char>::empty(),
                                seq![u.0, spec_node(tag, toks[j].text, seq![p.0])],
                            ),
                            p.1,
                        ),
                    ),
                    Result::Err(e) => Result::Err(e),
                },
                Option::None => Result::Ok(
                    (spec_node(RuleTag::ConstExpr, Seq::<char>::empty(), seq![u.0]), j),
                ),
            }
        },
        Result::Err(e) => Result::Err(e),
    }
}

/// What parsing a type specification yields.
pub open spec fn spec_parse_type_spec(toks: Seq<TokenView>, i: int) -> Result<
    (NodeView, int),
    crate::ErrorView,
>
    decreases toks.len() - i, 5int,
{
    if !(0 <= i < toks.len()) {
        Result::Err(spec_syntax_error("expected a type"@, spec_err_pos(toks, i)))
    } else {
        let t = toks[i];
        if spec_is_kw(t, "float"@) {
            Result::Ok((spec_node(RuleTag::FloatType, Seq::<char>::empty(), Seq::empty()), i + 1))
        } else if spec_is_kw(t, "double"@) {
            Result::Ok((spec_node(RuleTag::DoubleType, Seq::<char>::empty(), Seq::empty()), i + 1))
        } else if spec_is_kw(t, "short"@) {
            Result::Ok(
                (spec_node(RuleTag::SignedShortInt, Seq::<char>::empty(), Seq::empty()), i + 1),
            )
        } else if spec_is_kw(t, "long"@) {
            if i + 1 < toks.len() && spec_is_kw(toks[i + 1], "double"@) {
                Result::Ok(
                    (spec_node(RuleTag::LongDoubleType, Seq::<char>::empty(), Seq::empty()), i + 2),
                )
            } else if i + 1 < toks.len() && spec_is_kw(toks[i + 1], "long"@) {
                Result::Ok(
                    (
                        spec_node(RuleTag::SignedLongLongInt, Seq::<char>::empty(), Seq::empty()),
                        i + 2,
                    ),
                )
            } else {
                Result::Ok(
                    (spec_node(RuleTag::SignedLongInt, Seq::<char>::empty(), Seq::empty()), i + 1),
                )
            }
        } else if spec_is_kw(t, "unsigned"@) {
            if i + 1 < toks.len() && spec_is_kw(toks[i + 1], "short"@) {
                Result::Ok(
                    (
                        spec_node(RuleTag::UnsignedShortInt, Seq::<char>::empty(), Seq::empty()),
                        i + 2,
                    ),
                )
            } else if i + 1 < toks.len() && spec_is_kw(toks[i + 1], "long"@) {
                if i + 2 < toks.len() && spec_is_kw(toks[i + 2], "long"@) {
                    Result::Ok(
                        (
                            spec_node(
                                RuleTag::UnsignedLongLongInt,
                                Seq::<char>::empty(),
                                Seq::empty(),
                            ),
                            i + 3,
                        ),
                    )
                } else {
                    Result::Ok(
                        (
                            spec_node(RuleTag::UnsignedLongInt, Seq::<char>::empty(), Seq::empty()),
                            i + 2,
                        ),
                    )
                }
            } else {
                Result::Err(spec_syntax_error("expected 'short' or 'long'"@, spec_err_pos(toks, i)))
            }
        } else if spec_is_kw(t, "char"@) {
            Result::Ok((spec_node(RuleTag::CharType, Seq::<char>::empty(), Seq::empty()), i + 1))
        } else if spec_is_kw(t, "wchar"@) {
            Result::Ok(
                (spec_node(RuleTag::WideCharType, Seq::<char>::empty(), Seq::empty()), i + 1),
            )
        } else if spec_is_kw(t, "boolean"@) {
            Result::Ok((spec_node(RuleTag::BooleanType, Seq::<char>::empty(), Seq::empty()), i + 1))
        } else if spec_is_kw(t, "octet"@) {
            Result::Ok((spec_node(RuleTag::OctetType, Seq::<char>::empty(), Seq::empty()), i + 1))
        } else if spec_is_kw(t, "string"@) || spec_is_kw(t, "wstring"@) {
            let tag = if spec_is_kw(t, "string"@) {
                RuleTag::StringType
            } else {
                RuleTag::WideStringType
            };
            if i + 1 < toks.len() && toks[i + 1].kind == TokenKindView::LAngle {
                match spec_parse_const_expr(toks, i + 2) {
                    Result::Ok(p) => if p.1 < toks.len() && toks[p.1].kind
                        == TokenKindView::RAngle {
                        Result::Ok((spec_node(tag, Seq::<char>::empty(), seq![p.0]), p.1 + 1))
                    } else {
                        Result::Err(spec_syntax_error("expected '>'"@, spec_err_pos(toks, p.1)))
                    },
                    Result::Err(e) => Result::Err(e),
                }
            } else {
                Result::Ok((spec_node(tag, Seq::<char>::empty(), Seq::empty()), i + 1))
            }
        } else if spec_is_kw(t, "sequence"@) {
            if !(i + 1 < toks.len() && toks[i + 1].kind == TokenKindView::LAngle) {
                Result::Err(spec_syntax_error("expected '<'"@, spec_err_pos(toks, i + 1)))
            } else {
                match spec_parse_type_spec(toks, i + 2) {
                    Result::Ok(ep) => {
                        let j = ep.1;
                        if j < toks.len() && toks[j].kind == TokenKindView::Comma {
                            match spec_parse_const_expr(toks, j + 1) {
                                Result::Ok(bp) => if bp.1 < toks.len() && toks[bp.1].kind
                                    == TokenKindView::RAngle {
                                    Result::Ok(
                                        (
                                            spec_node(
                                                RuleTag::SequenceType,
                                                Seq::<char>::empty(),
                                                seq![ep.0, bp.0],
                                            ),
                                            bp.1 + 1,
                                        ),
                                    )
                                } else {
                                    Result::Err(
                                        spec_syntax_error("expected '>'"@, spec_err_pos(
                                            toks,
                                            bp.1,
                                        )),
                                    )
                                },
                                Result::Err(e) => Result::Err(e),
                            }
                        } else if j < toks.len() && toks[j].kind == TokenKindView::RAngle {
                            Result::Ok(
                                (
                                    spec_node(
                                        RuleTag::SequenceType,
                                        Seq::<char>::empty(),
                                        seq![ep.0],
                                    ),
                                    j + 1,
                                ),
                            )
                        } else {
                            Result::Err(spec_syntax_error("expected '>'"@, spec_err_pos(toks, j)))
                        }
                    },
                    Result::Err(e) => Result::Err(e),
                }
            }
        } else {
            spec_parse_scoped_name(toks, i)
        }
    }
}

/// The bracketed fixed-array sizes of a declarator from `j` on, appended to
/// the declarator children gathered so far.
pub open spec fn spec_parse_brackets(toks: Seq<TokenView>, j: int, acc: Seq<NodeView>) -> Result<
    (Seq<NodeView>, int),
    crate::ErrorView,
>
    decreases toks.len() - j, 6int,
{
    if !(0 <= j < toks.len() && toks[j].kind == TokenKindView::LBracket) {
        Result::Ok((acc, j))
    } else {
        match spec_parse_const_expr(toks, j + 1) {
            Result::Ok(p) => if !(p.1 < toks.len() && toks[p.1].kind == TokenKindView::RBracket) {
                Result::Err(spec_syntax_error("expected ']'"@, spec_err_pos(toks, p.1)))
            } else if p.1 <= j {
                Result::Err(crate::ErrorView::InternalError)
            } else {
                spec_parse_brackets(
                    toks,
                    p.1 + 1,
                    acc.push(
                        spec_node(RuleTag::FixedArraySize, Seq::<char>::empty(), seq![p.0]),
                    ),
                )
            },
            Result::Err(e) => Result::Err(e),
        }
    }
}

/// What parsing one declarator yields: an identifier, optionally with one or
/// more bracketed fixed-array sizes, outermost first.
pub open spec fn spec_parse_declarator(toks: Seq<TokenView>, i: int) -> Result<
    (NodeView, int),
    crate::ErrorView,
>
    decreases toks.len() - i, 7int,
{
    match spec_parse_identifier(toks, i) {
        Result::Ok(idp) => if idp.1 <= i {
            Result::Err(crate::ErrorView::InternalError)
        } else if 0 <= idp.1 < toks.len() && toks[idp.1].kind == TokenKindView::LBracket {
            match spec_parse_brackets(toks, idp.1, seq![idp.0]) {
                Result::Ok(bp) => Result::Ok(
                    (
                        spec_node(
                            RuleTag::Declarator,
                            Seq::<char>::empty(),
                            seq![
                                spec_node(RuleTag::ArrayDeclarator, Seq::<char>::empty(), bp.0),
                            ],
                        ),
                        bp.1,
                    ),
                ),
                Result::Err(e) => Result::Err(e),
            }
        } else {
            Result::Ok(
                (
                    spec_node(
                        RuleTag::Declarator,
                        Seq::<char>::empty(),
                        seq![
                            spec_node(
                                RuleTag::SimpleDeclarator,
                                Seq::<char>::empty(),
                                seq![idp.0],
                            ),
                        ],
                    ),
                    idp.1,
                ),
            )
        },
        Result::Err(e) => Result::Err(e),
    }
}

/// The remaining comma-separated declarators from `j` on.
pub open spec fn spec_parse_declarators_rest(
    toks: Seq<TokenView>,
    j: int,
    acc: Seq<NodeView>,
) -> Result<(Seq<NodeView>, int), crate::ErrorView>
    decreases toks.len() - j, 8int,
{
    if !(0 <= j < toks.len() && toks[j].kind == TokenKindView::Comma) {
        Result::Ok((acc, j))
    } else {
        match spec_parse_declarator(toks, j + 1) {
            Result::Ok(p) => if p.1 <= j || p.1 > toks.len() {
                Result::Err(crate::ErrorView::InternalError)
            } else {
                spec_parse_declarators_rest(toks, p.1, acc.push(p.0))
            },
            Result::Err(e) => Result::Err(e),
        }
    }
}

/// What parsing a comma-separated declarator list yields.
pub open spec fn spec_parse_declarators(toks: Seq<TokenView>, i: int) -> Result<
    (NodeView, int),
    crate::ErrorView,
>
    decreases toks.len() - i, 9int,
{
    match spec_parse_declarator(toks, i) {
        Result::Ok(p) => if p.1 <= i {
            Result::Err(crate::ErrorView::InternalError)
        } else {
            match spec_parse_declarators_rest(toks, p.1, seq![p.0]) {
                Result::Ok(dp) => Result::Ok(
                    (spec_node(RuleTag::Declarators, Seq::<char>::empty(), dp.0), dp.1),
                ),
                Result::Err(e) => Result::Err(e),
            }
        },
        Result::Err(e) => Result::Err(e),
    }
}

/// What parsing one struct member line yields.
pub open spec fn spec_parse_member(toks: Seq<TokenView>, i: int) -> Result<
    (NodeView, int),
    crate::ErrorView,
>
    decreases toks.len() - i, 10int,
{
    match spec_parse_type_spec(toks, i) {
        Result::Ok(tp) => if tp.1 <= i {
            Result::Err(crate::ErrorView::InternalError)
        } else {
            match spec_parse_declarators(toks, tp.1) {
                Result::Ok(dp) => if dp.1 < toks.len() && toks[dp.1].kind == TokenKindView::Semi {
                    Result::Ok(
                        (
                            spec_node(
                                RuleTag::Member,
                                Seq::<char>::empty(),
                                seq![tp.0, dp.0],
                            ),
                            dp.1 + 1,
                        ),
                    )
                } else {
                    Result::Err(spec_syntax_error("expected ';'"@, spec_err_pos(toks, dp.1)))
                },
                Result::Err(e) => Result::Err(e),
            }
        },
        Result::Err(e) => Result::Err(e),
    }
}

/// The member lines of a struct body up to the closing brace.
pub open spec fn spec_parse_members_until(
    toks: Seq<TokenView>,
    j: int,
    acc: Seq<NodeView>,
) -> Result<(Seq<NodeView>, int), crate::ErrorView>
    decreases toks.len() - j, 11int,
{
    if !(0 <= j < toks.len()) || toks[j].kind == TokenKindView::RBrace {
        Result::Ok((acc, j))
    } else {
        match spec_parse_member(toks, j) {
            Result::Ok(p) => if p.1 <= j || p.1 > toks.len() {
                Result::Err(crate::ErrorView::InternalError)
            } else {
                spec_parse_members_until(toks, p.1, acc.push(p.0))
            },
            Result::Err(e) => Result::Err(e),
        }
    }
}

/// What parsing `struct <name> { member* }` yields.
pub open spec fn spec_parse_struct_def(toks: Seq<TokenView>, i: int) -> Result<
    (NodeView, int),
    crate::ErrorView,
>
    decreases toks.len() - i, 12int,
{
    match spec_parse_identifier(toks, i + 1) {
        Result::Ok(idp) => if !(idp.1 < toks.len() && toks[idp.1].kind == TokenKindView::LBrace) {
            Result::Err(spec_syntax_error("expected '{'"@, spec_err_pos(toks, idp.1)))
        } else if idp.1 <= i {
            Result::Err(crate::ErrorView::InternalError)
        } else {
            match spec_parse_members_until(toks, idp.1 + 1, seq![idp.0]) {
                Result::Ok(mp) => if mp.1 < toks.len() && toks[mp.1].kind
                    == TokenKindView::RBrace {
                    Result::Ok(
                        (spec_node(RuleTag::StructDef, Seq::<char>::empty(), mp.0), mp.1 + 1),
                    )
                } else {
                    Result::Err(spec_syntax_error("expected '}'"@, spec_err_pos(toks, mp.1)))
                },
                Result::Err(e) => Result::Err(e),
            }
        },
        Result::Err(e) => Result::Err(e),
    }
}

/// The definitions of a module body up to the closing brace.
pub open spec fn spec_parse_defs_until(toks: Seq<TokenView>, j: int, acc: Seq<NodeView>) -> Result<
    (Seq<NodeView>, int),
    crate::ErrorView,
>
    decreases toks.len() - j, 15int,
{
    if !(0 <= j < toks.len()) || toks[j].kind == TokenKindView::RBrace {
        Result::Ok((acc, j))
    } else {
        match spec_parse_definition(toks, j) {
            Result::Ok(p) => if p.1 <= j || p.1 > toks.len() {
                Result::Err(crate::ErrorView::InternalError)
            } else {
                spec_parse_defs_until(toks, p.1, acc.push(p.0))
            },
            Result::Err(e) => Result::Err(e),
        }
    }
}

/// What parsing `module <name> { definition* }` yields.
pub open spec fn spec_parse_module_dcl(toks: Seq<TokenView>, i: int) -> Result<
    (NodeView, int),
    crate::ErrorView,
>
    decreases toks.len() - i, 12int,
{
    match spec_parse_identifier(toks, i + 1) {
        Result::Ok(idp) => if !(idp.1 < toks.len() && toks[idp.1].kind == TokenKindView::LBrace) {
            Result::Err(spec_syntax_error("expected '{'"@, spec_err_pos(toks, idp.1)))
        } else if idp.1 <= i {
            Result::Err(crate::ErrorView::InternalError)
        } else {
            match spec_parse_defs_until(toks, idp.1 + 1, seq![idp.0]) {
                Result::Ok(dp) => if dp.1 < toks.len() && toks[dp.1].kind
                    == TokenKindView::RBrace {
                    Result::Ok(
                        (spec_node(RuleTag::ModuleDcl, Seq::<char>::empty(), dp.0), dp.1 + 1),
                    )
                } else {
                    Result::Err(spec_syntax_error("expected '}'"@, spec_err_pos(toks, dp.1)))
                },
                Result::Err(e) => Result::Err(e),
            }
        },
        Result::Err(e) => Result::Err(e),
    }
}

/// What parsing `typedef <type> <declarators>` yields.
pub open spec fn spec_parse_type_declarator(toks: Seq<TokenView>, i: int) -> Result<
    (NodeView, int),
    crate::ErrorView,
>
    decreases toks.len() - i, 12int,
{
    match spec_parse_type_spec(toks, i + 1) {
        Result::Ok(tp) => if tp.1 <= i {
            Result::Err(crate::ErrorView::InternalError)
        } else {
            match spec_parse_declarators(toks, tp.1) {
                Result::Ok(dp) => Result::Ok(
                    (
                        spec_node(
                            RuleTag::TypeDeclarator,
                            Seq::<char>::empty(),
                            seq![tp.0, dp.0],
                        ),
                        dp.1,
                    ),
                ),
                Result::Err(e) => Result::Err(e),
            }
        },
        Result::Err(e) => Result::Err(e),
    }
}

/// What parsing `const <type> <name> = <expression>` yields.
pub open spec fn spec_parse_const_dcl(toks: Seq<TokenView>, i: int) -> Result<
    (NodeView, int),
    crate::ErrorView,
>
    decreases toks.len() - i, 12int,
{
    match spec_parse_type_spec(toks, i + 1) {
        Result::Ok(tp) => if tp.1 <= i {
            Result::Err(crate::ErrorView::InternalError)
        } else {
            match spec_parse_identifier(toks, tp.1) {
                Result::Ok(idp) => if !(idp.1 < toks.len() && toks[idp.1].kind
                    == TokenKindView::Equals) {
                    Result::Err(spec_syntax_error("expected '='"@, spec_err_pos(toks, idp.1)))
                } else if idp.1 <= i {
                    Result::Err(crate::ErrorView::InternalError)
                } else {
                    match spec_parse_const_expr(toks, idp.1 + 1) {
                        Result::Ok(ep) => Result::Ok(
                            (
                                spec_node(
                                    RuleTag::ConstDcl,
                                    Seq::<char>::empty(),
                                    seq![tp.0, idp.0, ep.0],
                                ),
                                ep.1,
                            ),
                        ),
                        Result::Err(e) => Result::Err(e),
                    }
                },
                Result::Err(e) => Result::Err(e),
            }
        },
        Result::Err(e) => Result::Err(e),
    }
}

/// The labels of one union case from `j` on: the label nodes gathered, the
/// position after, and whether at least one label was seen.
pub open spec fn spec_parse_case_labels(toks: Seq<TokenView>, j: int, acc: Seq<NodeView>) -> Result<
    (Seq<NodeView>, int, bool),
    crate::ErrorView,
>
    decreases toks.len() - j, 6int,
{
    if !(0 <= j < toks.len() && (spec_is_kw(toks[j], "case"@) || spec_is_kw(toks[j], "default"@))) {
        Result::Ok((acc, j, false))
    } else if spec_is_kw(toks[j], "case"@) {
        match spec_parse_const_expr(toks, j + 1) {
            Result::Ok(p) => if !(p.1 < toks.len() && toks[p.1].kind == TokenKindView::Colon) {
                Result::Err(spec_syntax_error("expected ':'"@, spec_err_pos(toks, p.1)))
            } else if p.1 <= j {
                Result::Err(crate::ErrorView::InternalError)
            } else {
                match spec_parse_case_labels(toks, p.1 + 1, acc.push(p.0)) {
                    Result::Ok(lp) => Result::Ok((lp.0, lp.1, true)),
                    Result::Err(e) => Result::Err(e),
                }
            },
            Result::Err(e) => Result::Err(e),
        }
    } else {
        if !(j + 1 < toks.len() && toks[j + 1].kind == TokenKindView::Colon) {
            Result::Err(spec_syntax_error("expected ':'"@, spec_err_pos(toks, j + 1)))
        } else {
            match spec_parse_case_labels(toks, j + 2, acc) {
                Result::Ok(lp) => Result::Ok((lp.0, lp.1, true)),
                Result::Err(e) => Result::Err(e),
            }
        }
    }
}

/// What parsing one union case yields: a structurally traversed node.
pub open spec fn spec_parse_switch_case(toks: Seq<TokenView>, i: int) -> Result<
    (NodeView, int),
    crate::ErrorView,
>
    decreases toks.len() - i, 11int,
{
    match spec_parse_case_labels(toks, i, Seq::<NodeView>::empty()) {
        Result::Ok(lp) => if !lp.2 {
            Result::Err(spec_syntax_error("expected 'case' or 'default'"@, spec_err_pos(
                toks,
                lp.1,
            )))
        } else if !(0 <= lp.1 < toks.len()) {
            Result::Err(spec_syntax_error("expected a case element"@, spec_err_pos(toks, lp.1)))
        } else if lp.1 <= i {
            Result::Err(crate::ErrorView::InternalError)
        } else {
            match spec_parse_type_spec(toks, lp.1) {
                Result::Ok(tp) => if tp.1 <= lp.1 {
                    Result::Err(crate::ErrorView::InternalError)
                } else {
                    match spec_parse_declarator(toks, tp.1) {
                        Result::Ok(dp) => if dp.1 < toks.len() && toks[dp.1].kind
                            == TokenKindView::Semi {
                            Result::Ok(
                                (
                                    spec_node(
                                        RuleTag::Other,
                                        Seq::<char>::empty(),
                                        lp.0.push(tp.0).push(dp.0),
                                    ),
                                    dp.1 + 1,
                                ),
                            )
                        } else {
                            Result::Err(
                                spec_syntax_error("expected ';'"@, spec_err_pos(toks, dp.1)),
                            )
                        },
                        Result::Err(e) => Result::Err(e),
                    }
                },
                Result::Err(e) => Result::Err(e),
            }
        },
        Result::Err(e) => Result::Err(e),
    }
}

/// The cases of a union body up to the closing brace.
pub open spec fn spec_parse_cases_until(toks: Seq<TokenView>, j: int, acc: Seq<NodeView>) -> Result<
    (Seq<NodeView>, int),
    crate::ErrorView,
>
    decreases toks.len() - j, 12int,
{
    if !(0 <= j < toks.len()) || toks[j].kind == TokenKindView::RBrace {
        Result::Ok((acc, j))
    } else {
        match spec_parse_switch_case(toks, j) {
            Result::Ok(p) => if p.1 <= j || p.1 > toks.len() {
                Result::Err(crate::ErrorView::InternalError)
            } else {
                spec_parse_cases_until(toks, p.1, acc.push(p.0))
            },
            Result::Err(e) => Result::Err(e),
        }
    }
}

/// What parsing `union <name> switch ( <type> ) { case* }` yields.
pub open spec fn spec_parse_union_def(toks: Seq<TokenView>, i: int) -> Result<
    (NodeView, int),
    crate::ErrorView,
>
    decreases toks.len() - i, 13int,
{
    match spec_parse_identifier(toks, i + 1) {
        Result::Ok(idp) => if !(idp.1 < toks.len() && spec_is_kw(toks[idp.1], "switch"@)) {
            Result::Err(spec_syntax_error("expected 'switch'"@, spec_err_pos(toks, idp.1)))
        } else if !(idp.1 + 1 < toks.len() && toks[idp.1 + 1].kind == TokenKindView::LParen) {
            Result::Err(spec_syntax_error("expected '('"@, spec_err_pos(toks, idp.1 + 1)))
        } else if idp.1 <= i {
            Result::Err(crate::ErrorView::InternalError)
        } else {
            match spec_parse_type_spec(toks, idp.1 + 2) {
                Result::Ok(dp) => if !(dp.1 < toks.len() && toks[dp.1].kind
                    == TokenKindView::RParen) {
                    Result::Err(spec_syntax_error("expected ')'"@, spec_err_pos(toks, dp.1)))
                } else if !(dp.1 + 1 < toks.len() && toks[dp.1 + 1].kind
                    == TokenKindView::LBrace) {
                    Result::Err(spec_syntax_error("expected '{'"@, spec_err_pos(toks, dp.1 + 1)))
                } else if dp.1 <= i {
                    Result::Err(crate::ErrorView::InternalError)
                } else {
                    match spec_parse_cases_until(toks, dp.1 + 2, seq![idp.0, dp.0]) {
                        Result::Ok(cp) => if cp.1 < toks.len() && toks[cp.1].kind
                            == TokenKindView::RBrace {
                            Result::Ok(
                                (
                                    spec_node(RuleTag::UnionDef, Seq::<char>::empty(), cp.0),
                                    cp.1 + 1,
                                ),
                            )
                        } else {
                            Result::Err(
                                spec_syntax_error("expected '}'"@, spec_err_pos(toks, cp.1)),
                            )
                        },
                        Result::Err(e) => Result::Err(e),
                    }
                },
                Result::Err(e) => Result::Err(e),
            }
        },
        Result::Err(e) => Result::Err(e),
    }
}

/// What parsing one definition and its terminating semicolon yields.
pub open spec fn spec_parse_definition(toks: Seq<TokenView>, i: int) -> Result<
    (NodeView, int),
    crate::ErrorView,
>
    decreases toks.len() - i, 14int,
{
    if !(0 <= i < toks.len()) {
        Result::Err(crate::ErrorView::InternalError)
    } else {
        let t = toks[i];
        let inner = if spec_is_kw(t, "module"@) {
            spec_parse_module_dcl(toks, i)
        } else if spec_is_kw(t, "struct"@) {
            spec_parse_struct_def(toks, i)
        } else if spec_is_kw(t, "union"@) {
            spec_parse_union_def(toks, i)
        } else if spec_is_kw(t, "typedef"@) {
            spec_parse_type_declarator(toks, i)
        } else if spec_is_kw(t, "const"@) {
            spec_parse_const_dcl(toks, i)
        } else {
            Result::Err(spec_syntax_error("expected a declaration"@, spec_err_pos(toks, i)))
        };
        match inner {
            Result::Ok(p) => if p.1 < toks.len() && toks[p.1].kind == TokenKindView::Semi {
                Result::Ok((p.0, p.1 + 1))
            } else {
                Result::Err(spec_syntax_error("expected ';'"@, spec_err_pos(toks, p.1)))
            },
            Result::Err(e) => Result::Err(e),
        }
    }
}

/// The definitions of a whole compilation unit from `i` on.
pub open spec fn spec_parse_unit_from(toks: Seq<TokenView>, i: int, acc: Seq<NodeView>) -> Result<
    Seq<NodeView>,
    crate::ErrorView,
>
    decreases toks.len() - i, 16int,
{
    if !(0 <= i < toks.len()) {
        Result::Ok(acc)
    } else {
        match spec_parse_definition(toks, i) {
            Result::Ok(p) => if p.1 <= i || p.1 > toks.len() {
                Result::Err(crate::ErrorView::InternalError)
            } else {
                spec_parse_unit_from(toks, p.1, acc.push(p.0))
            },
            Result::Err(e) => Result::Err(e),
        }
    }
}

/// What parsing a whole compilation unit from source text yields: the lexed
/// token sequence parsed as a definition list, or the first error.
pub open spec fn spec_parse_specification(text: Seq<char>) -> Result<
    Seq<NodeView>,
    crate::ErrorView,
> {
    match spec_tokenize(text) {
        Result::Ok(toks) => spec_parse_unit_from(toks, 0, Seq::<NodeView>::empty()),
        Result::Err(e) => Result::Err(e),
    }
}

/// The view of a node-and-position parsing result.
pub open spec fn ppair_res(r: Result<(ParseNode, usize), IdlError>) -> Result<
    (NodeView, int),
    crate::ErrorView,
> {
    match r {
        Result::Ok(p) => Result::Ok((p.0@, p.1 as int)),
        Result::Err(e) => Result::Err(e@),
    }
}

} // verus!
