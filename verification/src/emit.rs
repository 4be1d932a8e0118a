//! Code emitter: serializes the declaration model into Rust source text.
//! Every `write` method appends to its output buffer exactly the text given by
//! the corresponding spec-level rendering function, so the emitted form of a
//! model value is pinned down completely by the contracts.
use vstd::prelude::*;

use crate::ast::{
    BinaryOp, ConstDclView, IdlConstDcl, IdlModule, IdlScopedName, IdlStructMember, IdlSwitchCase,
    IdlSwitchElement, IdlTypeDcl, IdlTypeDclKind, IdlTypeSpec, IdlValueExpr, ModuleView, ScopedNameView,
    StructMemberView, SwitchCaseView, TypeDclKindView, TypeSpecView, UnaryOp, ValueExprView,
    module_wf, type_dcl_wf, type_spec_wf, value_expr_view,
};

verus! {

use vstd::string::StringExecFns;

/// Indentation text for one nesting level: four spaces per level.
pub open spec fn spec_indent(level: nat) -> Seq<char> {
    Seq::new(4 * level, |i: int| ' ')
}

proof fn lemma_indent_step(level: nat)
    ensures
        spec_indent(level + 1) == spec_indent(level) + "    "@,
{
    reveal_strlit("    ");
    assert(spec_indent(level + 1) =~= spec_indent(level) + "    "@);
}

/// Builds the indentation text for the given nesting level.
pub fn make_indent(level: usize) -> (s: String)
    ensures
        s@ == spec_indent(level as nat),
{
    let mut s = String::new();
    let mut i: usize = 0;
    while i < level
        invariant
            i <= level,
            s@ == spec_indent(i as nat),
        decreases level - i,
    {
        s.append("    ");
        proof {
            lemma_indent_step(i as nat);
        }
        i = i + 1;
    }
    s
}

/// Extends an indentation text by one more level.
pub fn deepen_indent(ind: &String) -> (s: String)
    ensures
        s@ == ind@ + "    "@,
{
    let mut s = ind.clone();
    s.append("    ");
    s
}

/// The operator symbol emitted for a unary operator.
pub open spec fn unary_op_text(op: UnaryOp) -> Seq<char> {
    match op {
        UnaryOp::Neg => "-"@,
        UnaryOp::Pos => "+"@,
        UnaryOp::Inverse => "~"@,
    }
}

/// The operator symbol emitted for a binary operator.
pub open spec fn binary_op_text(op: BinaryOp) -> Seq<char> {
    match op {
        BinaryOp::Add => "+"@,
        BinaryOp::Sub => "-"@,
        BinaryOp::Mul => "*"@,
        BinaryOp::Div => "/"@,
        BinaryOp::Mod => "%"@,
        BinaryOp::LShift => "<<"@,
        BinaryOp::RShift => ">>"@,
        BinaryOp::Or => "|"@,
        BinaryOp::Xor => "^"@,
        BinaryOp::And => "&"@,
    }
}

impl UnaryOp {
    /// Appends the operator symbol, unevaluated.
    pub fn write(&self, out: &mut String)
        ensures
            final(out)@ == old(out)@ + unary_op_text(*self),
    {
        match self {
            UnaryOp::Neg => out.append("-"),
            UnaryOp::Pos => out.append("+"),
            UnaryOp::Inverse => out.append("~"),
        }
    }
}

impl BinaryOp {
    /// Appends the operator symbol, unevaluated.
    pub fn write(&self, out: &mut String)
        ensures
            final(out)@ == old(out)@ + binary_op_text(*self),
    {
        match self {
            BinaryOp::Add => out.append("+"),
            BinaryOp::Sub => out.append("-"),
            BinaryOp::Mul => out.append("*"),
            BinaryOp::Div => out.append("/"),
            BinaryOp::Mod => out.append("%"),
            BinaryOp::LShift => out.append("<<"),
            BinaryOp::RShift => out.append(">>"),
            BinaryOp::Or => out.append("|"),
            BinaryOp::Xor => out.append("^"),
            BinaryOp::And => out.append("&"),
        }
    }
}

/// Rendered text of the name segments from position `i` on: the first segment
/// is bare, or rooted at `crate::` when the name is absolute; every later
/// segment is preceded by `::`.
pub open spec fn scoped_name_text_from(n: ScopedNameView, i: int) -> Seq<char>
    decreases n.parts.len() - i,
{
    if i < 0 || i >= n.parts.len() {
        Seq::<char>::empty()
    } else {
        let head = if i == 0 {
            if n.absolute {
                "crate::"@ + n.parts[0]
            } else {
                n.parts[0]
            }
        } else {
            "::"@ + n.parts[i]
        };
        head + scoped_name_text_from(n, i + 1)
    }
}

/// Rendered text of a scoped name.
pub open spec fn scoped_name_text(n: ScopedNameView) -> Seq<char> {
    scoped_name_text_from(n, 0)
}

impl IdlScopedName {
    /// Appends the qualified path form of this name.
    pub fn write(&self, out: &mut String)
        ensures
            final(out)@ == old(out)@ + scoped_name_text(self@),
    {
        let n = self.0.len();
        let mut i: usize = 0;
        while i < n
            invariant
                n == self.0.len(),
                i <= n,
                out@ + scoped_name_text_from(self@, i as int) == old(out)@ + scoped_name_text(
                    self@,
                ),
            decreases n - i,
        {
            let ghost pre = out@;
            if i == 0 && !self.1 {
                out.append(self.0[i].as_str());
            } else if i == 0 && self.1 {
                out.append("crate::");
                out.append(self.0[i].as_str());
            } else {
                out.append("::");
                out.append(self.0[i].as_str());
            }
            proof {
                let ghost head = if i == 0 {
                    if self@.absolute {
                        "crate::"@ + self@.parts[0]
                    } else {
                        self@.parts[0]
                    }
                } else {
                    "::"@ + self@.parts[i as int]
                };
                assert(out@ =~= pre + head);
                assert(out@ + scoped_name_text_from(self@, i + 1) =~= pre + scoped_name_text_from(
                    self@,
                    i as int,
                ));
            }
            i = i + 1;
        }
        proof {
            assert(out@ + scoped_name_text_from(self@, n as int) =~= out@);
        }
    }
}

/// Rendered text of an optional literal part, empty when absent.
pub open spec fn opt_part_text(o: Option<Seq<char>>) -> Seq<char> {
    match o {
        Option::Some(s) => s,
        Option::None => Seq::<char>::empty(),
    }
}

/// Rendered text of an optional literal part with a leading marker, empty when
/// absent.
pub open spec fn opt_part_text_pre(prefix: Seq<char>, o: Option<Seq<char>>) -> Seq<char> {
    match o {
        Option::Some(s) => prefix + s,
        Option::None => Seq::<char>::empty(),
    }
}

/// Rendered text of a constant expression: literal text and operator symbols
/// verbatim, in source structure, with no arithmetic folding.
pub open spec fn value_expr_text(e: ValueExprView) -> Seq<char>
    decreases e,
{
    match e {
        ValueExprView::Empty => Seq::<char>::empty(),
        ValueExprView::DecLiteral(s) => s,
        ValueExprView::HexLiteral(s) => s,
        ValueExprView::OctLiteral(s) => s,
        ValueExprView::CharLiteral(s) => s,
        ValueExprView::WideCharLiteral(s) => s,
        ValueExprView::StringLiteral(s) => s,
        ValueExprView::WideStringLiteral(s) => s,
        ValueExprView::BooleanLiteral(b) => if b {
            "true"@
        } else {
            "false"@
        },
        ValueExprView::FloatLiteral(i, f, ex, su) => opt_part_text(i) + opt_part_text_pre(
            "."@,
            f,
        ) + opt_part_text_pre("e"@, ex) + opt_part_text(su),
        ValueExprView::UnaryOp(op, sub) => unary_op_text(op) + value_expr_text(*sub),
        ValueExprView::BinaryOp(op, sub) => binary_op_text(op) + value_expr_text(*sub),
        ValueExprView::Expr(a, b) => value_expr_text(*a) + value_expr_text(*b),
        ValueExprView::Brace(sub) => "("@ + value_expr_text(*sub) + ")"@,
        ValueExprView::ScopedName(n) => scoped_name_text(n),
    }
}

impl IdlValueExpr {
    /// Appends the expression text verbatim: operator symbols round-trip
    /// unevaluated, literals keep their source spelling.
    pub fn write(&self, out: &mut String)
        ensures
            final(out)@ == old(out)@ + value_expr_text(self@),
        decreases *self,
    {
        match self {
            IdlValueExpr::Empty => {
            },
            IdlValueExpr::DecLiteral(s) => out.append(s.as_str()),
            IdlValueExpr::HexLiteral(s) => out.append(s.as_str()),
            IdlValueExpr::OctLiteral(s) => out.append(s.as_str()),
            IdlValueExpr::CharLiteral(s) => out.append(s.as_str()),
            IdlValueExpr::WideCharLiteral(s) => out.append(s.as_str()),
            IdlValueExpr::StringLiteral(s) => out.append(s.as_str()),
            IdlValueExpr::WideStringLiteral(s) => out.append(s.as_str()),
            IdlValueExpr::BooleanLiteral(b) => {
                if *b {
                    out.append("true");
                } else {
                    out.append("false");
                }
            },
            IdlValueExpr::FloatLiteral(i, f, ex, su) => {
                match i {
                    Option::Some(s) => out.append(s.as_str()),
                    Option::None => {
                    },
                }
                match f {
                    Option::Some(s) => {
                        out.append(".");
                        out.append(s.as_str());
                    },
                    Option::None => {
                    },
                }
                match ex {
                    Option::Some(s) => {
                        out.append("e");
                        out.append(s.as_str());
                    },
                    Option::None => {
                    },
                }
                match su {
                    Option::Some(s) => out.append(s.as_str()),
                    Option::None => {
                    },
                }
                proof {
                    assert(final(out)@ =~= old(out)@ + value_expr_text(self@));
                }
            },
            IdlValueExpr::UnaryOp(op, sub) => {
                op.write(out);
                (&**sub).write(out);
                proof {
                    assert(final(out)@ =~= old(out)@ + value_expr_text(self@));
                }
            },
            IdlValueExpr::BinaryOp(op, sub) => {
                op.write(out);
                (&**sub).write(out);
                proof {
                    assert(final(out)@ =~= old(out)@ + value_expr_text(self@));
                }
            },
            IdlValueExpr::Expr(a, b) => {
                (&**a).write(out);
                (&**b).write(out);
                proof {
                    assert(final(out)@ =~= old(out)@ + value_expr_text(self@));
                }
            },
            IdlValueExpr::Brace(sub) => {
                out.append("(");
                (&**sub).write(out);
                out.append(")");
                proof {
                    assert(final(out)@ =~= old(out)@ + value_expr_text(self@));
                }
            },
            IdlValueExpr::ScopedName(n) => n.write(out),
        }
    }
}

/// The opening brackets of an array type, one per dimension.
pub open spec fn brackets_text(n: nat) -> Seq<char> {
    Seq::new(n, |i: int| '[')
}

proof fn lemma_brackets_step(n: nat)
    ensures
        brackets_text(n + 1) == brackets_text(n) + "["@,
{
    reveal_strlit("[");
    assert(brackets_text(n + 1) =~= brackets_text(n) + "["@);
}

/// Rendered text of the array dimensions from position `i` on: each dimension
/// closes one bracket level with its unevaluated size expression.
pub open spec fn dims_text_from(dims: Seq<ValueExprView>, i: int) -> Seq<char>
    decreases dims.len() - i,
{
    if i < 0 || i >= dims.len() {
        Seq::<char>::empty()
    } else {
        ";"@ + value_expr_text(dims[i]) + "]"@ + dims_text_from(dims, i + 1)
    }
}

/// The fixed mapping from a type specification to host source text: primitive
/// keywords map to fixed host types, sequences to `Vec`, arrays to one nested
/// fixed-size level per dimension with the dimension text unevaluated, string
/// bounds are accepted but not enforced in the mapped representation.
pub open spec fn type_spec_text(t: TypeSpecView) -> Seq<char>
    decreases t,
{
    match t {
        TypeSpecView::Empty => Seq::<char>::empty(),
        TypeSpecView::F32Type => "f32"@,
        TypeSpecView::F64Type => "f64"@,
        TypeSpecView::F128Type => "f128"@,
        TypeSpecView::I16Type => "i16"@,
        TypeSpecView::I32Type => "i32"@,
        TypeSpecView::I64Type => "i64"@,
        TypeSpecView::U16Type => "u16"@,
        TypeSpecView::U32Type => "u32"@,
        TypeSpecView::U64Type => "u64"@,
        TypeSpecView::CharType => "char"@,
        TypeSpecView::WideCharType => "char"@,
        TypeSpecView::BooleanType => "bool"@,
        TypeSpecView::OctetType => "u8"@,
        TypeSpecView::StringType(_) => "String"@,
        TypeSpecView::WideStringType(_) => "String"@,
        TypeSpecView::SequenceType(elem, _) => "Vec<"@ + type_spec_text(*elem) + ">"@,
        TypeSpecView::ArrayType(elem, dims) => brackets_text(dims.len()) + type_spec_text(*elem)
            + dims_text_from(dims, 0),
        TypeSpecView::ScopedName(n) => scoped_name_text(n),
    }
}

impl IdlTypeSpec {
    /// Appends the mapped host type text.
    pub fn write(&self, out: &mut String)
        requires
            type_spec_wf(self@),
        ensures
            final(out)@ == old(out)@ + type_spec_text(self@),
        decreases *self,
    {
        match self {
            IdlTypeSpec::Empty => {
            },
            IdlTypeSpec::F32Type => out.append("f32"),
            IdlTypeSpec::F64Type => out.append("f64"),
            IdlTypeSpec::F128Type => out.append("f128"),
            IdlTypeSpec::I16Type => out.append("i16"),
            IdlTypeSpec::I32Type => out.append("i32"),
            IdlTypeSpec::I64Type => out.append("i64"),
            IdlTypeSpec::U16Type => out.append("u16"),
            IdlTypeSpec::U32Type => out.append("u32"),
            IdlTypeSpec::U64Type => out.append("u64"),
            IdlTypeSpec::CharType => out.append("char"),
            IdlTypeSpec::WideCharType => out.append("char"),
            IdlTypeSpec::BooleanType => out.append("bool"),
            IdlTypeSpec::OctetType => out.append("u8"),
            IdlTypeSpec::StringType(_) => out.append("String"),
            IdlTypeSpec::WideStringType(_) => out.append("String"),
            IdlTypeSpec::SequenceType(elem, _) => {
                out.append("Vec<");
                (&**elem).write(out);
                out.append(">");
                proof {
                    assert(final(out)@ =~= old(out)@ + type_spec_text(self@));
                }
            },
            IdlTypeSpec::ArrayType(elem, dims) => {
                let n = dims.len();
                let mut i: usize = 0;
                while i < n
                    invariant
                        n == dims@.len(),
                        i <= n,
                        out@ == old(out)@ + brackets_text(i as nat),
                    decreases n - i,
                {
                    out.append("[");
                    proof {
                        lemma_brackets_step(i as nat);
                        assert(out@ =~= old(out)@ + brackets_text((i + 1) as nat));
                    }
                    i = i + 1;
                }
                (&**elem).write(out);
                let ghost dv = Seq::new(dims@.len(), |k: int| value_expr_view(*dims@[k]));
                let ghost mid = out@;
                let mut j: usize = 0;
                while j < n
                    invariant
                        n == dims@.len(),
                        j <= n,
                        dv == Seq::new(dims@.len(), |k: int| value_expr_view(*dims@[k])),
                        out@ + dims_text_from(dv, j as int) == mid + dims_text_from(dv, 0),
                    decreases n - j,
                {
                    let ghost pre = out@;
                    out.append(";");
                    (&dims[j]).write(out);
                    out.append("]");
                    proof {
                        assert(out@ =~= pre + (";"@ + value_expr_text(dv[j as int]) + "]"@));
                        assert(out@ + dims_text_from(dv, j + 1) =~= pre + dims_text_from(
                            dv,
                            j as int,
                        ));
                    }
                    j = j + 1;
                }
                proof {
                    assert(out@ + dims_text_from(dv, n as int) =~= out@);
                    assert(final(out)@ =~= old(out)@ + type_spec_text(self@));
                }
            },
            IdlTypeSpec::ScopedName(n) => n.write(out),
        }
    }
}

/// Rendered text of one struct member line.
pub open spec fn struct_member_text(m: StructMemberView, ind: Seq<char>) -> Seq<char> {
    ind + m.id + ": "@ + type_spec_text(m.type_spec) + ",\n"@
}

/// Rendered text of the struct members from position `i` on, in declaration
/// order.
pub open spec fn members_text_from(ms: Seq<StructMemberView>, ind: Seq<char>, i: int) -> Seq<char>
    decreases ms.len() - i,
{
    if i < 0 || i >= ms.len() {
        Seq::<char>::empty()
    } else {
        struct_member_text(ms[i], ind) + members_text_from(ms, ind, i + 1)
    }
}

impl IdlStructMember {
    /// Appends one field line: identifier, mapped type, trailing comma.
    pub fn write(&self, out: &mut String, level: usize)
        requires
            type_spec_wf(self@.type_spec),
        ensures
            final(out)@ == old(out)@ + struct_member_text(self@, spec_indent(level as nat)),
    {
        let ind = make_indent(level);
        self.write_ind(out, &ind);
    }

    fn write_ind(&self, out: &mut String, ind: &String)
        requires
            type_spec_wf(self@.type_spec),
        ensures
            final(out)@ == old(out)@ + struct_member_text(self@, ind@),
    {
        out.append(ind.as_str());
        out.append(self.id.as_str());
        out.append(": ");
        (&*self.type_spec).write(out);
        out.append(",\n");
        proof {
            assert(final(out)@ =~= old(out)@ + struct_member_text(self@, ind@));
        }
    }
}

impl IdlSwitchElement {
    /// Appends one union element line: identifier, mapped type, trailing
    /// comma.
    pub fn write(&self, out: &mut String, level: usize)
        requires
            type_spec_wf(self@.type_spec),
        ensures
            final(out)@ == old(out)@ + spec_indent(level as nat) + self@.id + ": "@
                + type_spec_text(self@.type_spec) + ",\n"@,
    {
        let ind = make_indent(level);
        out.append(ind.as_str());
        out.append(self.id.as_str());
        out.append(": ");
        (&*self.type_spec).write(out);
        out.append(",\n");
        proof {
            assert(final(out)@ =~= old(out)@ + spec_indent(level as nat) + self@.id + ": "@
                + type_spec_text(self@.type_spec) + ",\n"@);
        }
    }
}

impl IdlSwitchCase {
    /// Union cases are recognized syntactically but not yet lowered: emission
    /// appends nothing.
    pub fn write(&self, out: &mut String, level: usize)
        ensures
            final(out)@ == old(out)@,
    {
    }
}

/// The comment frame and warning-suppression attributes that precede every
/// type declaration.
pub open spec fn dcl_attrs_text(ind: Seq<char>) -> Seq<char> {
    "\n"@ + ind + "//\n"@ + ind + "//\n"@ + ind + "#[allow(dead_code)]\n"@ + ind
        + "#[allow(non_camel_case_types)]\n"@
}

/// The derive attributes emitted for struct and union declarations.
pub open spec fn derive_attrs_text(ind: Seq<char>) -> Seq<char> {
    ind + "#[derive(Serialize, Deserialize)]\n"@ + ind + "#[derive(Clone, Debug)]\n"@
}

/// Rendered text of a type declaration: an alias line, a struct with one
/// field line per member, or a union placeholder body.
pub open spec fn type_dcl_text(k: TypeDclKindView, ind: Seq<char>) -> Seq<char> {
    match k {
        TypeDclKindView::Empty => Seq::<char>::empty(),
        TypeDclKindView::TypeDcl(id, t) => dcl_attrs_text(ind) + ind + "pub type "@ + id + " = "@
            + type_spec_text(t) + ";\n"@,
        TypeDclKindView::StructDcl(id, ms) => dcl_attrs_text(ind) + derive_attrs_text(ind) + ind
            + "pub struct "@ + id + " {\n"@ + members_text_from(ms, ind + "    "@, 0) + ind
            + "}\n"@,
        TypeDclKindView::UnionDcl(id, _, _) => dcl_attrs_text(ind) + derive_attrs_text(ind) + ind
            + "pub enum "@ + id + " {\n"@ + ind + "}\n"@ + ind + "//\n"@ + ind
            + "// TODO custom de-/serializer\n"@ + ind + "//\n"@,
    }
}

fn write_dcl_attrs(out: &mut String, ind: &String)
    ensures
        final(out)@ == old(out)@ + dcl_attrs_text(ind@),
{
    out.append("\n");
    out.append(ind.as_str());
    out.append("//\n");
    out.append(ind.as_str());
    out.append("//\n");
    out.append(ind.as_str());
    out.append("#[allow(dead_code)]\n");
    out.append(ind.as_str());
    out.append("#[allow(non_camel_case_types)]\n");
    proof {
        assert(final(out)@ =~= old(out)@ + dcl_attrs_text(ind@));
    }
}

fn write_derive_attrs(out: &mut String, ind: &String)
    ensures
        final(out)@ == old(out)@ + derive_attrs_text(ind@),
{
    out.append(ind.as_str());
    out.append("#[derive(Serialize, Deserialize)]\n");
    out.append(ind.as_str());
    out.append("#[derive(Clone, Debug)]\n");
    proof {
        assert(final(out)@ =~= old(out)@ + derive_attrs_text(ind@));
    }
}

impl IdlTypeDcl {
    /// Appends the declaration at the given nesting level, under the fixed
    /// layout of the emitter.
    pub fn write(&self, out: &mut String, level: usize)
        requires
            type_dcl_wf(self@),
        ensures
            final(out)@ == old(out)@ + type_dcl_text(self@, spec_indent(level as nat)),
    {
        let ind = make_indent(level);
        self.write_ind(out, &ind);
    }

    fn write_ind(&self, out: &mut String, ind: &String)
        requires
            type_dcl_wf(self@),
        ensures
            final(out)@ == old(out)@ + type_dcl_text(self@, ind@),
    {
        match &self.0 {
            IdlTypeDclKind::Empty => {
            },
            IdlTypeDclKind::TypeDcl(id, type_spec) => {
                write_dcl_attrs(out, ind);
                out.append(ind.as_str());
                out.append("pub type ");
                out.append(id.as_str());
                out.append(" = ");
                (&**type_spec).write(out);
                out.append(";\n");
                proof {
                    assert(final(out)@ =~= old(out)@ + type_dcl_text(self@, ind@));
                }
            },
            IdlTypeDclKind::StructDcl(id, members) => {
                write_dcl_attrs(out, ind);
                write_derive_attrs(out, ind);
                out.append(ind.as_str());
                out.append("pub struct ");
                out.append(id.as_str());
                out.append(" {\n");
                let ind2 = deepen_indent(ind);
                let ghost ms = Seq::new(members@.len(), |i: int| members@[i].view());
                let ghost mid = out@;
                let n = members.len();
                let mut j: usize = 0;
                while j < n
                    invariant
                        n == members@.len(),
                        j <= n,
                        ms == Seq::new(members@.len(), |i: int| members@[i].view()),
                        forall|i: int| 0 <= i < ms.len() ==> type_spec_wf(#[trigger] ms[i].type_spec),
                        ind2@ == ind@ + "    "@,
                        out@ + members_text_from(ms, ind2@, j as int) == mid + members_text_from(
                            ms,
                            ind2@,
                            0,
                        ),
                    decreases n - j,
                {
                    let ghost pre = out@;
                    let mb: &IdlStructMember = &members[j];
                    mb.write_ind(out, &ind2);
                    proof {
                        assert(out@ + members_text_from(ms, ind2@, j + 1) =~= pre
                            + members_text_from(ms, ind2@, j as int));
                    }
                    j = j + 1;
                }
                out.append(ind.as_str());
                out.append("}\n");
                proof {
                    assert(final(out)@ =~= old(out)@ + type_dcl_text(self@, ind@));
                }
            },
            IdlTypeDclKind::UnionDcl(id, _disc, cases) => {
                write_dcl_attrs(out, ind);
                write_derive_attrs(out, ind);
                out.append(ind.as_str());
                out.append("pub enum ");
                out.append(id.as_str());
                out.append(" {\n");
                out.append(ind.as_str());
                out.append("}\n");
                out.append(ind.as_str());
                out.append("//\n");
                out.append(ind.as_str());
                out.append("// TODO custom de-/serializer\n");
                out.append(ind.as_str());
                out.append("//\n");
                proof {
                    assert(final(out)@ =~= old(out)@ + type_dcl_text(self@, ind@));
                }
            },
        }
    }
}

/// Rendered text of one constant declaration:
/// `const <name>: <mapped type> = <expression text>;`.
pub open spec fn const_dcl_text(c: ConstDclView, ind: Seq<char>) -> Seq<char> {
    ind + "#[allow(dead_code)]\n"@ + ind + "const "@ + c.id + ": "@ + type_spec_text(c.typedcl)
        + " = "@ + value_expr_text(c.value) + ";\n"@
}

impl IdlConstDcl {
    /// Appends the constant declaration; the initializer text is emitted
    /// verbatim, never folded.
    pub fn write(&self, out: &mut String, level: usize)
        requires
            type_spec_wf(self@.typedcl),
        ensures
            final(out)@ == old(out)@ + const_dcl_text(self@, spec_indent(level as nat)),
    {
        let ind = make_indent(level);
        self.write_ind(out, &ind);
    }

    fn write_ind(&self, out: &mut String, ind: &String)
        requires
            type_spec_wf(self@.typedcl),
        ensures
            final(out)@ == old(out)@ + const_dcl_text(self@, ind@),
    {
        out.append(ind.as_str());
        out.append("#[allow(dead_code)]\n");
        out.append(ind.as_str());
        out.append("const ");
        out.append(self.id.as_str());
        out.append(": ");
        (&*self.typedcl).write(out);
        out.append(" = ");
        (&*self.value).write(out);
        out.append(";\n");
        proof {
            assert(final(out)@ =~= old(out)@ + const_dcl_text(self@, ind@));
        }
    }
}

/// The scope-opening lines of a named module; the unnamed root opens nothing.
pub open spec fn module_prolog_text(m: ModuleView, ind: Seq<char>) -> Seq<char> {
    match m.id {
        Option::Some(id) => ind + "#[allow(non_snake_case)]\n"@ + ind + "mod "@ + id + " {\n"@,
        Option::None => Seq::<char>::empty(),
    }
}

/// The scope-closing line of a named module; the unnamed root closes nothing.
pub open spec fn module_epilog_text(m: ModuleView, ind: Seq<char>) -> Seq<char> {
    match m.id {
        Option::Some(_) => ind + "}\n"@,
        Option::None => Seq::<char>::empty(),
    }
}

/// The indentation of a module's own declarations: one level deeper than the
/// scope delimiters for a named module, unchanged for the unnamed root.
pub open spec fn module_inner_ind(m: ModuleView, ind: Seq<char>) -> Seq<char> {
    if m.id is Some {
        ind + "    "@
    } else {
        ind
    }
}

/// The per-scope decoration preamble, emitted once by every module.
pub open spec fn module_preamble_text(ind: Seq<char>) -> Seq<char> {
    ind + "#[allow(unused_imports)]\n"@ + ind + "use serde_derive::{Serialize, Deserialize};\n"@
}

/// Rendered text of the registered type declarations from position `i` on,
/// in first-insertion order.
pub open spec fn types_text_from(
    ts: Seq<(Seq<char>, TypeDclKindView)>,
    ind: Seq<char>,
    i: int,
) -> Seq<char>
    decreases ts.len() - i,
{
    if i < 0 || i >= ts.len() {
        Seq::<char>::empty()
    } else {
        type_dcl_text(ts[i].1, ind) + types_text_from(ts, ind, i + 1)
    }
}

/// Rendered text of the registered constants from position `i` on, in
/// first-insertion order.
pub open spec fn consts_text_from(
    cs: Seq<(Seq<char>, ConstDclView)>,
    ind: Seq<char>,
    i: int,
) -> Seq<char>
    decreases cs.len() - i,
{
    if i < 0 || i >= cs.len() {
        Seq::<char>::empty()
    } else {
        const_dcl_text(cs[i].1, ind) + consts_text_from(cs, ind, i + 1)
    }
}

/// Rendered text of the submodules from position `i` on, in first-insertion
/// order, each at the given indentation.
pub open spec fn modules_text_from(
    mods: Seq<(Seq<char>, ModuleView)>,
    ind: Seq<char>,
    i: int,
) -> Seq<char>
    decreases mods, mods.len() - i,
{
    if i < 0 || i >= mods.len() {
        Seq::<char>::empty()
    } else {
        module_text(mods[i].1, ind) + modules_text_from(mods, ind, i + 1)
    }
}

/// Rendered text of a whole module subtree: scope delimiters around a fixed
/// body order of preamble, then all type declarations, then all submodules,
/// then all constants, regardless of the order the source declared them in.
pub open spec fn module_text(m: ModuleView, ind: Seq<char>) -> Seq<char>
    decreases m, 0int,
{
    let inner = module_inner_ind(m, ind);
    module_prolog_text(m, ind) + module_preamble_text(inner) + types_text_from(m.types, inner, 0)
        + modules_text_from(m.modules, inner, 0) + consts_text_from(m.constants, inner, 0)
        + module_epilog_text(m, ind)
}


/// The keyed-entry views of the registered type declarations.
pub open spec fn type_entries_view(v: Seq<(String, IdlTypeDcl)>) -> Seq<
    (Seq<char>, TypeDclKindView),
> {
    Seq::new(v.len(), |i: int| (v[i].0@, v[i].1@))
}

/// The keyed-entry views of the registered constants.
pub open spec fn const_entries_view(v: Seq<(String, IdlConstDcl)>) -> Seq<
    (Seq<char>, ConstDclView),
> {
    Seq::new(v.len(), |i: int| (v[i].0@, v[i].1@))
}

fn write_types(v: &Vec<(String, IdlTypeDcl)>, out: &mut String, ind: &String)
    requires
        forall|i: int|
            0 <= i < v@.len() ==> type_dcl_wf((#[trigger] type_entries_view(v@)[i]).1),
    ensures
        final(out)@ == old(out)@ + types_text_from(type_entries_view(v@), ind@, 0),
{
    let ghost tys = type_entries_view(v@);
    let n = v.len();
    let mut j: usize = 0;
    while j < n
        invariant
            n == v@.len(),
            j <= n,
            tys == type_entries_view(v@),
            forall|i: int| 0 <= i < v@.len() ==> type_dcl_wf((#[trigger] type_entries_view(v@)[i]).1),
            out@ + types_text_from(tys, ind@, j as int) == old(out)@ + types_text_from(
                tys,
                ind@,
                0,
            ),
        decreases n - j,
    {
        let ghost pre = out@;
        let entry = &v[j];
        proof {
            assert(tys[j as int].1 == entry.1@);
            assert(type_dcl_wf(tys[j as int].1));
        }
        entry.1.write_ind(out, ind);
        proof {
            assert(out@ + types_text_from(tys, ind@, j + 1) =~= pre + types_text_from(
                tys,
                ind@,
                j as int,
            ));
        }
        j = j + 1;
    }
    proof {
        assert(out@ + types_text_from(tys, ind@, n as int) =~= out@);
    }
}

fn write_consts(v: &Vec<(String, IdlConstDcl)>, out: &mut String, ind: &String)
    requires
        forall|i: int|
            0 <= i < v@.len() ==> type_spec_wf((#[trigger] const_entries_view(v@)[i]).1.typedcl),
    ensures
        final(out)@ == old(out)@ + consts_text_from(const_entries_view(v@), ind@, 0),
{
    let ghost cons = const_entries_view(v@);
    let n = v.len();
    let mut j: usize = 0;
    while j < n
        invariant
            n == v@.len(),
            j <= n,
            cons == const_entries_view(v@),
            forall|i: int|
                0 <= i < v@.len() ==> type_spec_wf((#[trigger] const_entries_view(v@)[i]).1.typedcl),
            out@ + consts_text_from(cons, ind@, j as int) == old(out)@ + consts_text_from(
                cons,
                ind@,
                0,
            ),
        decreases n - j,
    {
        let ghost pre = out@;
        let entry = &v[j];
        proof {
            assert(cons[j as int].1 == entry.1@);
            assert(type_spec_wf(cons[j as int].1.typedcl));
        }
        entry.1.write_ind(out, ind);
        proof {
            assert(out@ + consts_text_from(cons, ind@, j + 1) =~= pre + consts_text_from(
                cons,
                ind@,
                j as int,
            ));
        }
        j = j + 1;
    }
    proof {
        assert(out@ + consts_text_from(cons, ind@, n as int) =~= out@);
    }
}

impl IdlModule {
    /// Appends the module subtree at the given nesting level: delimiters and
    /// preamble, then types, submodules and constants in the emitter's fixed
    /// order.
    pub fn write(&self, out: &mut String, level: usize)
        requires
            module_wf(self@),
        ensures
            final(out)@ == old(out)@ + module_text(self@, spec_indent(level as nat)),
    {
        let ind = make_indent(level);
        self.write_ind(out, &ind);
    }

    #[verifier::rlimit(60)]
    fn write_ind(&self, out: &mut String, ind: &String)
        requires
            module_wf(self@),
        ensures
            final(out)@ == old(out)@ + module_text(self@, ind@),
        decreases *self,
    {
        match &self.id {
            Option::Some(id_str) => {
                out.append(ind.as_str());
                out.append("#[allow(non_snake_case)]\n");
                out.append(ind.as_str());
                out.append("mod ");
                out.append(id_str.as_str());
                out.append(" {\n");
            },
            Option::None => {
            },
        }
        proof {
            assert(out@ =~= old(out)@ + module_prolog_text(self@, ind@));
        }
        let ind2 = if self.id.is_some() {
            deepen_indent(ind)
        } else {
            ind.clone()
        };
        proof {
            assert(ind2@ =~= module_inner_ind(self@, ind@));
        }
        out.append(ind2.as_str());
        out.append("#[allow(unused_imports)]\n");
        out.append(ind2.as_str());
        out.append("use serde_derive::{Serialize, Deserialize};\n");
        let ghost base1 = out@;
        proof {
            assert(base1 =~= old(out)@ + module_prolog_text(self@, ind@) + module_preamble_text(
                ind2@,
            ));
        }

        let ghost tys = self@.types;
        proof {
            assert(tys =~= type_entries_view(self.types@));
            assert forall|i: int| 0 <= i < self.types@.len() implies type_dcl_wf(
                (#[trigger] type_entries_view(self.types@)[i]).1,
            ) by {
                assert(type_entries_view(self.types@)[i] == self@.types[i]);
                assert(type_dcl_wf(self@.types[i].1));
            }
        }
        write_types(&self.types, out, &ind2);
        let ghost base2 = out@;
        proof {
            assert(base2 =~= base1 + types_text_from(tys, ind2@, 0));
        }

        let ghost mods = self@.modules;
        let nm = self.modules.len();
        let mut k: usize = 0;
        while k < nm
            invariant
                nm == self.modules@.len(),
                k <= nm,
                mods == self@.modules,
                module_wf(self@),
                ind2@ == module_inner_ind(self@, ind@),
                out@ + modules_text_from(mods, ind2@, k as int) == base2 + modules_text_from(
                    mods,
                    ind2@,
                    0,
                ),
            decreases nm - k,
        {
            let ghost pre = out@;
            let entry = &self.modules[k];
            proof {
                assert(mods[k as int].1 == entry.1@);
                assert(module_wf(mods[k as int].1));
                assert(decreases_to!(*self => entry.1));
            }
            entry.1.write_ind(out, &ind2);
            proof {
                assert(out@ + modules_text_from(mods, ind2@, k + 1) =~= pre + modules_text_from(
                    mods,
                    ind2@,
                    k as int,
                ));
            }
            k = k + 1;
        }
        let ghost base3 = out@;
        proof {
            assert(out@ + modules_text_from(mods, ind2@, nm as int) =~= out@);
            assert(base3 =~= base2 + modules_text_from(mods, ind2@, 0));
        }

        let ghost cons = self@.constants;
        proof {
            assert(cons =~= const_entries_view(self.constants@));
            assert forall|i: int| 0 <= i < self.constants@.len() implies type_spec_wf(
                (#[trigger] const_entries_view(self.constants@)[i]).1.typedcl,
            ) by {
                assert(const_entries_view(self.constants@)[i] == self@.constants[i]);
                assert(type_spec_wf(self@.constants[i].1.typedcl));
            }
        }
        write_consts(&self.constants, out, &ind2);
        proof {
            assert(out@ =~= base3 + consts_text_from(cons, ind2@, 0));
        }

        match &self.id {
            Option::Some(_) => {
                out.append(ind.as_str());
                out.append("}\n");
            },
            Option::None => {
            },
        }
        proof {
            assert(final(out)@ =~= old(out)@ + module_text(self@, ind@));
        }
    }
}


// ----------------------------------------------------------------------
// Laws of emission
// ----------------------------------------------------------------------
/// The mapped host type of every primitive keyword is fixed, and this is the
/// whole table: 16/32/64-bit signed and unsigned integers, 32/64/128-bit
/// floating point, boolean, the 8-bit unsigned octet, char and wide char
/// (one shared host character type), and unbounded string and wide string
/// (one shared host string type).
pub proof fn lemma_primitive_mapping_fixed()
    ensures
        type_spec_text(TypeSpecView::I16Type) == "i16"@,
        type_spec_text(TypeSpecView::I32Type) == "i32"@,
        type_spec_text(TypeSpecView::I64Type) == "i64"@,
        type_spec_text(TypeSpecView::U16Type) == "u16"@,
        type_spec_text(TypeSpecView::U32Type) == "u32"@,
        type_spec_text(TypeSpecView::U64Type) == "u64"@,
        type_spec_text(TypeSpecView::F32Type) == "f32"@,
        type_spec_text(TypeSpecView::F64Type) == "f64"@,
        type_spec_text(TypeSpecView::F128Type) == "f128"@,
        type_spec_text(TypeSpecView::BooleanType) == "bool"@,
        type_spec_text(TypeSpecView::OctetType) == "u8"@,
        type_spec_text(TypeSpecView::CharType) == "char"@,
        type_spec_text(TypeSpecView::WideCharType) == "char"@,
        type_spec_text(TypeSpecView::StringType(Option::None)) == "String"@,
        type_spec_text(TypeSpecView::WideStringType(Option::None)) == "String"@,
{
}

/// Emission order within any scope is fixed, independent of the order the
/// source declared things in: scope delimiters and the decoration preamble,
/// then all type declarations, then all nested submodules, then all
/// constants.
pub proof fn lemma_emission_order(m: ModuleView, ind: Seq<char>)
    ensures
        module_text(m, ind) == module_prolog_text(m, ind) + module_preamble_text(
            module_inner_ind(m, ind),
        ) + types_text_from(m.types, module_inner_ind(m, ind), 0) + modules_text_from(
            m.modules,
            module_inner_ind(m, ind),
            0,
        ) + consts_text_from(m.constants, module_inner_ind(m, ind), 0) + module_epilog_text(
            m,
            ind,
        ),
{
}

/// Operator symbols round-trip unevaluated: the emitted text of an operator
/// node is exactly its operator symbol followed by the unchanged text of its
/// operand, and a sequencing node emits the unchanged texts of its two parts;
/// no arithmetic folding happens anywhere in emission.
pub proof fn lemma_operator_symbols_round_trip(op: UnaryOp, bop: BinaryOp, e: ValueExprView, e2: ValueExprView)
    ensures
        value_expr_text(ValueExprView::UnaryOp(op, Box::new(e))) == unary_op_text(op)
            + value_expr_text(e),
        value_expr_text(ValueExprView::BinaryOp(bop, Box::new(e))) == binary_op_text(bop)
            + value_expr_text(e),
        value_expr_text(ValueExprView::Expr(Box::new(e), Box::new(e2))) == value_expr_text(e)
            + value_expr_text(e2),
{
}

proof fn lemma_modules_from_contains(
    mods: Seq<(Seq<char>, ModuleView)>,
    ind: Seq<char>,
    j: int,
    i: int,
)
    requires
        0 <= j <= i < mods.len(),
    ensures
        exists|a: Seq<char>, b: Seq<char>|
            modules_text_from(mods, ind, j) == a + module_text(mods[i].1, ind) + b,
    decreases i - j,
{
    if j == i {
        let a = Seq::<char>::empty();
        let b = modules_text_from(mods, ind, j + 1);
        assert(modules_text_from(mods, ind, j) =~= a + module_text(mods[i].1, ind) + b);
    } else {
        lemma_modules_from_contains(mods, ind, j + 1, i);
        let (a2, b2) = choose|a2: Seq<char>, b2: Seq<char>|
            modules_text_from(mods, ind, j + 1) == a2 + module_text(mods[i].1, ind) + b2;
        let a = module_text(mods[j].1, ind) + a2;
        assert(modules_text_from(mods, ind, j) =~= a + module_text(mods[i].1, ind) + b2);
    }
}

/// Nested modules produce nested scope blocks at increasing indentation:
/// every submodule of a module is rendered inside its parent's text, one
/// indentation level deeper when the parent is named, and: like every
/// module: it carries its own decoration preamble there, however few
/// declarations it holds.
#[verifier::rlimit(60)]
pub proof fn lemma_nested_module_block(m: ModuleView, ind: Seq<char>, i: int)
    requires
        0 <= i < m.modules.len(),
    ensures
        exists|a: Seq<char>, b: Seq<char>|
            module_text(m, ind) == a + module_text(m.modules[i].1, module_inner_ind(m, ind)) + b,
{
    let inner = module_inner_ind(m, ind);
    lemma_modules_from_contains(m.modules, inner, 0, i);
    let (a2, b2) = choose|a2: Seq<char>, b2: Seq<char>|
        modules_text_from(m.modules, inner, 0) == a2 + module_text(m.modules[i].1, inner) + b2;
    let a = module_prolog_text(m, ind) + module_preamble_text(inner) + types_text_from(
        m.types,
        inner,
        0,
    ) + a2;
    let b = b2 + consts_text_from(m.constants, inner, 0) + module_epilog_text(m, ind);
    assert(module_text(m, ind) =~= a + module_text(m.modules[i].1, inner) + b);
}
} // verus!
