//! Declaration model for the IDL-to-Rust translator: scoped names, constant
//! expressions, type specifications, declarations and the module tree, each
//! paired with a mathematical view used by the contracts.
use vstd::prelude::*;

verus! {

/// Unary operator of a constant expression; the operator symbol is preserved
/// verbatim and never evaluated.
#[derive(Clone, Copy, Debug)]
pub enum UnaryOp {
    Neg,
    Pos,
    Inverse,
}

/// Binary operator of a constant expression; the operator symbol is preserved
/// verbatim and never evaluated.
#[derive(Clone, Copy, Debug)]
pub enum BinaryOp {
    Add,
    Sub,
    Mul,
    Div,
    Mod,
    LShift,
    RShift,
    Or,
    Xor,
    And,
}

/// A possibly qualified reference to a declared entity: identifier segments
/// plus a flag that marks a name rooted at the compilation unit (`::A::B`).
#[derive(Debug)]
pub struct IdlScopedName(pub Vec<String>, pub bool);

/// Mathematical view of `IdlScopedName`.
#[verifier::ext_equal]
pub struct ScopedNameView {
    pub parts: Seq<Seq<char>>,
    pub absolute: bool,
}

impl View for IdlScopedName {
    type V = ScopedNameView;

    open spec fn view(&self) -> ScopedNameView {
        ScopedNameView { parts: Seq::new(self.0@.len(), |i: int| self.0@[i]@), absolute: self.1 }
    }
}

/// A constant expression, stored structurally: literal text, operator tags and
/// sub-expressions are kept verbatim for re-emission, never folded.
#[derive(Debug)]
pub enum IdlValueExpr {
    Empty,
    DecLiteral(String),
    HexLiteral(String),
    OctLiteral(String),
    CharLiteral(String),
    WideCharLiteral(String),
    StringLiteral(String),
    WideStringLiteral(String),
    BooleanLiteral(bool),
    FloatLiteral(Option<String>, Option<String>, Option<String>, Option<String>),
    UnaryOp(UnaryOp, Box<IdlValueExpr>),
    BinaryOp(BinaryOp, Box<IdlValueExpr>),
    Expr(Box<IdlValueExpr>, Box<IdlValueExpr>),
    Brace(Box<IdlValueExpr>),
    ScopedName(IdlScopedName),
}

/// Mathematical view of `IdlValueExpr`.
#[verifier::ext_equal]
pub enum ValueExprView {
    Empty,
    DecLiteral(Seq<char>),
    HexLiteral(Seq<char>),
    OctLiteral(Seq<char>),
    CharLiteral(Seq<char>),
    WideCharLiteral(Seq<char>),
    StringLiteral(Seq<char>),
    WideStringLiteral(Seq<char>),
    BooleanLiteral(bool),
    FloatLiteral(Option<Seq<char>>, Option<Seq<char>>, Option<Seq<char>>, Option<Seq<char>>),
    UnaryOp(UnaryOp, Box<ValueExprView>),
    BinaryOp(BinaryOp, Box<ValueExprView>),
    Expr(Box<ValueExprView>, Box<ValueExprView>),
    Brace(Box<ValueExprView>),
    ScopedName(ScopedNameView),
}

pub open spec fn opt_string_view(o: Option<String>) -> Option<Seq<char>> {
    match o {
        Option::Some(s) => Option::Some(s@),
        Option::None => Option::None,
    }
}

pub open spec fn value_expr_view(e: IdlValueExpr) -> ValueExprView
    decreases e,
{
    match e {
        IdlValueExpr::Empty => ValueExprView::Empty,
        IdlValueExpr::DecLiteral(s) => ValueExprView::DecLiteral(s@),
        IdlValueExpr::HexLiteral(s) => ValueExprView::HexLiteral(s@),
        IdlValueExpr::OctLiteral(s) => ValueExprView::OctLiteral(s@),
        IdlValueExpr::CharLiteral(s) => ValueExprView::CharLiteral(s@),
        IdlValueExpr::WideCharLiteral(s) => ValueExprView::WideCharLiteral(s@),
        IdlValueExpr::StringLiteral(s) => ValueExprView::StringLiteral(s@),
        IdlValueExpr::WideStringLiteral(s) => ValueExprView::WideStringLiteral(s@),
        IdlValueExpr::BooleanLiteral(b) => ValueExprView::BooleanLiteral(b),
        IdlValueExpr::FloatLiteral(i, f, ex, su) => ValueExprView::FloatLiteral(
            opt_string_view(i),
            opt_string_view(f),
            opt_string_view(ex),
            opt_string_view(su),
        ),
        IdlValueExpr::UnaryOp(op, sub) => ValueExprView::UnaryOp(
            op,
            Box::new(value_expr_view(*sub)),
        ),
        IdlValueExpr::BinaryOp(op, sub) => ValueExprView::BinaryOp(
            op,
            Box::new(value_expr_view(*sub)),
        ),
        IdlValueExpr::Expr(a, b) => ValueExprView::Expr(
            Box::new(value_expr_view(*a)),
            Box::new(value_expr_view(*b)),
        ),
        IdlValueExpr::Brace(sub) => ValueExprView::Brace(Box::new(value_expr_view(*sub))),
        IdlValueExpr::ScopedName(n) => ValueExprView::ScopedName(n@),
    }
}

impl View for IdlValueExpr {
    type V = ValueExprView;

    open spec fn view(&self) -> ValueExprView {
        value_expr_view(*self)
    }
}

impl Default for IdlValueExpr {
    fn default() -> (r: IdlValueExpr)
        ensures
            r@ == ValueExprView::Empty,
    {
        IdlValueExpr::Empty
    }
}

/// The type-expression portion of a declaration: fixed-width primitives,
/// bounded or unbounded strings and sequences, arrays with unevaluated
/// dimension expressions, and references to declared names.
#[derive(Debug)]
pub enum IdlTypeSpec {
    Empty,
    ArrayType(Box<IdlTypeSpec>, Vec<Box<IdlValueExpr>>),
    SequenceType(Box<IdlTypeSpec>, Option<Box<IdlValueExpr>>),
    StringType(Option<Box<IdlValueExpr>>),
    WideStringType(Option<Box<IdlValueExpr>>),
    F32Type,
    F64Type,
    F128Type,
    I16Type,
    I32Type,
    I64Type,
    U16Type,
    U32Type,
    U64Type,
    CharType,
    WideCharType,
    BooleanType,
    OctetType,
    ScopedName(IdlScopedName),
}

/// Mathematical view of `IdlTypeSpec`.
#[verifier::ext_equal]
pub enum TypeSpecView {
    Empty,
    ArrayType(Box<TypeSpecView>, Seq<ValueExprView>),
    SequenceType(Box<TypeSpecView>, Option<Box<ValueExprView>>),
    StringType(Option<Box<ValueExprView>>),
    WideStringType(Option<Box<ValueExprView>>),
    F32Type,
    F64Type,
    F128Type,
    I16Type,
    I32Type,
    I64Type,
    U16Type,
    U32Type,
    U64Type,
    CharType,
    WideCharType,
    BooleanType,
    OctetType,
    ScopedName(ScopedNameView),
}

pub open spec fn opt_expr_view(o: Option<Box<IdlValueExpr>>) -> Option<Box<ValueExprView>> {
    match o {
        Option::Some(e) => Option::Some(Box::new(value_expr_view(*e))),
        Option::None => Option::None,
    }
}

pub open spec fn type_spec_view(t: IdlTypeSpec) -> TypeSpecView
    decreases t,
{
    match t {
        IdlTypeSpec::Empty => TypeSpecView::Empty,
        IdlTypeSpec::ArrayType(elem, dims) => TypeSpecView::ArrayType(
            Box::new(type_spec_view(*elem)),
            Seq::new(dims@.len(), |i: int| value_expr_view(*dims@[i])),
        ),
        IdlTypeSpec::SequenceType(elem, bound) => TypeSpecView::SequenceType(
            Box::new(type_spec_view(*elem)),
            opt_expr_view(bound),
        ),
        IdlTypeSpec::StringType(bound) => TypeSpecView::StringType(opt_expr_view(bound)),
        IdlTypeSpec::WideStringType(bound) => TypeSpecView::WideStringType(opt_expr_view(bound)),
        IdlTypeSpec::F32Type => TypeSpecView::F32Type,
        IdlTypeSpec::F64Type => TypeSpecView::F64Type,
        IdlTypeSpec::F128Type => TypeSpecView::F128Type,
        IdlTypeSpec::I16Type => TypeSpecView::I16Type,
        IdlTypeSpec::I32Type => TypeSpecView::I32Type,
        IdlTypeSpec::I64Type => TypeSpecView::I64Type,
        IdlTypeSpec::U16Type => TypeSpecView::U16Type,
        IdlTypeSpec::U32Type => TypeSpecView::U32Type,
        IdlTypeSpec::U64Type => TypeSpecView::U64Type,
        IdlTypeSpec::CharType => TypeSpecView::CharType,
        IdlTypeSpec::WideCharType => TypeSpecView::WideCharType,
        IdlTypeSpec::BooleanType => TypeSpecView::BooleanType,
        IdlTypeSpec::OctetType => TypeSpecView::OctetType,
        IdlTypeSpec::ScopedName(n) => TypeSpecView::ScopedName(n@),
    }
}

impl View for IdlTypeSpec {
    type V = TypeSpecView;

    open spec fn view(&self) -> TypeSpecView {
        type_spec_view(*self)
    }
}

impl Default for IdlTypeSpec {
    fn default() -> (r: IdlTypeSpec)
        ensures
            r@ == TypeSpecView::Empty,
    {
        IdlTypeSpec::Empty
    }
}

/// A type specification is renderable when no `None` placeholder occurs at a
/// position the emitter must visit: the element type of every array and
/// sequence, recursively.
pub open spec fn type_spec_wf(t: TypeSpecView) -> bool
    decreases t,
{
    match t {
        TypeSpecView::Empty => false,
        TypeSpecView::ArrayType(elem, _) => type_spec_wf(*elem),
        TypeSpecView::SequenceType(elem, _) => type_spec_wf(*elem),
        _ => true,
    }
}

/// One named field of a struct declaration.
#[derive(Debug)]
pub struct IdlStructMember {
    pub id: String,
    pub type_spec: Box<IdlTypeSpec>,
}

/// Mathematical view of `IdlStructMember`.
#[verifier::ext_equal]
pub struct StructMemberView {
    pub id: Seq<char>,
    pub type_spec: TypeSpecView,
}

impl View for IdlStructMember {
    type V = StructMemberView;

    open spec fn view(&self) -> StructMemberView {
        StructMemberView { id: self.id@, type_spec: type_spec_view(*self.type_spec) }
    }
}

/// One named element of a union case (recognized syntactically, not lowered).
#[derive(Debug)]
pub struct IdlSwitchElement {
    pub id: String,
    pub type_spec: Box<IdlTypeSpec>,
}

/// Mathematical view of `IdlSwitchElement`.
#[verifier::ext_equal]
pub struct SwitchElementView {
    pub id: Seq<char>,
    pub type_spec: TypeSpecView,
}

impl View for IdlSwitchElement {
    type V = SwitchElementView;

    open spec fn view(&self) -> SwitchElementView {
        SwitchElementView { id: self.id@, type_spec: type_spec_view(*self.type_spec) }
    }
}

/// A case label of a union: a constant expression or the default label.
#[derive(Debug)]
pub enum IdlSwitchLabel {
    Label(Box<IdlValueExpr>),
    Default,
}

/// Mathematical view of `IdlSwitchLabel`.
#[verifier::ext_equal]
pub enum SwitchLabelView {
    Label(ValueExprView),
    Default,
}

pub open spec fn switch_label_view(l: IdlSwitchLabel) -> SwitchLabelView {
    match l {
        IdlSwitchLabel::Label(e) => SwitchLabelView::Label(value_expr_view(*e)),
        IdlSwitchLabel::Default => SwitchLabelView::Default,
    }
}

impl View for IdlSwitchLabel {
    type V = SwitchLabelView;

    open spec fn view(&self) -> SwitchLabelView {
        switch_label_view(*self)
    }
}

/// One case of a union: its labels and its element.
#[derive(Debug)]
pub struct IdlSwitchCase {
    pub labels: Vec<IdlSwitchLabel>,
    pub elem_spec: Box<IdlSwitchElement>,
}

/// Mathematical view of `IdlSwitchCase`.
#[verifier::ext_equal]
pub struct SwitchCaseView {
    pub labels: Seq<SwitchLabelView>,
    pub elem_spec: SwitchElementView,
}

impl View for IdlSwitchCase {
    type V = SwitchCaseView;

    open spec fn view(&self) -> SwitchCaseView {
        SwitchCaseView {
            labels: Seq::new(self.labels@.len(), |i: int| switch_label_view(self.labels@[i])),
            elem_spec: self.elem_spec.view(),
        }
    }
}

/// The kind of a type declaration: an alias, a struct, or a union placeholder.
#[derive(Debug)]
pub enum IdlTypeDclKind {
    Empty,
    TypeDcl(String, Box<IdlTypeSpec>),
    StructDcl(String, Vec<Box<IdlStructMember>>),
    UnionDcl(String, Box<IdlTypeSpec>, Vec<IdlSwitchCase>),
}

/// Mathematical view of `IdlTypeDclKind`.
#[verifier::ext_equal]
pub enum TypeDclKindView {
    Empty,
    TypeDcl(Seq<char>, TypeSpecView),
    StructDcl(Seq<char>, Seq<StructMemberView>),
    UnionDcl(Seq<char>, TypeSpecView, Seq<SwitchCaseView>),
}

pub open spec fn type_dcl_kind_view(k: IdlTypeDclKind) -> TypeDclKindView {
    match k {
        IdlTypeDclKind::Empty => TypeDclKindView::Empty,
        IdlTypeDclKind::TypeDcl(id, t) => TypeDclKindView::TypeDcl(id@, type_spec_view(*t)),
        IdlTypeDclKind::StructDcl(id, members) => TypeDclKindView::StructDcl(
            id@,
            Seq::new(members@.len(), |i: int| members@[i].view()),
        ),
        IdlTypeDclKind::UnionDcl(id, disc, cases) => TypeDclKindView::UnionDcl(
            id@,
            type_spec_view(*disc),
            Seq::new(cases@.len(), |i: int| cases@[i].view()),
        ),
    }
}

impl View for IdlTypeDclKind {
    type V = TypeDclKindView;

    open spec fn view(&self) -> TypeDclKindView {
        type_dcl_kind_view(*self)
    }
}

impl Default for IdlTypeDclKind {
    fn default() -> (r: IdlTypeDclKind)
        ensures
            r@ == TypeDclKindView::Empty,
    {
        IdlTypeDclKind::Empty
    }
}

/// A registered type declaration.
#[derive(Debug)]
pub struct IdlTypeDcl(pub IdlTypeDclKind);

impl View for IdlTypeDcl {
    type V = TypeDclKindView;

    open spec fn view(&self) -> TypeDclKindView {
        type_dcl_kind_view(self.0)
    }
}

impl Default for IdlTypeDcl {
    fn default() -> (r: IdlTypeDcl)
        ensures
            r@ == TypeDclKindView::Empty,
    {
        IdlTypeDcl(IdlTypeDclKind::Empty)
    }
}

/// A type declaration is renderable when every type specification the emitter
/// must visit is renderable.
pub open spec fn type_dcl_wf(k: TypeDclKindView) -> bool {
    match k {
        TypeDclKindView::Empty => true,
        TypeDclKindView::TypeDcl(_, t) => type_spec_wf(t),
        TypeDclKindView::StructDcl(_, members) => forall|i: int|
            0 <= i < members.len() ==> type_spec_wf(#[trigger] members[i].type_spec),
        TypeDclKindView::UnionDcl(_, _, _) => true,
    }
}

/// A registered constant declaration: identifier, declared type, and the
/// structurally preserved initializer expression.
#[derive(Debug)]
pub struct IdlConstDcl {
    pub id: String,
    pub typedcl: Box<IdlTypeSpec>,
    pub value: Box<IdlValueExpr>,
}

/// Mathematical view of `IdlConstDcl`.
#[verifier::ext_equal]
pub struct ConstDclView {
    pub id: Seq<char>,
    pub typedcl: TypeSpecView,
    pub value: ValueExprView,
}

impl View for IdlConstDcl {
    type V = ConstDclView;

    open spec fn view(&self) -> ConstDclView {
        ConstDclView {
            id: self.id@,
            typedcl: type_spec_view(*self.typedcl),
            value: value_expr_view(*self.value),
        }
    }
}

impl Default for IdlConstDcl {
    fn default() -> (r: IdlConstDcl)
        ensures
            r@.id == Seq::<char>::empty(),
            r@.typedcl == TypeSpecView::Empty,
            r@.value == ValueExprView::Empty,
    {
        IdlConstDcl {
            id: String::new(),
            typedcl: Box::new(IdlTypeSpec::Empty),
            value: Box::new(IdlValueExpr::Empty),
        }
    }
}

/// One scope of the module tree: an optional name (absent only at the root),
/// the nesting depth recorded at creation, and three insertion-ordered,
/// identifier-keyed maps, represented as association vectors whose order is
/// the order of first insertion.
#[derive(Debug)]
pub struct IdlModule {
    pub id: Option<String>,
    pub level: usize,
    pub modules: Vec<(String, IdlModule)>,
    pub types: Vec<(String, IdlTypeDcl)>,
    pub constants: Vec<(String, IdlConstDcl)>,
}

/// Mathematical view of `IdlModule`.
#[verifier::ext_equal]
pub struct ModuleView {
    pub id: Option<Seq<char>>,
    pub level: nat,
    pub modules: Seq<(Seq<char>, ModuleView)>,
    pub types: Seq<(Seq<char>, TypeDclKindView)>,
    pub constants: Seq<(Seq<char>, ConstDclView)>,
}

pub open spec fn module_view(m: IdlModule) -> ModuleView
    decreases m,
{
    ModuleView {
        id: opt_string_view(m.id),
        level: m.level as nat,
        modules: Seq::new(
            m.modules@.len(),
            |i: int|
                if 0 <= i < m.modules@.len() {
                    (m.modules@[i].0@, module_view(m.modules@[i].1))
                } else {
                    vstd::pervasive::arbitrary()
                },
        ),
        types: Seq::new(m.types@.len(), |i: int| (m.types@[i].0@, m.types@[i].1.view())),
        constants: Seq::new(
            m.constants@.len(),
            |i: int| (m.constants@[i].0@, m.constants@[i].1.view()),
        ),
    }
}

impl View for IdlModule {
    type V = ModuleView;

    open spec fn view(&self) -> ModuleView {
        module_view(*self)
    }
}

/// A module is renderable when each registered type declaration is, the
/// declared type of each constant is, each submodule recursively is, and
/// every submodule carries a name.
pub open spec fn module_wf(m: ModuleView) -> bool
    decreases m,
{
    &&& forall|i: int| 0 <= i < m.types.len() ==> type_dcl_wf(#[trigger] m.types[i].1)
    &&& forall|i: int| 0 <= i < m.constants.len() ==> type_spec_wf((#[trigger] m.constants[i].1).typedcl)
    &&& forall|i: int|
        0 <= i < m.modules.len() ==> (#[trigger] m.modules[i].1.id) is Some && module_wf(
            m.modules[i].1,
        )
}

impl IdlModule {
    /// A fresh module node with the given name and nesting depth and no
    /// declarations.
    pub fn new(id: Option<String>, level: usize) -> (r: IdlModule)
        ensures
            r@ == (ModuleView {
                id: opt_string_view(id),
                level: level as nat,
                modules: Seq::<(Seq<char>, ModuleView)>::empty(),
                types: Seq::<(Seq<char>, TypeDclKindView)>::empty(),
                constants: Seq::<(Seq<char>, ConstDclView)>::empty(),
            }),
    {
        let r = IdlModule {
            id,
            level,
            modules: Vec::new(),
            types: Vec::new(),
            constants: Vec::new(),
        };
        proof {
            assert(r.modules@.len() == 0);
            assert(r@.modules =~= Seq::<(Seq<char>, ModuleView)>::empty());
            assert(r@.types =~= Seq::<(Seq<char>, TypeDclKindView)>::empty());
            assert(r@.constants =~= Seq::<(Seq<char>, ConstDclView)>::empty());
            assert(r@.id == opt_string_view(id));
            assert(r@.level == level as nat);
            assert(r@ =~~= ModuleView {
                id: opt_string_view(r.id),
                level: level as nat,
                modules: Seq::<(Seq<char>, ModuleView)>::empty(),
                types: Seq::<(Seq<char>, TypeDclKindView)>::empty(),
                constants: Seq::<(Seq<char>, ConstDclView)>::empty(),
            });
        }
        r
    }
}

impl Default for IdlModule {
    fn default() -> (r: IdlModule)
        ensures
            r@.id is None,
            r@.level == 0,
            r@.modules == Seq::<(Seq<char>, ModuleView)>::empty(),
            r@.types == Seq::<(Seq<char>, TypeDclKindView)>::empty(),
            r@.constants == Seq::<(Seq<char>, ConstDclView)>::empty(),
    {
        let r = IdlModule::new(Option::None, 0);
        proof {
            assert(opt_string_view(Option::<String>::None) is None);
        }
        r
    }
}

/// Structure-preserving copy of a scoped name.
pub fn clone_scoped_name(n: &IdlScopedName) -> (r: IdlScopedName)
    ensures
        r@ == n@,
{
    let mut parts: Vec<String> = Vec::new();
    let mut i: usize = 0;
    while i < n.0.len()
        invariant
            i <= n.0.len(),
            parts@.len() == i as int,
            forall|j: int| 0 <= j < i as int ==> parts@[j]@ == n.0@[j]@,
        decreases n.0.len() - i,
    {
        parts.push(n.0[i].clone());
        i = i + 1;
    }
    let r = IdlScopedName(parts, n.1);
    proof {
        assert(r@.parts =~= n@.parts);
        assert(r@ =~= n@);
    }
    r
}

/// Structure-preserving copy of a constant expression.
pub fn clone_value_expr(e: &IdlValueExpr) -> (r: IdlValueExpr)
    ensures
        r@ == e@,
    decreases e,
{
    match e {
        IdlValueExpr::Empty => IdlValueExpr::Empty,
        IdlValueExpr::DecLiteral(s) => IdlValueExpr::DecLiteral(s.clone()),
        IdlValueExpr::HexLiteral(s) => IdlValueExpr::HexLiteral(s.clone()),
        IdlValueExpr::OctLiteral(s) => IdlValueExpr::OctLiteral(s.clone()),
        IdlValueExpr::CharLiteral(s) => IdlValueExpr::CharLiteral(s.clone()),
        IdlValueExpr::WideCharLiteral(s) => IdlValueExpr::WideCharLiteral(s.clone()),
        IdlValueExpr::StringLiteral(s) => IdlValueExpr::StringLiteral(s.clone()),
        IdlValueExpr::WideStringLiteral(s) => IdlValueExpr::WideStringLiteral(s.clone()),
        IdlValueExpr::BooleanLiteral(b) => IdlValueExpr::BooleanLiteral(*b),
        IdlValueExpr::FloatLiteral(i, f, ex, su) => IdlValueExpr::FloatLiteral(
            clone_opt_string(i),
            clone_opt_string(f),
            clone_opt_string(ex),
            clone_opt_string(su),
        ),
        IdlValueExpr::UnaryOp(op, sub) => IdlValueExpr::UnaryOp(
            *op,
            Box::new(clone_value_expr(&**sub)),
        ),
        IdlValueExpr::BinaryOp(op, sub) => IdlValueExpr::BinaryOp(
            *op,
            Box::new(clone_value_expr(&**sub)),
        ),
        IdlValueExpr::Expr(a, b) => IdlValueExpr::Expr(
            Box::new(clone_value_expr(a)),
            Box::new(clone_value_expr(b)),
        ),
        IdlValueExpr::Brace(sub) => IdlValueExpr::Brace(Box::new(clone_value_expr(&**sub))),
        IdlValueExpr::ScopedName(n) => IdlValueExpr::ScopedName(clone_scoped_name(n)),
    }
}

/// Copy of an optional literal part.
pub fn clone_opt_string(o: &Option<String>) -> (r: Option<String>)
    ensures
        opt_string_view(r) == opt_string_view(*o),
{
    match o {
        Option::Some(s) => Option::Some(s.clone()),
        Option::None => Option::None,
    }
}

/// Copy of an optional bound expression.
pub fn clone_opt_expr(o: &Option<Box<IdlValueExpr>>) -> (r: Option<Box<IdlValueExpr>>)
    ensures
        opt_expr_view(r) == opt_expr_view(*o),
{
    match o {
        Option::Some(e) => Option::Some(Box::new(clone_value_expr(&**e))),
        Option::None => Option::None,
    }
}

/// Structure-preserving copy of a type specification, so one resolved type can
/// be attached to several declarators without divergent mutation.
pub fn clone_type_spec(t: &IdlTypeSpec) -> (r: IdlTypeSpec)
    ensures
        r@ == t@,
    decreases t,
{
    match t {
        IdlTypeSpec::Empty => IdlTypeSpec::Empty,
        IdlTypeSpec::ArrayType(elem, dims) => {
            let elem2 = Box::new(clone_type_spec(&**elem));
            let mut dims2: Vec<Box<IdlValueExpr>> = Vec::new();
            let mut i: usize = 0;
            while i < dims.len()
                invariant
                    i <= dims.len(),
                    dims2@.len() == i as int,
                    forall|j: int|
                        0 <= j < i as int ==> value_expr_view(*dims2@[j]) == value_expr_view(
                            *dims@[j],
                        ),
                decreases dims.len() - i,
            {
                dims2.push(Box::new(clone_value_expr(&*dims[i])));
                i = i + 1;
            }
            let r = IdlTypeSpec::ArrayType(elem2, dims2);
            proof {
                assert(r@ =~= t@);
            }
            r
        },
        IdlTypeSpec::SequenceType(elem, bound) => {
            let r = IdlTypeSpec::SequenceType(
                Box::new(clone_type_spec(&**elem)),
                clone_opt_expr(bound),
            );
            proof {
                assert(r@ =~= t@);
            }
            r
        },
        IdlTypeSpec::StringType(bound) => {
            let r = IdlTypeSpec::StringType(clone_opt_expr(bound));
            proof {
                assert(r@ =~= t@);
            }
            r
        },
        IdlTypeSpec::WideStringType(bound) => {
            let r = IdlTypeSpec::WideStringType(clone_opt_expr(bound));
            proof {
                assert(r@ =~= t@);
            }
            r
        },
        IdlTypeSpec::F32Type => IdlTypeSpec::F32Type,
        IdlTypeSpec::F64Type => IdlTypeSpec::F64Type,
        IdlTypeSpec::F128Type => IdlTypeSpec::F128Type,
        IdlTypeSpec::I16Type => IdlTypeSpec::I16Type,
        IdlTypeSpec::I32Type => IdlTypeSpec::I32Type,
        IdlTypeSpec::I64Type => IdlTypeSpec::I64Type,
        IdlTypeSpec::U16Type => IdlTypeSpec::U16Type,
        IdlTypeSpec::U32Type => IdlTypeSpec::U32Type,
        IdlTypeSpec::U64Type => IdlTypeSpec::U64Type,
        IdlTypeSpec::CharType => IdlTypeSpec::CharType,
        IdlTypeSpec::WideCharType => IdlTypeSpec::WideCharType,
        IdlTypeSpec::BooleanType => IdlTypeSpec::BooleanType,
        IdlTypeSpec::OctetType => IdlTypeSpec::OctetType,
        IdlTypeSpec::ScopedName(n) => IdlTypeSpec::ScopedName(clone_scoped_name(n)),
    }
}

} // verus!
