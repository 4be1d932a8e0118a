//! Model-level tests: the emitter's fixed type table, the write methods, the
//! scope manager's first-definition-wins rule, and the error variants of the
//! semantic pass, each driven through the public model types directly.
use rtps_idl::IdlError;
use rtps_idl::IdlLoader;
use rtps_idl::Loader;
use rtps_idl::ast::{
    BinaryOp, IdlConstDcl, IdlModule, IdlScopedName, IdlStructMember, IdlSwitchCase,
    IdlSwitchElement, IdlTypeDcl, IdlTypeDclKind, IdlTypeSpec, IdlValueExpr, UnaryOp,
};
use rtps_idl::processor::ProcessData;
use rtps_idl::tree::{ParseNode, RuleTag};
use rtps_idl::Configuration;

fn render_type(t: &IdlTypeSpec) -> String {
    let mut s = String::new();
    t.write(&mut s);
    s
}

#[test]
fn primitive_type_table() {
    // the fixed mapping, each entry exactly once
    assert_eq!(render_type(&IdlTypeSpec::I16Type), "i16");
    assert_eq!(render_type(&IdlTypeSpec::I32Type), "i32");
    assert_eq!(render_type(&IdlTypeSpec::I64Type), "i64");
    assert_eq!(render_type(&IdlTypeSpec::U16Type), "u16");
    assert_eq!(render_type(&IdlTypeSpec::U32Type), "u32");
    assert_eq!(render_type(&IdlTypeSpec::U64Type), "u64");
    assert_eq!(render_type(&IdlTypeSpec::F32Type), "f32");
    assert_eq!(render_type(&IdlTypeSpec::F64Type), "f64");
    assert_eq!(render_type(&IdlTypeSpec::F128Type), "f128");
    assert_eq!(render_type(&IdlTypeSpec::BooleanType), "bool");
    assert_eq!(render_type(&IdlTypeSpec::OctetType), "u8");
    assert_eq!(render_type(&IdlTypeSpec::CharType), "char");
    assert_eq!(render_type(&IdlTypeSpec::WideCharType), "char");
    assert_eq!(render_type(&IdlTypeSpec::StringType(None)), "String");
    assert_eq!(render_type(&IdlTypeSpec::WideStringType(None)), "String");
}

#[test]
fn unary_op_symbols() {
    let mut s = String::new();
    UnaryOp::Neg.write(&mut s);
    UnaryOp::Pos.write(&mut s);
    UnaryOp::Inverse.write(&mut s);
    assert_eq!(s, "-+~");
}

#[test]
fn binary_op_symbols() {
    let ops = [
        (BinaryOp::Add, "+"),
        (BinaryOp::Sub, "-"),
        (BinaryOp::Mul, "*"),
        (BinaryOp::Div, "/"),
        (BinaryOp::Mod, "%"),
        (BinaryOp::LShift, "<<"),
        (BinaryOp::RShift, ">>"),
        (BinaryOp::Or, "|"),
        (BinaryOp::Xor, "^"),
        (BinaryOp::And, "&"),
    ];
    for (op, sym) in ops {
        let mut s = String::new();
        op.write(&mut s);
        assert_eq!(s, sym);
    }
}

#[test]
fn scoped_name_rendering() {
    let rel = IdlScopedName(vec!["A".to_string(), "B".to_string()], false);
    let mut s = String::new();
    rel.write(&mut s);
    assert_eq!(s, "A::B");

    let abs = IdlScopedName(vec!["A".to_string(), "B".to_string()], true);
    let mut s2 = String::new();
    abs.write(&mut s2);
    assert_eq!(s2, "crate::A::B");
}

#[test]
fn value_expr_round_trips_operator_symbols() {
    // `2&1` as the model stores it: a sequencing of the left literal and an
    // operator node carrying the right-hand rest
    let e = IdlValueExpr::Expr(
        Box::new(IdlValueExpr::DecLiteral("2".to_string())),
        Box::new(IdlValueExpr::BinaryOp(
            BinaryOp::And,
            Box::new(IdlValueExpr::DecLiteral("1".to_string())),
        )),
    );
    let mut s = String::new();
    e.write(&mut s);
    assert_eq!(s, "2&1");
}

#[test]
fn float_literal_parts_rendering() {
    let e = IdlValueExpr::FloatLiteral(
        Some("1".to_string()),
        Some("5".to_string()),
        Some("-3".to_string()),
        Some("d".to_string()),
    );
    let mut s = String::new();
    e.write(&mut s);
    assert_eq!(s, "1.5e-3d");
}

#[test]
fn array_type_rendering() {
    let t = IdlTypeSpec::ArrayType(
        Box::new(IdlTypeSpec::OctetType),
        vec![
            Box::new(IdlValueExpr::DecLiteral("2".to_string())),
            Box::new(IdlValueExpr::Expr(
                Box::new(IdlValueExpr::DecLiteral("3".to_string())),
                Box::new(IdlValueExpr::BinaryOp(
                    BinaryOp::Add,
                    Box::new(IdlValueExpr::DecLiteral("3".to_string())),
                )),
            )),
        ],
    );
    assert_eq!(render_type(&t), "[[u8;2];3+3]");
}

#[test]
fn struct_member_line_rendering() {
    let m = IdlStructMember { id: "m_l1".to_string(), type_spec: Box::new(IdlTypeSpec::I32Type) };
    let mut s = String::new();
    m.write(&mut s, 1);
    assert_eq!(s, "    m_l1: i32,\n");
}

#[test]
fn switch_case_writes_nothing() {
    let case = IdlSwitchCase {
        labels: vec![],
        elem_spec: Box::new(IdlSwitchElement {
            id: "a".to_string(),
            type_spec: Box::new(IdlTypeSpec::I32Type),
        }),
    };
    let mut s = String::from("before");
    case.write(&mut s, 0);
    assert_eq!(s, "before");
}

#[test]
fn union_placeholder_rendering() {
    let dcl = IdlTypeDcl(IdlTypeDclKind::UnionDcl(
        "U".to_string(),
        Box::new(IdlTypeSpec::I32Type),
        vec![],
    ));
    let mut s = String::new();
    dcl.write(&mut s, 0);
    let expected = "\n//\n//\n#[allow(dead_code)]\n#[allow(non_camel_case_types)]\n#[derive(Serialize, Deserialize)]\n#[derive(Clone, Debug)]\npub enum U {\n}\n//\n// TODO custom de-/serializer\n//\n";
    assert_eq!(s, expected);
}

#[test]
fn empty_declaration_writes_nothing() {
    let dcl = IdlTypeDcl(IdlTypeDclKind::Empty);
    let mut s = String::from("kept");
    dcl.write(&mut s, 3);
    assert_eq!(s, "kept");
}

#[test]
fn const_dcl_rendering() {
    let c = IdlConstDcl {
        id: "Foo".to_string(),
        typedcl: Box::new(IdlTypeSpec::I32Type),
        value: Box::new(IdlValueExpr::DecLiteral("7".to_string())),
    };
    let mut s = String::new();
    c.write(&mut s, 0);
    assert_eq!(s, "#[allow(dead_code)]\nconst Foo: i32 = 7;\n");
}

#[test]
fn module_write_emits_preamble_and_delimiters() {
    let mut m = IdlModule::new(Some("A".to_string()), 1);
    m.types.push((
        "T".to_string(),
        IdlTypeDcl(IdlTypeDclKind::TypeDcl("T".to_string(), Box::new(IdlTypeSpec::I16Type))),
    ));
    let mut s = String::new();
    m.write(&mut s, 0);
    let expected = "#[allow(non_snake_case)]\nmod A {\n    #[allow(unused_imports)]\n    use serde_derive::{Serialize, Deserialize};\n\n    //\n    //\n    #[allow(dead_code)]\n    #[allow(non_camel_case_types)]\n    pub type T = i16;\n}\n";
    assert_eq!(s, expected);
}

fn typedef_node(name: &str, prim: RuleTag) -> ParseNode {
    // typedef <prim> <name>;
    ParseNode {
        tag: RuleTag::TypeDeclarator,
        text: String::new(),
        children: vec![
            ParseNode { tag: prim, text: String::new(), children: vec![] },
            ParseNode {
                tag: RuleTag::Declarators,
                text: String::new(),
                children: vec![ParseNode {
                    tag: RuleTag::Declarator,
                    text: String::new(),
                    children: vec![ParseNode {
                        tag: RuleTag::SimpleDeclarator,
                        text: String::new(),
                        children: vec![ParseNode {
                            tag: RuleTag::Identifier,
                            text: name.to_string(),
                            children: vec![],
                        }],
                    }],
                }],
            },
        ],
    }
}

#[test]
fn first_definition_wins_in_the_model() {
    // two additions under one identifier: the model equals the model after
    // one addition, shown by identical emission
    let config = Configuration::default();

    let mut once = ProcessData::new(&config);
    let mut scope: Vec<String> = Vec::new();
    once.process(&mut scope, &typedef_node("Foo", RuleTag::SignedLongInt)).unwrap();
    let mut out_once = String::new();
    once.root_module.write(&mut out_once, 0);

    let mut twice = ProcessData::new(&config);
    let mut scope2: Vec<String> = Vec::new();
    twice.process(&mut scope2, &typedef_node("Foo", RuleTag::SignedLongInt)).unwrap();
    twice.process(&mut scope2, &typedef_node("Foo", RuleTag::SignedShortInt)).unwrap();
    let mut out_twice = String::new();
    twice.root_module.write(&mut out_twice, 0);

    assert_eq!(out_once, out_twice);
    assert!(out_once.contains("pub type Foo = i32;"));
}

#[test]
fn missing_required_child_is_an_internal_error() {
    // a module declaration node with no children at all
    let node = ParseNode { tag: RuleTag::ModuleDcl, text: String::new(), children: vec![] };
    let config = Configuration::default();
    let mut data = ProcessData::new(&config);
    let mut scope: Vec<String> = Vec::new();
    let r = data.process(&mut scope, &node);
    assert!(matches!(r, Err(IdlError::InternalError)));
}

#[test]
fn wrong_rule_is_an_expected_item_error() {
    // a constant declaration whose name slot holds no identifier node
    let node = ParseNode {
        tag: RuleTag::ConstDcl,
        text: String::new(),
        children: vec![
            ParseNode { tag: RuleTag::SignedLongInt, text: String::new(), children: vec![] },
            ParseNode { tag: RuleTag::Other, text: String::new(), children: vec![] },
            ParseNode {
                tag: RuleTag::DecimalIntegerLiteral,
                text: "1".to_string(),
                children: vec![],
            },
        ],
    };
    let config = Configuration::default();
    let mut data = ProcessData::new(&config);
    let mut scope: Vec<String> = Vec::new();
    let r = data.process(&mut scope, &node);
    assert!(matches!(r, Err(IdlError::ExpectedItem(RuleTag::Identifier))));
}

#[test]
fn loader_reports_not_found() {
    let loader = Loader::new(vec!["a".to_string(), "b".to_string()]);
    let r = loader.load("missing.idl");
    assert!(matches!(r, Err(IdlError::NotFound)));
}

#[test]
fn load_idl_supplies_empty_contents() {
    let config = Configuration::default();
    let r = rtps_idl::load_idl(&config, "anything.idl");
    assert_eq!(r.unwrap(), "");
}
