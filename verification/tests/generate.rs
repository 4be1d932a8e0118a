//! End-to-end tests: literal IDL input through the whole pipeline, compared
//! against the exact generated source text.
use rtps_idl::{Configuration, generate_with_search_path};

fn gen(input: &str) -> String {
    let mut out = String::new();
    let config = Configuration::default();
    let search_path = vec![".".to_string()];
    generate_with_search_path(&mut out, search_path, &config, input).expect("generation failed");
    out
}

const PRELUDE: &str = "#[allow(unused_imports)]\nuse std::vec::Vec;\n#[allow(unused_imports)]\nuse serde_derive::{Serialize, Deserialize};\n";

fn typedef_expected(name: &str, ty: &str) -> String {
    format!(
        "{}\n//\n//\n#[allow(dead_code)]\n#[allow(non_camel_case_types)]\npub type {} = {};\n",
        PRELUDE, name, ty
    )
}

fn const_expected(name: &str, ty: &str, value: &str) -> String {
    format!("{}#[allow(dead_code)]\nconst {}: {} = {};\n", PRELUDE, name, ty, value)
}

#[test]
fn typedef_long() {
    assert_eq!(gen("typedef long Foo;"), typedef_expected("Foo", "i32"));
}

#[test]
fn typedef_long_long() {
    assert_eq!(gen("typedef long long Foo;"), typedef_expected("Foo", "i64"));
}

#[test]
fn typedef_short() {
    assert_eq!(gen("typedef short Foo;"), typedef_expected("Foo", "i16"));
}

#[test]
fn typedef_octet() {
    assert_eq!(gen("typedef octet Foo;"), typedef_expected("Foo", "u8"));
}

#[test]
fn typedef_unsigned_short() {
    assert_eq!(gen("typedef unsigned short Foo;"), typedef_expected("Foo", "u16"));
}

#[test]
fn typedef_unsigned_long() {
    assert_eq!(gen("typedef unsigned long Foo;"), typedef_expected("Foo", "u32"));
}

#[test]
fn typedef_unsigned_long_long() {
    assert_eq!(gen("typedef unsigned long long Foo;"), typedef_expected("Foo", "u64"));
}

#[test]
fn typedef_char() {
    assert_eq!(gen("typedef char Foo;"), typedef_expected("Foo", "char"));
}

#[test]
fn typedef_wchar() {
    assert_eq!(gen("typedef wchar Foo;"), typedef_expected("Foo", "char"));
}

#[test]
fn typedef_string() {
    assert_eq!(gen("typedef string Foo;"), typedef_expected("Foo", "String"));
}

#[test]
fn typedef_wstring() {
    assert_eq!(gen("typedef wstring Foo;"), typedef_expected("Foo", "String"));
}

#[test]
fn typedef_string_bounded() {
    assert_eq!(gen("typedef string<42> Foo;"), typedef_expected("Foo", "String"));
}

#[test]
fn typedef_wstring_bounded() {
    assert_eq!(gen("typedef wstring<42> Foo;"), typedef_expected("Foo", "String"));
}

#[test]
fn typedef_sequence() {
    assert_eq!(gen("typedef sequence<long> Foo;"), typedef_expected("Foo", "Vec<i32>"));
}

#[test]
fn typedef_sequence_bounded() {
    assert_eq!(gen("typedef sequence<octet, 4> Foo;"), typedef_expected("Foo", "Vec<u8>"));
}

#[test]
fn typedef_float() {
    assert_eq!(gen("typedef float Foo;"), typedef_expected("Foo", "f32"));
}

#[test]
fn typedef_double() {
    assert_eq!(gen("typedef double Foo;"), typedef_expected("Foo", "f64"));
}

#[test]
fn typedef_long_double() {
    assert_eq!(gen("typedef long double Foo;"), typedef_expected("Foo", "f128"));
}

#[test]
fn typedef_boolean() {
    assert_eq!(gen("typedef boolean Foo;"), typedef_expected("Foo", "bool"));
}

#[test]
fn typedef_array_dim_1() {
    assert_eq!(gen("typedef octet Foo[2];"), typedef_expected("Foo", "[u8;2]"));
}

#[test]
fn typedef_array_dim_2() {
    // dimensions stay in source order, outermost first, and the inner size
    // keeps its verbatim, unevaluated text
    assert_eq!(gen("typedef octet Foo[2][3+3];"), typedef_expected("Foo", "[[u8;2];3+3]"));
}

#[test]
fn typedef_scoped_name_relative() {
    assert_eq!(gen("typedef A::B Foo;"), typedef_expected("Foo", "A::B"));
}

#[test]
fn typedef_scoped_name_absolute() {
    assert_eq!(gen("typedef ::A::B Foo;"), typedef_expected("Foo", "crate::A::B"));
}

#[test]
fn typedef_multi_declarators() {
    // one line, two declarators: two aliases sharing the same resolved type
    let expected = format!(
        "{}{}{}",
        typedef_expected("Foo", "i32"),
        "\n//\n//\n#[allow(dead_code)]\n#[allow(non_camel_case_types)]\n",
        "pub type Bar = i32;\n"
    );
    assert_eq!(gen("typedef long Foo, Bar;"), expected);
}

#[test]
fn struct_members() {
    let expected = format!(
        "{}\n//\n//\n#[allow(dead_code)]\n#[allow(non_camel_case_types)]\n#[derive(Serialize, Deserialize)]\n#[derive(Clone, Debug)]\npub struct Foo {{\n    m_l1: i32,\n    m_l2: i32,\n    m_d: f64,\n}}\n",
        PRELUDE
    );
    assert_eq!(gen("struct Foo { long m_l1,m_l2; double m_d; };"), expected);
}

#[test]
fn struct_module() {
    let expected = format!(
        "{}#[allow(non_snake_case)]\nmod A {{\n    #[allow(unused_imports)]\n    use serde_derive::{{Serialize, Deserialize}};\n\n    //\n    //\n    #[allow(dead_code)]\n    #[allow(non_camel_case_types)]\n    #[derive(Serialize, Deserialize)]\n    #[derive(Clone, Debug)]\n    pub struct Foo {{\n        m_l1: i32,\n        m_l2: i32,\n        m_d: f64,\n    }}\n}}\n",
        PRELUDE
    );
    assert_eq!(gen("module A { struct Foo { long m_l1,m_l2; double m_d; }; };"), expected);
}

#[test]
fn nested_modules_indent() {
    // each nested scope opens one level deeper and carries its own preamble
    let expected = format!(
        "{}#[allow(non_snake_case)]\nmod A {{\n    #[allow(unused_imports)]\n    use serde_derive::{{Serialize, Deserialize}};\n    #[allow(non_snake_case)]\n    mod B {{\n        #[allow(unused_imports)]\n        use serde_derive::{{Serialize, Deserialize}};\n\n        //\n        //\n        #[allow(dead_code)]\n        #[allow(non_camel_case_types)]\n        pub type T = i16;\n    }}\n}}\n",
        PRELUDE
    );
    assert_eq!(gen("module A { module B { typedef short T; }; };"), expected);
}

#[test]
fn emission_order_fixed() {
    // the source declares the constant first; the emitter still renders
    // types, then submodules, then constants
    let expected = format!(
        "{}\n//\n//\n#[allow(dead_code)]\n#[allow(non_camel_case_types)]\npub type T = i32;\n#[allow(non_snake_case)]\nmod A {{\n    #[allow(unused_imports)]\n    use serde_derive::{{Serialize, Deserialize}};\n}}\n#[allow(dead_code)]\nconst C: i32 = 1;\n",
        PRELUDE
    );
    assert_eq!(gen("const long C = 1; module A { }; typedef long T;"), expected);
}

#[test]
fn duplicate_identifier_first_wins() {
    // re-adding a type under an already-registered identifier is a no-op
    assert_eq!(gen("typedef long Foo; typedef short Foo;"), typedef_expected("Foo", "i32"));
    // and the model after two additions equals the model after one
    assert_eq!(gen("typedef long Foo; typedef short Foo;"), gen("typedef long Foo;"));
}

#[test]
fn const_op_and() {
    assert_eq!(gen("const long Foo = 2&1;"), const_expected("Foo", "i32", "2&1"));
}

#[test]
fn const_op_add() {
    assert_eq!(gen("const long Foo = 2+1;"), const_expected("Foo", "i32", "2+1"));
}

#[test]
fn const_op_sub() {
    assert_eq!(gen("const long Foo = 2-1;"), const_expected("Foo", "i32", "2-1"));
}

#[test]
fn const_op_lshift() {
    assert_eq!(gen("const long Foo = 2<<1;"), const_expected("Foo", "i32", "2<<1"));
}

#[test]
fn const_op_rshift() {
    assert_eq!(gen("const long Foo = 2>>1;"), const_expected("Foo", "i32", "2>>1"));
}

#[test]
fn const_op_or() {
    assert_eq!(gen("const long Foo = 2|1;"), const_expected("Foo", "i32", "2|1"));
}

#[test]
fn const_op_xor() {
    assert_eq!(gen("const long Foo = 2^1;"), const_expected("Foo", "i32", "2^1"));
}

#[test]
fn const_op_mul() {
    assert_eq!(gen("const long Foo = 2*1;"), const_expected("Foo", "i32", "2*1"));
}

#[test]
fn const_op_div() {
    assert_eq!(gen("const long Foo = 2/1;"), const_expected("Foo", "i32", "2/1"));
}

#[test]
fn const_op_mod() {
    assert_eq!(gen("const long Foo = 2%1;"), const_expected("Foo", "i32", "2%1"));
}

#[test]
fn const_unary_minus() {
    assert_eq!(gen("const long Foo = -1;"), const_expected("Foo", "i32", "-1"));
}

#[test]
fn const_unary_invert() {
    assert_eq!(gen("const long Foo = ~1;"), const_expected("Foo", "i32", "~1"));
}

#[test]
fn const_parenthesized() {
    assert_eq!(gen("const long Foo = (2+1)*3;"), const_expected("Foo", "i32", "(2+1)*3"));
}

#[test]
fn const_boolean_literal() {
    assert_eq!(gen("const boolean B = TRUE;"), const_expected("B", "bool", "true"));
    assert_eq!(gen("const boolean C = FALSE;"), const_expected("C", "bool", "false"));
}

#[test]
fn const_char_literal() {
    assert_eq!(gen("const char C = 'A';"), const_expected("C", "char", "'A'"));
}

#[test]
fn const_float_literal() {
    assert_eq!(gen("const double F = 1234.56;"), const_expected("F", "f64", "1234.56"));
}

#[test]
fn const_hex_literal() {
    assert_eq!(gen("const long H = 0x1F;"), const_expected("H", "i32", "0x1F"));
}

#[test]
fn const_octal_literal() {
    assert_eq!(gen("const long O = 017;"), const_expected("O", "i32", "017"));
}

#[test]
fn const_scoped_name_initializer() {
    assert_eq!(gen("const long N = A::B;"), const_expected("N", "i32", "A::B"));
}

#[test]
fn include_directive() {
    // an include line is recognized and skipped; generation reads no files
    let input = "#include \"other.idl\"\ntypedef long Foo;";
    assert_eq!(gen(input), typedef_expected("Foo", "i32"));
}

#[test]
fn union_members() {
    // union bodies are recognized syntactically but not lowered: nothing is
    // registered, so only the prelude and the root preamble are emitted
    let input = "union U switch (long) { case 1: long a; default: short b; };";
    assert_eq!(gen(input), PRELUDE.to_string());
}

#[test]
fn comments_are_skipped() {
    let input = "// line comment\n/* block\ncomment */ typedef long Foo;";
    assert_eq!(gen(input), typedef_expected("Foo", "i32"));
}

#[test]
fn empty_input_emits_prelude() {
    assert_eq!(gen(""), PRELUDE.to_string());
}

#[test]
fn syntax_error_leaves_output_unwritten() {
    let mut out = String::from("kept");
    let config = Configuration::default();
    let r = generate_with_search_path(&mut out, vec![], &config, "interface X {};");
    assert!(r.is_err());
    assert_eq!(out, "kept");
}
