use mini_lust::thrift_parser::basic::{Comment, Identifier, ListSeparator, Literal, Separator};
use mini_lust::thrift_parser::constant::{
    parse_list_separator, ConstList, ConstMap, ConstValue, DoubleConstant, IntConstant,
};
use mini_lust::thrift_parser::definition::{
    Const, Enum, EnumValue, Service, Struct, Typedef,
};
use mini_lust::thrift_parser::document::Document;
use mini_lust::thrift_parser::field::Field;
use mini_lust::thrift_parser::functions::Function;
use mini_lust::thrift_parser::header::{Include, Namespace, NamespaceScope};
use mini_lust::thrift_parser::types::{CppType, FieldType};

fn double(text: &str) -> f64 {
    DoubleConstant::parse(text).unwrap().1.as_str().parse::<f64>().unwrap()
}

fn close(a: f64, b: f64) -> bool {
    (a - b).abs() <= f64::EPSILON * a.abs().max(b.abs()) * 4.0
}

#[test]
fn test_literal() {
    let inputs = vec![
        "'ihciah'balabala",
        "'ihcia\"h'''''",
        "\"ihciah\"balabala",
        "\"ihcia'h\"''''",
    ];
    let expected = vec!["ihciah", "ihcia\"h", "ihciah", "ihcia'h"];
    for (i, e) in inputs.into_iter().zip(expected.into_iter()) {
        let parsed = Literal::parse(i);
        assert!(parsed.is_ok());
        assert_eq!(parsed.unwrap().1, Literal::from(e));
    }
    assert!(Literal::parse("'ihcia\"aa").is_err());
}

#[test]
fn literal_leaves_the_rest() {
    let (rest, parsed) = Literal::parse("'ihciah'balabala").unwrap();
    assert_eq!(rest, "balabala");
    assert_eq!(parsed.as_str(), "ihciah");
}

#[test]
fn test_identifier() {
    let inputs = vec!["_ihc123iah,", "ihc123iah,"];
    let expected = vec!["_ihc123iah", "ihc123iah"];
    for (i, e) in inputs.into_iter().zip(expected.into_iter()) {
        let parsed = Identifier::parse(i);
        assert!(parsed.is_ok());
        assert_eq!(parsed.unwrap().1, Identifier::from(e));
    }
    for i in vec!["_123", "_", "123"] {
        assert!(Identifier::parse(i).is_err());
    }
}

#[test]
fn test_list_separator() {
    assert!(ListSeparator::parse(";").is_ok());
    assert!(ListSeparator::parse(",").is_ok());
    assert!(ListSeparator::parse("a").is_err());
}

#[test]
fn test_comment() {
    let inputs = vec![
        "//ihciah's #content",
        "//ihciah's #content balabala\nNextLine",
        "#ihciah's ///#content",
        "/*ihciah's con@#tent*///aaa",
    ];
    let expected = vec![
        "ihciah's #content",
        "ihciah's #content balabala",
        "ihciah's ///#content",
        "ihciah's con@#tent",
    ];
    for (i, e) in inputs.into_iter().zip(expected.into_iter()) {
        let parsed = Comment::parse(i);
        assert!(parsed.is_ok());
        assert_eq!(parsed.unwrap().1, Comment::from(e));
    }
}

#[test]
fn separator_takes_comments_and_blanks() {
    let (rest, _) = Separator::parse("  // one\n /* two */\t# three\nnext").unwrap();
    assert_eq!(rest, "next");
    assert!(Separator::parse("next").is_err());
    let (rest, _) = Separator::parse(" /* open").unwrap();
    assert_eq!(rest, "/* open");
}

#[test]
fn list_separator_with_separators() {
    assert_eq!(parse_list_separator(" , x").unwrap().0, "x");
    assert_eq!(parse_list_separator(";x").unwrap().0, "x");
    assert_eq!(parse_list_separator("  x").unwrap().0, "x");
    assert!(parse_list_separator("x").is_err());
}

#[test]
fn test_int_constant() {
    let inputs = vec!["123", "+123", "-123"];
    let expected = vec![123, 123, -123];
    for (i, e) in inputs.into_iter().zip(expected.into_iter()) {
        let parsed = IntConstant::parse(i);
        assert!(parsed.is_ok());
        assert_eq!(parsed.unwrap().1, IntConstant(e));
    }
    for i in vec!["-+123", "+-123", "+", "-", "10000000000000000000000000000000000000000000000"] {
        assert!(IntConstant::parse(i).is_err());
    }
}

#[test]
fn int_constant_at_the_limits() {
    assert_eq!(IntConstant::parse("9223372036854775807").unwrap().1, IntConstant(i64::MAX));
    assert_eq!(IntConstant::parse("-9223372036854775808").unwrap().1, IntConstant(i64::MIN));
    assert!(IntConstant::parse("9223372036854775808").is_err());
    assert!(IntConstant::parse("-9223372036854775809").is_err());
    assert_eq!(IntConstant::parse("0007x").unwrap(), ("x", IntConstant(7)));
}

#[test]
fn test_double_constant() {
    let inputs = vec![
        "123.0",
        ".5",
        "-.5",
        "+123.2333333e10",
        "+123.2333333E100",
        "+123.1.THE.FOLLOWING",
        "1.1",
    ];
    let expected = vec![123.0, 0.5, -0.5, 123.2333333e10, 123.2333333E100, 123.1, 1.1];
    for (i, e) in inputs.into_iter().zip(expected.into_iter()) {
        assert!(DoubleConstant::parse(i).is_ok());
        assert!(close(double(i), e), "{} should read as {}", i, e);
    }
    assert!(DoubleConstant::parse("+-123.THE.FOLLOWING").is_err());
}

fn int_value(v: i64) -> ConstValue {
    ConstValue::Int(IntConstant(v))
}

#[test]
fn test_const_list() {
    let first = ConstList::parse("[ 1,  3 ; 5  6/**/7 , ihciah 1.1]").unwrap().1;
    assert_eq!(first.0.len(), 7);
    assert_eq!(first.0[0], int_value(1));
    assert_eq!(first.0[1], int_value(3));
    assert_eq!(first.0[2], int_value(5));
    assert_eq!(first.0[3], int_value(6));
    assert_eq!(first.0[4], int_value(7));
    assert_eq!(first.0[5], ConstValue::Identifier(Identifier::from("ihciah")));
    match &first.0[6] {
        ConstValue::Double(d) => assert!(close(d.as_str().parse::<f64>().unwrap(), 1.1)),
        other => panic!("expected a double, found {:?}", other),
    }

    let second = ConstList::parse("[6/**/7 ihciah 1.1   A ]").unwrap().1;
    assert_eq!(second.0.len(), 5);
    assert_eq!(second.0[0], int_value(6));
    assert_eq!(second.0[1], int_value(7));
    assert_eq!(second.0[2], ConstValue::Identifier(Identifier::from("ihciah")));
    match &second.0[3] {
        ConstValue::Double(d) => assert!(close(d.as_str().parse::<f64>().unwrap(), 1.1)),
        other => panic!("expected a double, found {:?}", other),
    }
    assert_eq!(second.0[4], ConstValue::Identifier(Identifier::from("A")));

    assert_eq!(ConstList::parse("[]").unwrap().1, ConstList(vec![]));
    assert!(ConstList::parse("[1,2,3A]").is_err());
}

#[test]
fn test_const_map() {
    assert_eq!(
        ConstMap::parse("{1:2, 3:4}").unwrap().1,
        ConstMap(vec![(int_value(1), int_value(2)), (int_value(3), int_value(4))])
    );
    assert_eq!(ConstMap::parse("{}").unwrap().1, ConstMap(vec![]));
    assert!(ConstMap::parse("{1:34:5}").is_err());
}

#[test]
fn test_const() {
    assert_eq!(
        Const::parse("const bool is_rust_easy = 'yes!';").unwrap().1,
        Const {
            name: Identifier::from("is_rust_easy"),
            type_: FieldType::Bool,
            value: ConstValue::Literal(Literal::from("yes!")),
        }
    );
}

#[test]
fn test_typedef() {
    assert_eq!(
        Typedef::parse("typedef i32 MyI32").unwrap().1,
        Typedef { old: FieldType::I32, alias: Identifier::from("MyI32") }
    );
}

fn pl() -> Enum {
    Enum {
        name: Identifier::from("PL"),
        children: vec![
            EnumValue { name: Identifier::from("Rust"), value: None },
            EnumValue { name: Identifier::from("Go"), value: Some(IntConstant::from(2)) },
            EnumValue { name: Identifier::from("Cpp"), value: Some(IntConstant::from(3)) },
        ],
    }
}

#[test]
fn test_enum() {
    assert_eq!(Enum::parse("enum PL { Rust Go=2 , Cpp = 3 }").unwrap().1, pl());
    assert_eq!(Enum::parse("enum PL{Rust Go=2,Cpp=3}").unwrap().1, pl());
}

fn user_struct() -> Struct {
    Struct {
        name: Identifier::from("user"),
        fields: vec![
            Field {
                id: Some(IntConstant::from(1)),
                required: Some(false),
                type_: FieldType::String,
                name: Identifier::from("name"),
                default: None,
            },
            Field {
                id: Some(IntConstant::from(2)),
                required: None,
                type_: FieldType::I32,
                name: Identifier::from("age"),
                default: Some(ConstValue::Int(IntConstant::from(18))),
            },
        ],
    }
}

#[test]
fn definition_test_struct() {
    assert_eq!(
        Struct::parse("struct user{1:optional string name; 2:i32 age=18}").unwrap().1,
        user_struct()
    );
    assert_eq!(
        Struct::parse("struct user { 1 : optional string name ; 2 : i32 age = 18 }").unwrap().1,
        user_struct()
    );
}

fn get_user() -> Function {
    Function {
        oneway: false,
        returns: Some(FieldType::String),
        name: Identifier::from("GetUser"),
        parameters: vec![Field {
            id: None,
            required: Some(true),
            type_: FieldType::String,
            name: Identifier::from("name"),
            default: None,
        }],
        exceptions: None,
    }
}

#[test]
fn test_service() {
    let expected = Service {
        name: Identifier::from("DemoService"),
        extension: Some(Identifier::from("BaseService")),
        functions: vec![get_user(), get_user()],
    };
    assert_eq!(
        Service::parse(
            "service DemoService extends BaseService { \
         string GetUser(required string name),
         string GetUser(required string name) }"
        )
        .unwrap()
        .1,
        expected
    );
}

#[test]
fn test_document() {
    let mut expected = Document::default();
    expected.includes.push(Include::from(Literal::from("another.thrift")));
    assert_eq!(Document::parse("include 'another.thrift'").unwrap().1, expected);
}

#[test]
fn document_with_everything() {
    let idl = "\
// a demo
namespace rs demo
include \"base.thrift\"
cpp_include 'x.h'
typedef i64 Id
const i32 LIMIT = 10
enum Color { RED = 1, GREEN }
struct User {
    1: required i32 user_id,
    2: required string user_name,
    3: required bool is_male,
    10: optional map<string, string> extra,
}
union U { 1: i32 a; 2: string b }
exception Oops { 1: string why }
service ItemService {
    GetUserResponse GetUser(1: GetUserRequest req, 2: bool shuffle) throws (1: Oops oops),
    oneway void Ping()
}
trailing";
    let (rest, doc) = Document::parse(idl).unwrap();
    assert_eq!(rest, "trailing");
    assert_eq!(doc.namespaces.len(), 1);
    assert_eq!(doc.namespaces[0].scope, NamespaceScope::from("rs"));
    assert_eq!(doc.namespaces[0].name, Identifier::from("demo"));
    assert_eq!(doc.includes.len(), 1);
    assert_eq!(doc.cpp_includes.len(), 1);
    assert_eq!(doc.typedefs.len(), 1);
    assert_eq!(doc.consts.len(), 1);
    assert_eq!(doc.enums.len(), 1);
    assert_eq!(doc.enums[0].children.len(), 2);
    assert_eq!(doc.structs.len(), 1);
    assert_eq!(doc.structs[0].fields.len(), 4);
    assert_eq!(
        doc.structs[0].fields[3].type_,
        FieldType::MapOf(Box::new(FieldType::String), Box::new(FieldType::String))
    );
    assert_eq!(doc.structs[0].fields[3].required, Some(false));
    assert_eq!(doc.unions.len(), 1);
    assert_eq!(doc.exceptions.len(), 1);
    assert_eq!(doc.services.len(), 1);
    let functions = &doc.services[0].functions;
    assert_eq!(functions.len(), 2);
    assert_eq!(functions[0].parameters.len(), 2);
    assert_eq!(functions[0].exceptions.as_ref().unwrap().len(), 1);
    assert!(functions[1].oneway);
    assert_eq!(functions[1].returns, None);
}

fn name_field(id: Option<IntConstant>) -> Field {
    Field {
        id,
        required: Some(true),
        type_: FieldType::String,
        name: Identifier::from("name"),
        default: Some(ConstValue::Literal(Literal::from("ihciah"))),
    }
}

#[test]
fn test_field() {
    let expected = name_field(None);
    assert_eq!(Field::parse("required  string  name  =  'ihciah'").unwrap().1, expected);
    assert_eq!(Field::parse("required string name='ihciah';").unwrap().1, expected);

    let expected = name_field(Some(IntConstant::from(3)));
    assert_eq!(Field::parse("3 : required  string  name  =  'ihciah'").unwrap().1, expected);
    assert_eq!(Field::parse("3:required string name='ihciah';").unwrap().1, expected);
}

#[test]
fn test_function() {
    let expected = Function {
        oneway: false,
        returns: Some(FieldType::String),
        name: Identifier::from("GetUser"),
        parameters: vec![name_field(None)],
        exceptions: None,
    };
    assert_eq!(
        Function::parse("string GetUser(required string name='ihciah')").unwrap().1,
        expected
    );

    let expected = Function {
        oneway: true,
        returns: None,
        name: Identifier::from("DeleteUser"),
        parameters: vec![Field {
            id: Some(IntConstant::from(10086)),
            required: Some(false),
            type_: FieldType::I32,
            name: Identifier::from("age"),
            default: None,
        }],
        exceptions: None,
    };
    assert_eq!(
        Function::parse("oneway void DeleteUser(10086:optional i32 age)").unwrap().1,
        expected
    );
}

#[test]
fn header_test_include() {
    assert_eq!(
        Include::parse("include 'another.thrift'").unwrap().1,
        Include::from(Literal::from("another.thrift"))
    )
}

#[test]
fn header_test_namespace() {
    assert_eq!(
        Namespace::parse("namespace * MyNamespace").unwrap().1,
        Namespace { scope: NamespaceScope::from("*"), name: Identifier::from("MyNamespace") }
    )
}

#[test]
fn test_cpp_type() {
    let inputs = vec!["cpp_type \"MINI-LUST\"", "cpp_type 'ihciah'"];
    let expected = vec![Literal::from("MINI-LUST"), Literal::from("ihciah")];
    for (i, e) in inputs.into_iter().zip(expected.into_iter()) {
        let parsed = CppType::parse(i);
        assert!(parsed.is_ok());
        assert_eq!(parsed.unwrap().1, CppType::from(e));
    }
}

#[test]
fn test_field_type() {
    assert_eq!(FieldType::parse("bool").unwrap().1, FieldType::Bool);
    assert_eq!(FieldType::parse("i16").unwrap().1, FieldType::I16);
    assert_eq!(
        FieldType::parse("map <bool, bool>").unwrap().1,
        FieldType::MapOf(Box::new(FieldType::Bool), Box::new(FieldType::Bool))
    );
    assert_eq!(
        FieldType::parse("map<bool,bool>").unwrap().1,
        FieldType::MapOf(Box::new(FieldType::Bool), Box::new(FieldType::Bool))
    );
    assert_eq!(
        FieldType::parse("set <bool>").unwrap().1,
        FieldType::SetOf(Box::new(FieldType::Bool))
    );
    assert_eq!(
        FieldType::parse("set<bool>").unwrap().1,
        FieldType::SetOf(Box::new(FieldType::Bool))
    );
    assert_eq!(
        FieldType::parse("list <bool>").unwrap().1,
        FieldType::List(Box::new(FieldType::Bool))
    );
    assert_eq!(
        FieldType::parse("list<bool>").unwrap().1,
        FieldType::List(Box::new(FieldType::Bool))
    );
    assert_eq!(
        FieldType::parse("ihc_iah").unwrap().1,
        FieldType::Identifier(Identifier::from("ihc_iah"))
    );
}

#[test]
fn field_type_corner_cases() {
    // a base type is taken as soon as its word stands there
    assert_eq!(FieldType::parse("i32x").unwrap(), ("x", FieldType::I32));
    // a word that only starts like a container is an identifier
    assert_eq!(
        FieldType::parse("mapping").unwrap().1,
        FieldType::Identifier(Identifier::from("mapping"))
    );
    // the annotation of a list stands behind it
    assert_eq!(
        FieldType::parse("list<i32> cpp_type 'v' x").unwrap(),
        (" x", FieldType::List(Box::new(FieldType::I32)))
    );
    assert_eq!(
        FieldType::parse("map cpp_type 'm' <string, list<i64>>").unwrap().1,
        FieldType::MapOf(
            Box::new(FieldType::String),
            Box::new(FieldType::List(Box::new(FieldType::I64)))
        )
    );
    assert!(FieldType::parse("<i32>").is_err());
}

#[test]
fn every_scope_is_read_whole() {
    let scopes = [
        "*", "c_glib", "rs", "cpp", "delphi", "haxe", "go", "java", "js", "lua", "netstd", "perl",
        "php", "py", "py.twisted", "rb", "st", "xsd",
    ];
    for scope in scopes {
        assert_eq!(NamespaceScope::parse(scope), Ok(("", NamespaceScope::from(scope))));
        let text = format!("namespace {} a.b", scope);
        assert_eq!(
            Namespace::parse(&text),
            Ok(("", Namespace { scope: NamespaceScope::from(scope), name: Identifier::from("a.b") }))
        );
    }
    // the longer of two scopes wins, and what follows is left
    assert_eq!(NamespaceScope::parse("py.twisted x"), Ok((" x", NamespaceScope::from("py.twisted"))));
    assert_eq!(NamespaceScope::parse("py.twist"), Ok((".twist", NamespaceScope::from("py"))));
    assert_eq!(NamespaceScope::parse("py x"), Ok((" x", NamespaceScope::from("py"))));
    assert!(NamespaceScope::parse("ruby").is_err());
}

#[test]
fn readers_at_a_position_past_the_end_read_nothing() {
    let chars: Vec<char> = "i32 a".chars().collect();
    let past = chars.len() + 3;
    assert_eq!(FieldType::parse_at(&chars, past), None);
    assert_eq!(FieldType::parse_base_type_at(&chars, past), None);
    assert_eq!(FieldType::parse_container_type_at(&chars, past), None);
    assert_eq!(FieldType::parse_identifier_type_at(&chars, past), None);
    assert_eq!(Field::parse_at(&chars, past), None);
    assert_eq!(Field::parse_list_at(&chars, past), (vec![], past));
    assert_eq!(Function::parse_at(&chars, past), None);
    assert_eq!(Function::parse_list_at(&chars, past), (vec![], past));
    assert_eq!(Separator::parse_at(&chars, past), None);
    assert_eq!(Separator::skip(&chars, past), past);
    assert_eq!(Identifier::parse_at(&chars, past), None);
    // at the end itself nothing stands either, and within the text the readers read
    assert_eq!(Field::parse_at(&chars, chars.len()), None);
    assert_eq!(FieldType::parse_at(&chars, 0), Some((FieldType::I32, 3)));
    assert_eq!(mini_lust::thrift_parser::basic::rest_of("ab", 5), "");
    assert_eq!(mini_lust::thrift_parser::basic::rest_of("ab", 1), "b");
    assert_eq!(mini_lust::types::FieldType::parse_meta(&chars, past), None);
}
