use mini_lust::generator::code_gen::basic::{field_name, ident_name, struct_name};
use mini_lust::generator::code_gen::errors::CodeGenError;
use mini_lust::generator::code_gen::CodeGenContext;
use mini_lust::generator::errors::GenerateError;
use mini_lust::generator::node::Node;
use mini_lust::generator::simple::SimpleBuilder;
use mini_lust::generator::{Generator, Source, Walk, UNREAD};
use mini_lust::thrift_parser::basic::Identifier;
use mini_lust::thrift_parser::definition::{Service, Struct};
use mini_lust::thrift_parser::document::Document;

#[test]
fn test_gen_struct() {
    // #[derive(Debug)]
    // pub struct MyStruct {}
    let s = Struct::parse("struct MyStruct {}").unwrap().1;
    assert_eq!(
        s.gen_token().unwrap().to_string(),
        "# [derive (:: mini_lust_macros :: Message , Debug , Clone , PartialEq)] pub struct MyStruct { } impl :: mini_lust_chap6 :: OrigType for MyStruct { }"
    );

    // #[derive(Debug)]
    // pub struct my_struct {
    //     pub count: ::std::option::Option<i32>,
    //     pub user_list:
    //         ::std::collections::BTreeMap<::std::string::String, ::std::string::String>,
    // }
    let s = Struct::parse(
        "struct my_struct {1: required i32 count, 2: optional map<string, string> UserList}",
    )
    .unwrap()
    .1;
    assert_eq!(s.gen_token().unwrap().to_string(), "# [derive (:: mini_lust_macros :: Message , Debug , Clone , PartialEq)] pub struct my_struct { # [mini_lust (field_id = 1i16 , required = \"true\" , field_type = \"i32\")] pub count : i32 , # [mini_lust (field_id = 2i16 , required = \"false\" , field_type = \"map(string, string)\")] pub user_list : :: std :: option :: Option < :: std :: collections :: BTreeMap < :: std :: string :: String , :: std :: string :: String > > , } impl :: mini_lust_chap6 :: OrigType for my_struct { }");
}

#[test]
fn document_test_namespace() {
    let doc = Document::default();
    let cx = CodeGenContext {
        includes: vec![],
        namespaces: vec!["a".to_string(), "b".to_string(), "c".to_string()],
    };

    // pub mod a {
    //     pub mod b {
    //         pub mod c {}
    //     }
    // }
    assert_eq!(
        doc.gen_token(&cx).unwrap().to_string(),
        "pub mod a { pub mod b { pub mod c { } } }"
    );
}

#[test]
fn document_test_include() {
    let doc = Document::default();
    let cx = CodeGenContext {
        includes: vec!["a::b::c".to_string(), "c::d::e".to_string()],
        namespaces: vec![],
    };

    // pub use a::b::c;
    // pub use c::d::e;
    assert_eq!(
        doc.gen_token(&cx).unwrap().to_string(),
        "pub use a :: b :: c ; pub use c :: d :: e ;"
    );
}

#[test]
fn document_test_struct() {
    let doc = Document::parse(
        "struct MyBook { 1: string author, 2: i32 price } service TestSvc { void GetName(); }",
    )
    .unwrap()
    .1;
    let cx = CodeGenContext::default();
    let text = doc.gen_token(&cx).unwrap().to_string();
    println!("{}", text);
    assert!(text.starts_with(
        "# [derive (:: mini_lust_macros :: Message , Debug , Clone , PartialEq)] pub struct MyBook { # [mini_lust (field_id = 1i16 , field_type = \"string\")] pub author : :: std :: option :: Option < :: std :: string :: String > ,"
    ));
    assert!(text.contains("pub struct AnonymousTestSvcGetNameArgs { }"));
    assert!(text.contains(
        "pub enum AnonymousTestSvcGetNameResult { # [mini_lust (field_id = 1)] Success (()) , }"
    ));
    assert!(text.contains("pub enum AnonymousTestSvcRequest { GetName (AnonymousTestSvcGetNameArgs) , }"));
    assert!(text.contains("pub trait TestSvc { async fn GetName (& self ,)"));
    assert!(text.contains("pub struct TestSvcServer < S >"));
}

#[test]
fn context_splits_and_rewrites() {
    let cx = CodeGenContext::new(
        vec!["a.b.c".to_string(), "plain".to_string()],
        "x::y::z".to_string(),
    );
    assert_eq!(cx.includes, vec!["a::b::c".to_string(), "plain".to_string()]);
    assert_eq!(cx.namespaces, vec!["x".to_string(), "y".to_string(), "z".to_string()]);
    // a namespace as a document writes it: one module for each segment
    let cx = CodeGenContext::new(vec!["a.b.c".to_string()], "a.b.c".to_string());
    assert_eq!(cx.includes, vec!["a::b::c".to_string()]);
    assert_eq!(cx.namespaces, vec!["a".to_string(), "b".to_string(), "c".to_string()]);
    let cx = CodeGenContext::new(vec![], "a.b::c".to_string());
    assert_eq!(cx.namespaces, vec!["a".to_string(), "b".to_string(), "c".to_string()]);
    let cx = CodeGenContext::new(vec![], "a:b".to_string());
    assert_eq!(cx.namespaces, vec!["a:b".to_string()]);
    let cx = CodeGenContext::new(vec![], "".to_string());
    assert_eq!(cx.namespaces, vec!["".to_string()]);
    let cx = CodeGenContext::new(vec![], "a::".to_string());
    assert_eq!(cx.namespaces, vec!["a".to_string(), "".to_string()]);
}

#[test]
fn service_with_exception_without_id_is_refused() {
    let s = Service::parse("service S { i32 F() throws (Oops e) }").unwrap().1;
    assert_eq!(s.gen_token(), Err(CodeGenError::MissingExceptionId));
    let s = Service::parse("service S { i32 F() throws (3: Oops e) }").unwrap().1;
    let text = s.gen_token().unwrap();
    assert!(text.contains("# [mini_lust (field_id = 3i16)] e (Oops) ,"));
}

#[test]
fn oneway_function_has_no_result() {
    let s = Service::parse("service S { oneway void Ping(1: required i32 n) }").unwrap().1;
    let text = s.gen_token().unwrap();
    assert!(!text.contains("pub enum AnonymousSPingResult"));
    assert!(text.contains("pub enum AnonymousSResponse { Ping (()) , }"));
    assert!(text.contains("let ret = inner . Ping (r . n) . await ; Ok (None)"));
    // the client sends and awaits nothing; neither side names a result
    assert!(!text.contains("AnonymousSPingResult"), "{}", text);
    assert!(
        text.contains(
            "pub async fn Ping (& mut self , n : i32 ,) -> :: mini_lust_chap6 :: Result < () > { \
             let anonymous_request = AnonymousSRequest :: Ping (AnonymousSPingArgs { n , }) ; \
             self . inner_client . oneway (\"Ping\" , anonymous_request) . await }"
        ),
        "{}",
        text
    );
    assert!(
        text.contains(
            "async fn Ping (& self , n : i32 ,) -> :: mini_lust_chap6 :: ApplicationResult < () >;"
        ),
        "{}",
        text
    );
    // a function that answers calls and unwraps
    let s = Service::parse("service S { i32 Get(1: required i32 n) }").unwrap().1;
    let text = s.gen_token().unwrap();
    assert!(text.contains("self . inner_client . call (\"Get\" , anonymous_request) . await ?"));
    assert!(text.contains(
        "async fn Get (& self , n : i32 ,) -> :: mini_lust_chap6 :: ApplicationResult < AnonymousSGetResult >;"
    ));
}

fn node(path: &str, stem: &str, content: &str) -> Node {
    Node::from_source(path.to_string(), Some(stem), content).unwrap()
}

#[test]
fn test_new_node() {
    let node = node(
        "/thrift/demo_base.thrift",
        "demo_base",
        "namespace rs demo\nstruct User { 1: required i32 user_id }",
    );
    assert_eq!(node.namespace(), "demo");
}

#[test]
fn namespace_falls_back_to_the_file_stem() {
    assert_eq!(node("/x/DemoBase.thrift", "DemoBase", "struct A {}").namespace(), "demo_base");
    assert_eq!(
        node("/x/a.thrift", "a", "namespace * all\nnamespace go other").namespace(),
        "all"
    );
    assert_eq!(
        node("/x/a.thrift", "a", "namespace rs first\nnamespace rs second").namespace(),
        "second"
    );
    assert!(matches!(
        Node::from_source("/".to_string(), None, "struct A {}"),
        Err(GenerateError::Unknown(_))
    ));
}

fn sources(includes: Vec<Vec<usize>>) -> Vec<Source> {
    includes
        .into_iter()
        .enumerate()
        .map(|(i, inc)| Source {
            node: node(
                &format!("/f{}.thrift", i),
                &format!("f{}", i),
                &format!("struct S{} {{}}", i),
            ),
            includes: inc,
        })
        .collect()
}

#[test]
fn includes_come_first_and_once() {
    // 0 includes 1 and 2, and both include 3
    let files = sources(vec![vec![1, 2], vec![3], vec![3], vec![]]);
    let text = Generator::generate_token_stream(&files, &vec![0]).unwrap();
    let order: Vec<usize> = ["S0", "S1", "S2", "S3"]
        .iter()
        .map(|s| text.find(&format!("pub struct {} ", s)).unwrap())
        .collect();
    assert!(order[3] < order[1] && order[1] < order[2] && order[2] < order[0]);
    assert_eq!(text.matches("pub struct S3 ").count(), 1);
    assert!(text.contains("pub mod f1 { pub use f3 ; # [derive"));
}

#[test]
fn include_cycle_is_refused() {
    let files = sources(vec![vec![1], vec![2], vec![0]]);
    assert_eq!(Generator::generate_token_stream(&files, &vec![0]), Err(GenerateError::Loop()));
    let files = sources(vec![vec![0]]);
    assert_eq!(Generator::generate_source(&files, &vec![0]), Err(GenerateError::Loop()));
    // a cycle that the root only reaches
    let files = sources(vec![vec![1], vec![2], vec![1]]);
    assert_eq!(Generator::generate_source(&files, &vec![0]), Err(GenerateError::Loop()));
}

#[test]
fn include_that_was_not_read_is_refused() {
    let files = sources(vec![vec![7]]);
    assert!(matches!(
        Generator::generate_source(&files, &vec![0]),
        Err(GenerateError::Path(_))
    ));
}

#[test]
fn generator_collects_its_settings() {
    let g = Generator::new().add_idl("a.thrift").add_idl("b.thrift").output("out.rs");
    assert_eq!(g.idls(), &vec!["a.thrift".to_string(), "b.thrift".to_string()]);
    assert_eq!(g.output_file(), Some(&"out.rs".to_string()));
    assert_eq!(Generator::default().output_file(), None);
}

#[test]
fn simple_build() {
    let builder = SimpleBuilder::new().with_file("thrift/demo.thrift");
    assert_eq!(builder.file(), Some(&"thrift/demo.thrift".to_string()));
    let code = SimpleBuilder::code_for("struct A {}").unwrap();
    assert_eq!(code, "pub fn demo () -> String { \"DEMO\" . to_string () }");
}

const DEMO_BASE: &str = "namespace rs demo_base\n\nstruct User {\n    1: required i32 user_id,\n    2: required string user_name,\n    3: required bool is_male,\n\n    10: optional map<string, string> extra,\n}\n";

const DEMO: &str = "include \"demo_base.thrift\"\n\nnamespace rs demo\n\nstruct GetUserRequest {\n    1: i32 user_id,\n    2: string user_name,\n    3: bool is_male,\n}\n\nstruct GetUserResponse {\n    1: required list<demo_base.User> users,\n}\n\nservice ItemService {\n    GetUserResponse GetUser (1: GetUserRequest req, 2: bool shuffle),\n}\n";

#[test]
fn test_gen() {
    let g = Generator::new().add_idl("../mini-lust-generator/thrift/demo_base.thrift");
    assert_eq!(g.idls(), &vec!["../mini-lust-generator/thrift/demo_base.thrift".to_string()]);
    let files = vec![Source {
        node: node("/thrift/demo_base.thrift", "demo_base", DEMO_BASE),
        includes: vec![],
    }];
    let ts = Generator::generate_token_stream(&files, &vec![0]).unwrap();
    println!("{}", ts);
    assert!(ts.starts_with("pub mod demo_base {"));
    assert!(ts.contains("pub struct User {"));
    assert!(ts.contains("field_type = \"map(string, string)\""));
}

#[test]
fn test_gen_demo() {
    let g = Generator::new().add_idl("../mini-lust-generator/thrift/demo.thrift");
    assert_eq!(g.idls().len(), 1);
    let files = vec![
        Source { node: node("/thrift/demo.thrift", "demo", DEMO), includes: vec![1] },
        Source { node: node("/thrift/demo_base.thrift", "demo_base", DEMO_BASE), includes: vec![] },
    ];
    let ts = Generator::generate_token_stream(&files, &vec![0]).unwrap();
    println!("{}", ts);
    // the included file comes first, and the service brings its types
    let base = ts.find("pub mod demo_base {").unwrap();
    let demo = ts.find("pub mod demo {").unwrap();
    assert!(base < demo);
    for name in [
        "pub struct GetUserRequest",
        "pub struct GetUserResponse",
        "pub struct AnonymousItemServiceGetUserArgs",
        "pub enum AnonymousItemServiceGetUserResult",
        "pub enum AnonymousItemServiceRequest",
        "pub enum AnonymousItemServiceResponse",
        "pub struct ItemServiceClient",
        "pub trait ItemService",
        "pub struct ItemServiceServer",
    ] {
        assert!(ts.contains(name), "{} is missing", name);
    }
}

#[test]
fn parse_idl() {
    let (remains, document) = Document::parse(DEMO_BASE).unwrap();
    println!("Parser remains: {:?}, document: {:?}", remains, document);
    assert_eq!(remains, "");
    assert_eq!(document.structs.len(), 1);
    assert_eq!(document.namespaces.len(), 1);
}

#[test]
fn names_in_source_text() {
    let id = |s: &str| Identifier(s.to_string());
    assert_eq!(field_name(&id("UserName")), "user_name");
    assert_eq!(field_name(&id("isMale")), "is_male");
    assert_eq!(ident_name(&id("user_name")), "UserName");
    assert_eq!(ident_name(&id("get_user")), "GetUser");
    assert_eq!(struct_name(&id("demo_base.User")), "demo_base::User");
}

#[test]
fn namespace_with_points_nests_its_modules() {
    let files = vec![
        Source {
            node: node("/t/top.thrift", "top", "include \"base.thrift\"\nnamespace rs x.y\nstruct T {}"),
            includes: vec![1],
        },
        Source {
            node: node("/t/base.thrift", "base", "namespace rs a.b.c\nstruct B {}"),
            includes: vec![],
        },
    ];
    let text = Generator::generate_token_stream(&files, &vec![0]).unwrap();
    // the included document stands where the re-export of it leads
    assert!(text.starts_with("pub mod a { pub mod b { pub mod c { "), "{}", text);
    assert!(text.contains("pub mod x { pub mod y { pub use a :: b :: c ;"), "{}", text);
}

#[test]
fn refused_file_leaves_the_walk_as_it_was() {
    let files = sources(vec![vec![1], vec![0], vec![]]);
    // file 0 is on the path, file 2 is done
    let mut walk = Walk { generated: vec![2], generating: vec![0, 1], output: "done ".to_string() };
    assert_eq!(walk.generate(&files, 0, 4), Err(GenerateError::Loop()));
    assert_eq!(walk.generated, vec![2]);
    assert_eq!(walk.generating, vec![0, 1]);
    assert_eq!(walk.output, "done ");
    // a file that was not read
    assert!(matches!(walk.generate(&files, 9, 4), Err(GenerateError::Path(_))));
    assert_eq!(walk.generated, vec![2]);
    assert_eq!(walk.generating, vec![0, 1]);
    assert_eq!(walk.output, "done ");
    // a file that is done is passed by
    assert_eq!(walk.generate(&files, 2, 4), Ok(()));
    assert_eq!(walk.generated, vec![2]);
    assert_eq!(walk.output, "done ");
}

#[test]
fn failures_come_in_the_order_of_the_walk() {
    let unread = || GenerateError::Io { err: "gone".to_string(), path: "/c.thrift".to_string() };
    // a cycle is met before the file that could not be read
    let mut files = sources(vec![vec![1], vec![0, UNREAD]]);
    let walked = Generator::generate_token_stream(&files, &vec![0]);
    assert_eq!(walked, Err(GenerateError::Loop()));
    assert_eq!(Generator::first_failure(walked, Some(unread())), Err(GenerateError::Loop()));
    // the walk comes to the file that could not be read
    files = sources(vec![vec![1, UNREAD], vec![]]);
    let walked = Generator::generate_token_stream(&files, &vec![0]);
    assert!(matches!(walked, Err(GenerateError::Path(_))));
    assert_eq!(Generator::first_failure(walked, Some(unread())), Err(unread()));
    // a root that could not be read, behind one that was
    files = sources(vec![vec![]]);
    let walked = Generator::generate_token_stream(&files, &vec![0, UNREAD]);
    assert_eq!(Generator::first_failure(walked, Some(unread())), Err(unread()));
    // every file was read
    assert_eq!(Generator::first_failure(Ok("x".to_string()), None), Ok("x".to_string()));
    assert_eq!(Generator::first_failure(Ok("x".to_string()), Some(unread())), Err(unread()));
    assert_eq!(
        Generator::first_failure(Err(GenerateError::Path("other".to_string())), Some(unread())),
        Err(GenerateError::Path("other".to_string()))
    );
}
