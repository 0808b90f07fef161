use type_lib::generator::gleam::GleamTypeGenerator;
use type_lib::generator::rust::RustTypeGenerator;
use type_lib::generator::{Generator, OutputFile};
use type_lib::parser::{Field, Parser, Type, TypeItem};

fn basic(name: &str) -> TypeItem {
    TypeItem::Basic(name.into())
}

fn gleam(source: &str) -> Vec<OutputFile> {
    let mut exporter = GleamTypeGenerator::default();
    for ty in &Parser::new(source).parse().unwrap() {
        exporter.add_type(ty);
    }
    exporter.generate()
}

fn rust(source: &str) -> Vec<OutputFile> {
    let mut exporter = RustTypeGenerator::new();
    for ty in &Parser::new(source).parse().unwrap() {
        exporter.add_type(ty);
    }
    exporter.generate()
}

#[test]
fn convert_empty() {
    let empty = "type Empty {}";
    let mut exporter = GleamTypeGenerator::default();
    let mut parser = Parser::new(empty);
    let ast = parser.parse().unwrap();

    for ty in &ast {
        exporter.add_type(ty);
    }

    assert_eq!(
        exporter.generate(),
        vec![OutputFile {
            name: "empty".to_owned(),
            content: "import gleam/decode\n\npub type Empty {\n\tEmpty()\n}\n\npub fn decode(data: Dynamic) {\n\tlet decoder = decode.into({\n\t\t\n\n\t\tEmpty()\n\t})\n\t\n\n\tdecoder |> decode.from(data)\n}".to_owned()
        }]
    );
}

#[test]
fn convert_type_with_primitive_field() {
    let empty = "type Container { a: Int }";
    let mut exporter = GleamTypeGenerator::default();
    let mut parser = Parser::new(empty);
    let ast = parser.parse().unwrap();

    for ty in &ast {
        exporter.add_type(ty);
    }

    assert_eq!(
        exporter.generate(),
        vec![OutputFile {
            name: "container".to_owned(),
            content: "import gleam/decode\n\npub type Container {\n\tContainer(a: Int)\n}\n\npub fn decode(data: Dynamic) {\n\tlet decoder = decode.into({\n\t\tuse a <- decode.parameter\n\n\t\tContainer(a)\n\t})\n\t|> decode.field(\"a\", decode.int)\n\n\tdecoder |> decode.from(data)\n}".to_owned()
        }]
    );
}

#[test]
fn rust_struct_for_user() {
    let files = rust("type User { name: String, nickname: String?, level: Int, account: Account }");
    assert_eq!(
        files,
        vec![
            OutputFile {
                name: "user".to_owned(),
                content: "#[derive(serde::Serialize, serde::Deserialize, Clone, Debug, Default, PartialEq)]\npub struct User {\n\tpub name: String,\n\tpub nickname: Option<String>,\n\tpub level: i64,\n\tpub account: super::Account\n}".to_owned(),
            },
            OutputFile {
                name: "mod".to_owned(),
                content: "mod user;\npub use user::User;\n".to_owned(),
            },
        ]
    );
}

#[test]
fn rust_renders_every_primitive_and_collection() {
    let mut exporter = RustTypeGenerator::new();
    let cases = [
        ("String", "String"),
        ("Int", "i64"),
        ("Int64", "i64"),
        ("UInt", "u64"),
        ("UInt64", "u64"),
        ("USize", "usize"),
        ("ISize", "isize"),
        ("Int8", "i8"),
        ("UInt8", "u8"),
        ("Int16", "i16"),
        ("UInt16", "u16"),
        ("Int32", "i32"),
        ("UInt32", "u32"),
        ("Bool", "bool"),
        ("Float", "f32"),
        ("Double", "f64"),
        ("Tag", "super::Tag"),
        ("string", "super::string"),
    ];
    for (name, expected) in cases {
        assert_eq!(exporter.generate_type_item(&basic(name)), expected, "{name}");
    }
    let item = Parser::new("{ArmorKind: [Item?]}?").parse_type_item().unwrap();
    assert_eq!(
        exporter.generate_type_item(&item),
        "Option<::std::collections::HashMap<super::ArmorKind, Vec<Option<super::Item>>>>"
    );
}

#[test]
fn rust_module_file_names_every_declaration() {
    let files = rust("type First {}\ntype Second { a: [First] }");
    assert_eq!(files.len(), 3);
    assert_eq!(files[0].name, "first");
    assert_eq!(
        files[0].content,
        "#[derive(serde::Serialize, serde::Deserialize, Clone, Debug, Default, PartialEq)]\npub struct First {\n\n}"
    );
    assert_eq!(files[1].name, "second");
    assert_eq!(
        files[1].content,
        "#[derive(serde::Serialize, serde::Deserialize, Clone, Debug, Default, PartialEq)]\npub struct Second {\n\tpub a: Vec<super::First>\n}"
    );
    assert_eq!(
        files[2],
        OutputFile {
            name: "mod".to_owned(),
            content: "mod first;\npub use first::First;\nmod second;\npub use second::Second;\n"
                .to_owned(),
        }
    );
}

#[test]
fn rust_without_declarations_has_an_empty_module_file() {
    assert_eq!(
        RustTypeGenerator::new().generate(),
        vec![OutputFile { name: "mod".to_owned(), content: String::new() }]
    );
    assert_eq!(RustTypeGenerator::boxed().generate().len(), 1);
    assert_eq!(GleamTypeGenerator::boxed().generate(), vec![]);
}

#[test]
fn gleam_renders_every_primitive_and_collection() {
    let mut exporter = GleamTypeGenerator::default();
    let cases = [
        ("String", "String"),
        ("Int", "Int"),
        ("UInt", "Int"),
        ("Int8", "Int"),
        ("UInt8", "Int"),
        ("Int16", "Int"),
        ("UInt16", "Int"),
        ("Int32", "Int"),
        ("UInt32", "Int"),
        ("Int64", "Int"),
        ("UInt64", "Int"),
        ("ISize", "Int"),
        ("USize", "Int"),
        ("Bool", "Bool"),
        ("Float", "Float"),
        ("Double", "Float"),
        ("Account", "Account"),
    ];
    for (name, expected) in cases {
        assert_eq!(exporter.generate_type_item(&basic(name)), expected, "{name}");
    }
    let item = Parser::new("{String: [Int?]}?").parse_type_item().unwrap();
    assert_eq!(exporter.generate_type_item(&item), "Option(Map(String, List(Option(Int))))");
}

#[test]
fn gleam_imports_follow_the_notes() {
    let mut exporter = GleamTypeGenerator::new("shop".to_owned());
    assert_eq!(exporter.generate_imports(), "import gleam/decode");
    exporter.generate_type_item(&Parser::new("[Int?]").parse_type_item().unwrap());
    assert_eq!(
        exporter.generate_imports(),
        "import gleam/decode\nimport gleam/option.{type Option}"
    );
    exporter.generate_type_item(&Parser::new("{String: Item}").parse_type_item().unwrap());
    exporter.generate_type_item(&basic("ArmorKind"));
    exporter.generate_type_item(&basic("Item"));
    assert_eq!(
        exporter.generate_imports(),
        "import gleam/decode\nimport gleam/option.{type Option}\nimport gleam/dict.{type Dict}\nimport shop/item.{type Item}\nimport shop/armorkind.{type ArmorKind}"
    );
    exporter.reset();
    assert_eq!(exporter.generate_imports(), "import gleam/decode");
}

#[test]
fn gleam_emits_only_the_imports_that_a_declaration_needs() {
    let files = gleam(
        "type Plain { a: Int, b: [String] }\ntype Deep { a: [{String: [Int?]}] }\ntype Dict { a: {String: Int} }\ntype Again { a: Bool }",
    );
    let imports: Vec<&str> =
        files.iter().map(|file| file.content.split("\n\n").next().unwrap()).collect();
    assert_eq!(
        imports,
        vec![
            "import gleam/decode",
            "import gleam/decode\nimport gleam/option.{type Option}\nimport gleam/dict.{type Dict}",
            "import gleam/decode\nimport gleam/dict.{type Dict}",
            "import gleam/decode",
        ]
    );
}

#[test]
fn gleam_imports_each_referenced_declaration_once() {
    let files = gleam("type Order { buyer: Account, seller: Account?, items: [Item], first: Item }");
    assert_eq!(files.len(), 1);
    assert_eq!(files[0].name, "order");
    assert_eq!(
        files[0].content,
        "import gleam/decode\nimport gleam/option.{type Option}\nimport types/account.{type Account}\nimport types/item.{type Item}\n\npub type Order {\n\tOrder(buyer: Account, seller: Option(Account), items: List(Item), first: Item)\n}\n\npub fn decode(data: Dynamic) {\n\tlet decoder = decode.into({\n\t\tuse buyer <- decode.parameter\n\t\tuse seller <- decode.parameter\n\t\tuse items <- decode.parameter\n\t\tuse first <- decode.parameter\n\n\t\tOrder(buyer, seller, items, first)\n\t})\n\t|> decode.field(\"buyer\", account.decode)\n\t|> decode.field(\"seller\", decode.optional(account.decode))\n\t|> decode.field(\"items\", decode.list(item.decode))\n\t|> decode.field(\"first\", item.decode)\n\n\tdecoder |> decode.from(data)\n}"
    );
}

#[test]
fn gleam_decoders_of_every_kind() {
    let mut exporter = GleamTypeGenerator::default();
    let ty = Type {
        ident: "All".into(),
        fields: vec![
            Field { ident: "a".into(), ty: basic("String") },
            Field { ident: "b".into(), ty: basic("UInt16") },
            Field { ident: "c".into(), ty: basic("USize") },
            Field { ident: "d".into(), ty: basic("Bool") },
            Field { ident: "e".into(), ty: basic("Double") },
            Field {
                ident: "f".into(),
                ty: Parser::new("{String: [Other?]}").parse_type_item().unwrap(),
            },
        ],
    };
    assert_eq!(
        exporter.create_decoder(&ty),
        "pub fn decode(data: Dynamic) {\n\tlet decoder = decode.into({\n\t\tuse a <- decode.parameter\n\t\tuse b <- decode.parameter\n\t\tuse c <- decode.parameter\n\t\tuse d <- decode.parameter\n\t\tuse e <- decode.parameter\n\t\tuse f <- decode.parameter\n\n\t\tAll(a, b, c, d, e, f)\n\t})\n\t|> decode.field(\"a\", decode.string)\n\t|> decode.field(\"b\", decode.int)\n\t|> decode.field(\"c\", decode.int)\n\t|> decode.field(\"d\", decode.bool)\n\t|> decode.field(\"e\", decode.float)\n\t|> decode.field(\"f\", decode.dict(decode.string, decode.list(decode.optional(other.decode))))\n\n\tdecoder |> decode.from(data)\n}"
    );
}

#[test]
fn rendering_twice_gives_the_same_file_twice() {
    let source = "type User { name: String?, friends: [User], tags: {String: Tag} }";
    let ast = Parser::new(source).parse().unwrap();

    let mut exporter = GleamTypeGenerator::default();
    exporter.add_type(&ast[0]);
    exporter.add_type(&ast[0]);
    let files = exporter.generate();
    assert_eq!(files.len(), 2);
    assert_eq!(files[0], files[1]);

    let mut other = GleamTypeGenerator::default();
    other.add_type(&Type { ident: "Before".into(), fields: vec![] });
    other.add_type(&ast[0]);
    assert_eq!(other.generate()[1], files[0]);

    let mut exporter = RustTypeGenerator::new();
    exporter.add_type(&ast[0]);
    exporter.add_type(&ast[0]);
    let files = exporter.generate();
    assert_eq!(files.len(), 3);
    assert_eq!(files[0], files[1]);
    assert_eq!(files[2].content, "mod user;\npub use user::User;\nmod user;\npub use user::User;\n");
}

#[test]
fn notes_taken_before_do_not_reach_a_declaration() {
    let mut exporter = GleamTypeGenerator::default();
    exporter.generate_type_item(&Parser::new("{String: Other?}").parse_type_item().unwrap());
    exporter.add_type(&Type {
        ident: "Plain".into(),
        fields: vec![Field { ident: "a".into(), ty: basic("Int") }],
    });
    assert_eq!(exporter.generate_imports(), "import gleam/decode");
    let files = exporter.generate();
    assert!(files[0].content.starts_with("import gleam/decode\n\npub type Plain {"));
}

#[test]
fn unclosed_declaration_gives_no_files() {
    let source = "type Test {";
    let gleam_files = match Parser::new(source).parse() {
        Ok(types) => {
            let mut exporter = GleamTypeGenerator::default();
            for ty in &types {
                exporter.add_type(ty);
            }
            exporter.generate()
        }
        Err(_) => Vec::new(),
    };
    assert_eq!(gleam_files, vec![]);
    let rust_files = match Parser::new(source).parse() {
        Ok(types) => {
            let mut exporter = RustTypeGenerator::new();
            for ty in &types {
                exporter.add_type(ty);
            }
            exporter.generate()
        }
        Err(_) => Vec::new(),
    };
    assert_eq!(rust_files, vec![]);
    assert!(Parser::new("type Good {}\ntype Test {").parse().is_err());
}

#[test]
fn empty_declaration_for_every_backend() {
    let types = Parser::new("type Empty {}").parse().unwrap();
    assert_eq!(types, vec![Type { ident: "Empty".into(), fields: vec![] }]);
    assert_eq!(gleam("type Empty {}").len(), 1);
    let files = rust("type Empty {}");
    assert_eq!(files[0].name, "empty");
    assert_eq!(files[1].content, "mod empty;\npub use empty::Empty;\n");
}

#[test]
fn separators_extensions_and_names() {
    let gleam = GleamTypeGenerator::default();
    let rust = RustTypeGenerator::new();
    assert_eq!(gleam.field_separator(), ", ");
    assert_eq!(rust.field_separator(), ",\n");
    assert_eq!(gleam.file_extension(), "gleam");
    assert_eq!(rust.file_extension(), "rs");
    assert_eq!(gleam.to_file_name("ArmorKind"), "armorkind");
    assert_eq!(rust.to_file_name("ArmorKind"), "armorkind");
    assert_eq!(gleam.to_file_name("already_lower9"), "already_lower9");
    assert_eq!(gleam.sanitize_ident("type"), "type");
    assert_eq!(rust.sanitize_ident("type"), "r#type");
    assert_eq!(rust.sanitize_ident("types"), "types");
    assert_eq!(rust.sanitize_ident("name"), "name");
}

#[test]
fn declarations_of_both_backends() {
    let gleam = GleamTypeGenerator::default();
    let rust = RustTypeGenerator::new();
    assert_eq!(gleam.generate_declaration("T", "a: Int, b: Bool"), "pub type T {\n\tT(a: Int, b: Bool)\n}");
    assert_eq!(
        rust.generate_declaration("T", "\tpub a: i64"),
        "#[derive(serde::Serialize, serde::Deserialize, Clone, Debug, Default, PartialEq)]\npub struct T {\n\tpub a: i64\n}"
    );
}

#[test]
fn fields_are_joined_by_the_separator() {
    let ty = Type {
        ident: "T".into(),
        fields: vec![
            Field { ident: "a".into(), ty: basic("Int") },
            Field { ident: "b".into(), ty: basic("Other") },
            Field { ident: "c".into(), ty: TypeItem::Array(Box::new(basic("Bool"))) },
        ],
    };
    let mut gleam = GleamTypeGenerator::default();
    assert_eq!(gleam.generate_fields(&ty), "a: Int, b: Other, c: List(Bool)");
    assert_eq!(gleam.generate_field(&ty.fields[2]), "c: List(Bool)");
    let mut rust = RustTypeGenerator::new();
    assert_eq!(
        rust.generate_fields(&ty),
        "\tpub a: i64,\n\tpub b: super::Other,\n\tpub c: Vec<bool>"
    );
    let none = Type { ident: "T".into(), fields: vec![] };
    assert_eq!(gleam.generate_fields(&none), "");
    assert_eq!(rust.create_decoder(&ty), "");
    assert_eq!(rust.generate_imports(), "");
}
