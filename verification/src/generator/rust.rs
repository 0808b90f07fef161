//! The generator for Rust: a declaration becomes a struct with derived
//! capabilities, one to a file, and a module file names them all.

use vstd::prelude::*;
use vstd::string::*;
use crate::generator::{
    file_content, file_views, Generator, OutputFile, OutputFileView, Target,
};
use crate::parser::{Field, FieldView, Type, TypeItem, TypeItemView, TypeView};
use crate::text::{lemma_trimmed, lowercase, same_text, to_lowercase};

verus! {

/// The type of Rust that the primitive type named `name` becomes, if `name`
/// is the name of one.
pub open spec fn primitive_text(name: Seq<char>) -> Option<Seq<char>> {
    if name == "String"@ {
        Some("String"@)
    } else if name == "Int"@ || name == "Int64"@ {
        Some("i64"@)
    } else if name == "UInt"@ || name == "UInt64"@ {
        Some("u64"@)
    } else if name == "USize"@ {
        Some("usize"@)
    } else if name == "ISize"@ {
        Some("isize"@)
    } else if name == "Int8"@ {
        Some("i8"@)
    } else if name == "UInt8"@ {
        Some("u8"@)
    } else if name == "Int16"@ {
        Some("i16"@)
    } else if name == "UInt16"@ {
        Some("u16"@)
    } else if name == "Int32"@ {
        Some("i32"@)
    } else if name == "UInt32"@ {
        Some("u32"@)
    } else if name == "Bool"@ {
        Some("bool"@)
    } else if name == "Float"@ {
        Some("f32"@)
    } else if name == "Double"@ {
        Some("f64"@)
    } else {
        None
    }
}

/// The type item in Rust. A name that is not that of a primitive type refers
/// to the struct of that name in the module above.
pub open spec fn type_text(item: TypeItemView) -> Seq<char>
    decreases item,
{
    match item {
        TypeItemView::Array(element) => "Vec<"@ + type_text(*element) + ">"@,
        TypeItemView::Dict { key, value } => "::std::collections::HashMap<"@ + type_text(*key)
            + ", "@ + type_text(*value) + ">"@,
        TypeItemView::Optional(inner) => "Option<"@ + type_text(*inner) + ">"@,
        TypeItemView::Basic(name) => match primitive_text(name) {
            Some(text) => text,
            None => "super::"@ + name,
        },
    }
}

/// The declaration as a struct with its derived capabilities.
pub open spec fn declaration_text(ident: Seq<char>, fields: Seq<char>) -> Seq<char> {
    "#[derive(serde::Serialize, serde::Deserialize, Clone, Debug, Default, PartialEq)]\npub struct "@
        + ident + " {\n"@ + fields + "\n}"@
}

/// The lines of the module file for the declaration `ident` in the file
/// `file`.
pub open spec fn module_lines(file: Seq<char>, ident: Seq<char>) -> Seq<char> {
    "mod "@ + file + ";\npub use "@ + file + "::"@ + ident + ";\n"@
}

/// The file of a declaration holds the declaration and nothing else.
pub proof fn lemma_file_content(ident: Seq<char>, fields: Seq<char>)
    ensures
        file_content(Seq::empty(), declaration_text(ident, fields), Seq::empty())
            == declaration_text(ident, fields),
{
    let declaration = declaration_text(ident, fields);
    reveal_strlit(
        "#[derive(serde::Serialize, serde::Deserialize, Clone, Debug, Default, PartialEq)]\npub struct ",
    );
    reveal_strlit("\n}");
    reveal_strlit("\n\n");
    reveal_strlit("\n");
    assert(declaration.first() == '#');
    assert(declaration.last() == '}');
    let lead = "\n\n"@;
    let tail = "\n\n"@ + "\n"@;
    lemma_trimmed(lead, declaration, tail);
    assert(Seq::<char>::empty() + "\n\n"@ + declaration + "\n\n"@ + Seq::<char>::empty() + "\n"@
        =~= lead + declaration + tail);
}

/// The generator for Rust.
pub struct RustTypeGenerator {
    module: OutputFile,
    types: Vec<OutputFile>,
}

impl Target for RustTypeGenerator {
    type Settings = ();

    type Notes = ();

    open spec fn settings(&self) -> () {
        ()
    }

    open spec fn notes(&self) -> () {
        ()
    }

    closed spec fn files(&self) -> Seq<OutputFileView> {
        file_views(self.types@)
    }

    closed spec fn extras(&self) -> Seq<OutputFileView> {
        seq![self.module@]
    }

    open spec fn no_notes() -> () {
        ()
    }

    open spec fn noted(settings: (), notes: (), item: TypeItemView) -> () {
        ()
    }

    open spec fn separator() -> Seq<char> {
        ",\n"@
    }

    open spec fn extension() -> Seq<char> {
        "rs"@
    }

    open spec fn type_item_text(settings: (), item: TypeItemView) -> Seq<char> {
        type_text(item)
    }

    open spec fn field_text(settings: (), field: FieldView) -> Seq<char> {
        "\tpub "@ + field.ident + ": "@ + type_text(field.ty)
    }

    open spec fn declaration_text(settings: (), ident: Seq<char>, fields: Seq<char>) -> Seq<char> {
        self::declaration_text(ident, fields)
    }

    open spec fn decoder_text(settings: (), ty: TypeView) -> Seq<char> {
        Seq::empty()
    }

    open spec fn imports_text(settings: (), notes: ()) -> Seq<char> {
        Seq::empty()
    }

    open spec fn file_name(settings: (), name: Seq<char>) -> Seq<char> {
        lowercase(name)
    }

    open spec fn sanitized(settings: (), ident: Seq<char>) -> Seq<char> {
        if ident == "type"@ {
            "r#"@ + ident
        } else {
            ident
        }
    }

    open spec fn extras_with(
        settings: (),
        extras: Seq<OutputFileView>,
        ty: TypeView,
        file: OutputFileView,
    ) -> Seq<OutputFileView> {
        seq![
            OutputFileView {
                name: extras[0].name,
                content: extras[0].content + module_lines(file.name, ty.ident),
            },
        ]
    }
}

impl Generator for RustTypeGenerator {
    fn add_type_boilerplate(&mut self, ty: &Type, file: &OutputFile) {
        self.module.content.append("mod ");
        self.module.content.append(file.name.as_str());
        self.module.content.append(";\npub use ");
        self.module.content.append(file.name.as_str());
        self.module.content.append("::");
        self.module.content.append(ty.ident.as_str());
        self.module.content.append(";\n");
        proof {
            assert(self.module@.content =~= old(self).module@.content + module_lines(
                file@.name,
                ty@.ident,
            ));
            assert(self.extras() =~= Self::extras_with((), old(self).extras(), ty@, file@));
        }
    }

    fn create_decoder(&mut self, ty: &Type) -> (text: String) {
        String::new()
    }

    fn field_separator(&self) -> (text: &'static str) {
        ",\n"
    }

    fn file_extension(&self) -> (text: &'static str) {
        "rs"
    }

    fn generate(self) -> (files: Vec<OutputFile>) {
        let mut files = self.types;
        proof {
            assert(file_views(files@.push(self.module)) =~= file_views(files@) + seq![
                self.module@,
            ]);
        }
        files.push(self.module);
        files
    }

    fn generate_declaration(&self, ident: &str, fields: &str) -> (text: String) {
        let mut text =
            "#[derive(serde::Serialize, serde::Deserialize, Clone, Debug, Default, PartialEq)]\npub struct ".to_owned();
        text.append(ident);
        text.append(" {\n");
        text.append(fields);
        text.append("\n}");
        text
    }

    fn generate_field(&mut self, field: &Field) -> (text: String) {
        let mut text = "\tpub ".to_owned();
        text.append(field.ident.as_str());
        text.append(": ");
        text.append(self.generate_type_item(&field.ty).as_str());
        text
    }

    fn generate_imports(&self) -> (text: String) {
        String::new()
    }

    fn generate_type_item(&mut self, ty: &TypeItem) -> (text: String)
        decreases ty,
    {
        match ty {
            TypeItem::Array(elements) => {
                let mut text = "Vec<".to_owned();
                text.append(self.generate_type_item(&**elements).as_str());
                text.append(">");
                text
            },
            TypeItem::Dict { key, value } => {
                let mut text = "::std::collections::HashMap<".to_owned();
                text.append(self.generate_type_item(&**key).as_str());
                text.append(", ");
                text.append(self.generate_type_item(&**value).as_str());
                text.append(">");
                text
            },
            TypeItem::Optional(inner) => {
                let mut text = "Option<".to_owned();
                text.append(self.generate_type_item(&**inner).as_str());
                text.append(">");
                text
            },
            TypeItem::Basic(plain) => {
                let name = plain.as_str();
                if same_text(name, "String") {
                    "String".to_owned()
                } else if same_text(name, "Int") || same_text(name, "Int64") {
                    "i64".to_owned()
                } else if same_text(name, "UInt") || same_text(name, "UInt64") {
                    "u64".to_owned()
                } else if same_text(name, "USize") {
                    "usize".to_owned()
                } else if same_text(name, "ISize") {
                    "isize".to_owned()
                } else if same_text(name, "Int8") {
                    "i8".to_owned()
                } else if same_text(name, "UInt8") {
                    "u8".to_owned()
                } else if same_text(name, "Int16") {
                    "i16".to_owned()
                } else if same_text(name, "UInt16") {
                    "u16".to_owned()
                } else if same_text(name, "Int32") {
                    "i32".to_owned()
                } else if same_text(name, "UInt32") {
                    "u32".to_owned()
                } else if same_text(name, "Bool") {
                    "bool".to_owned()
                } else if same_text(name, "Float") {
                    "f32".to_owned()
                } else if same_text(name, "Double") {
                    "f64".to_owned()
                } else {
                    let mut text = "super::".to_owned();
                    text.append(name);
                    text
                }
            },
        }
    }

    fn push_type(&mut self, file: OutputFile) {
        proof {
            assert(file_views(self.types@.push(file)) =~= file_views(self.types@).push(file@));
        }
        self.types.push(file);
    }

    fn reset(&mut self) {
    }

    fn sanitize_ident(&self, ident: &str) -> (text: String) {
        if same_text(ident, "type") {
            let mut text = "r#".to_owned();
            text.append(ident);
            text
        } else {
            ident.to_owned()
        }
    }

    fn to_file_name(&self, name: &str) -> (text: String) {
        to_lowercase(name)
    }
}

/// The name of the module file.
pub open spec fn module_name() -> Seq<char> {
    "mod"@
}

impl Default for RustTypeGenerator {
    fn default() -> (generator: Self)
        ensures
            generator.files() == Seq::<OutputFileView>::empty(),
            generator.extras() == seq![
                OutputFileView { name: module_name(), content: Seq::empty() },
            ],
    {
        let generator = Self {
            module: OutputFile { name: "mod".to_owned(), content: String::new() },
            types: Vec::new(),
        };
        assert(generator.files() =~= Seq::empty());
        generator
    }
}

impl RustTypeGenerator {
    /// A generator without files of declarations, and with an empty module
    /// file.
    pub fn new() -> (generator: Self)
        ensures
            generator.files() == Seq::<OutputFileView>::empty(),
            generator.extras() == seq![
                OutputFileView { name: module_name(), content: Seq::empty() },
            ],
    {
        Self::default()
    }

    /// A generator without files of declarations, and with an empty module
    /// file, in a box.
    pub fn boxed() -> (generator: Box<Self>)
        ensures
            generator.files() == Seq::<OutputFileView>::empty(),
            generator.extras() == seq![
                OutputFileView { name: module_name(), content: Seq::empty() },
            ],
    {
        Box::new(Self::default())
    }
}

} // verus!
