//! The generator for Gleam: a declaration becomes a type with one constructor,
//! and a function that decodes a dynamic value into it.

use vstd::prelude::*;
use vstd::string::*;
use crate::generator::{
    fields_noted, file_content, file_views, Generator, OutputFile, OutputFileView, Target,
};
use crate::parser::{Field, FieldView, Type, TypeItem, TypeItemView, TypeView};
use crate::text::{
    join, joined, lemma_joined_first, lemma_map_values_take, lemma_texts_push, lemma_trimmed,
    lowercase, same_text, texts, to_lowercase,
};

verus! {

/// What the fields of a declaration have made use of.
pub struct GleamNotes {
    /// An optional type was rendered.
    pub needs_option: bool,
    /// A dictionary type was rendered.
    pub needs_dict: bool,
    /// The names of the other declarations that were referred to, each once, in
    /// the order in which they first came up.
    pub used_types: Seq<Seq<char>>,
}

/// Whether `name` is one of the names of the integer types.
pub open spec fn is_integer_name(name: Seq<char>) -> bool {
    ||| name == "Int"@
    ||| name == "UInt"@
    ||| name == "Int8"@
    ||| name == "UInt8"@
    ||| name == "Int16"@
    ||| name == "UInt16"@
    ||| name == "Int32"@
    ||| name == "UInt32"@
    ||| name == "Int64"@
    ||| name == "UInt64"@
    ||| name == "ISize"@
    ||| name == "USize"@
}

/// Whether `name` is one of the names of the floating-point types.
pub open spec fn is_float_name(name: Seq<char>) -> bool {
    name == "Float"@ || name == "Double"@
}

/// Whether `name` is the name of a primitive type. Any other name refers to
/// another declaration.
pub open spec fn is_primitive_name(name: Seq<char>) -> bool {
    name == "String"@ || name == "Bool"@ || is_integer_name(name) || is_float_name(name)
}

/// The type item in Gleam.
pub open spec fn type_text(item: TypeItemView) -> Seq<char>
    decreases item,
{
    match item {
        TypeItemView::Array(element) => "List("@ + type_text(*element) + ")"@,
        TypeItemView::Dict { key, value } => "Map("@ + type_text(*key) + ", "@ + type_text(*value)
            + ")"@,
        TypeItemView::Optional(inner) => "Option("@ + type_text(*inner) + ")"@,
        TypeItemView::Basic(name) => if name == "String"@ {
            "String"@
        } else if is_integer_name(name) {
            "Int"@
        } else if name == "Bool"@ {
            "Bool"@
        } else if is_float_name(name) {
            "Float"@
        } else {
            name
        },
    }
}

/// The notes once `item` has been rendered: an optional type and a dictionary
/// type are noted at whatever depth they stand, and so is each name that
/// refers to another declaration, unless it has been noted before.
pub open spec fn noted(notes: GleamNotes, item: TypeItemView) -> GleamNotes
    decreases item,
{
    match item {
        TypeItemView::Array(element) => noted(notes, *element),
        TypeItemView::Dict { key, value } => noted(
            noted(GleamNotes { needs_dict: true, ..notes }, *key),
            *value,
        ),
        TypeItemView::Optional(inner) => noted(GleamNotes { needs_option: true, ..notes }, *inner),
        TypeItemView::Basic(name) => if is_primitive_name(name) || notes.used_types.contains(
            name,
        ) {
            notes
        } else {
            GleamNotes { used_types: notes.used_types.push(name), ..notes }
        },
    }
}

/// The expression that decodes a value of the type item.
pub open spec fn decoder_of(item: TypeItemView) -> Seq<char>
    decreases item,
{
    match item {
        TypeItemView::Array(element) => "decode.list("@ + decoder_of(*element) + ")"@,
        TypeItemView::Dict { key, value } => "decode.dict("@ + decoder_of(*key) + ", "@
            + decoder_of(*value) + ")"@,
        TypeItemView::Optional(inner) => "decode.optional("@ + decoder_of(*inner) + ")"@,
        TypeItemView::Basic(name) => if name == "String"@ {
            "decode.string"@
        } else if is_integer_name(name) {
            "decode.int"@
        } else if name == "Bool"@ {
            "decode.bool"@
        } else if is_float_name(name) {
            "decode.float"@
        } else {
            lowercase(name) + ".decode"@
        },
    }
}

/// The import that every file starts with.
pub open spec fn decode_import() -> Seq<char> {
    "import gleam/decode"@
}

/// The import that a declaration with an optional type needs.
pub open spec fn option_import() -> Seq<char> {
    "import gleam/option.{type Option}"@
}

/// The import that a declaration with a dictionary type needs.
pub open spec fn dict_import() -> Seq<char> {
    "import gleam/dict.{type Dict}"@
}

/// The import of the declaration named `name` from its file in the module.
pub open spec fn type_import(module: Seq<char>, name: Seq<char>) -> Seq<char> {
    "import "@ + module + "/"@ + lowercase(name) + ".{type "@ + name + "}"@
}

/// The imports of the declarations named in `names`.
pub open spec fn type_imports(module: Seq<char>, names: Seq<Seq<char>>) -> Seq<Seq<char>> {
    names.map_values(|name: Seq<char>| type_import(module, name))
}

/// The imports that a declaration with these notes needs, one to a line: that
/// of the decoders, that of the optional type and that of the dictionary type
/// if they were noted, and one for each declaration that was referred to.
pub open spec fn import_lines(module: Seq<char>, notes: GleamNotes) -> Seq<Seq<char>> {
    seq![decode_import()] + (if notes.needs_option {
        seq![option_import()]
    } else {
        Seq::empty()
    }) + (if notes.needs_dict {
        seq![dict_import()]
    } else {
        Seq::empty()
    }) + type_imports(module, notes.used_types)
}

/// The line that binds the field as a parameter of the decoder.
pub open spec fn parameter_line(field: FieldView) -> Seq<char> {
    "use "@ + field.ident + " <- decode.parameter"@
}

/// The line that decodes the field.
pub open spec fn field_line(field: FieldView) -> Seq<char> {
    "|> decode.field(\""@ + field.ident + "\", "@ + decoder_of(field.ty) + ")"@
}

/// The function that decodes a dynamic value into the declaration: it binds
/// one parameter for each field, makes the value of them, and decodes each
/// field by the decoder of its type.
pub open spec fn decoder_text(ty: TypeView) -> Seq<char> {
    "pub fn decode(data: Dynamic) {\n\tlet decoder = decode.into({\n\t\t"@ + joined(
        ty.fields.map_values(|field: FieldView| parameter_line(field)),
        "\n\t\t"@,
    ) + "\n\n\t\t"@ + ty.ident + "("@ + joined(
        ty.fields.map_values(|field: FieldView| field.ident),
        ", "@,
    ) + ")\n\t})\n\t"@ + joined(ty.fields.map_values(|field: FieldView| field_line(field)), "\n\t"@)
        + "\n\n\tdecoder |> decode.from(data)\n}"@
}

/// The declaration as a type with one constructor of the same name.
pub open spec fn declaration_text(ident: Seq<char>, fields: Seq<char>) -> Seq<char> {
    "pub type "@ + ident + " {\n\t"@ + ident + "("@ + fields + ")\n}"@
}

/// The generator for Gleam.
pub struct GleamTypeGenerator {
    types: Vec<OutputFile>,
    needs_option: bool,
    needs_dict: bool,
    /// The declarations that the fields of the declaration at hand refer to.
    used_types: Vec<String>,
    /// The module that the generated files are to stand in.
    module_name: String,
}

impl Target for GleamTypeGenerator {
    type Settings = Seq<char>;

    type Notes = GleamNotes;

    closed spec fn settings(&self) -> Seq<char> {
        self.module_name@
    }

    closed spec fn notes(&self) -> GleamNotes {
        GleamNotes {
            needs_option: self.needs_option,
            needs_dict: self.needs_dict,
            used_types: texts(self.used_types@),
        }
    }

    closed spec fn files(&self) -> Seq<OutputFileView> {
        file_views(self.types@)
    }

    open spec fn extras(&self) -> Seq<OutputFileView> {
        Seq::empty()
    }

    open spec fn no_notes() -> GleamNotes {
        GleamNotes { needs_option: false, needs_dict: false, used_types: Seq::empty() }
    }

    open spec fn noted(settings: Seq<char>, notes: GleamNotes, item: TypeItemView) -> GleamNotes {
        self::noted(notes, item)
    }

    open spec fn separator() -> Seq<char> {
        ", "@
    }

    open spec fn extension() -> Seq<char> {
        "gleam"@
    }

    open spec fn type_item_text(settings: Seq<char>, item: TypeItemView) -> Seq<char> {
        type_text(item)
    }

    open spec fn field_text(settings: Seq<char>, field: FieldView) -> Seq<char> {
        field.ident + ": "@ + type_text(field.ty)
    }

    open spec fn declaration_text(settings: Seq<char>, ident: Seq<char>, fields: Seq<char>) -> Seq<
        char,
    > {
        self::declaration_text(ident, fields)
    }

    open spec fn decoder_text(settings: Seq<char>, ty: TypeView) -> Seq<char> {
        self::decoder_text(ty)
    }

    open spec fn imports_text(settings: Seq<char>, notes: GleamNotes) -> Seq<char> {
        joined(import_lines(settings, notes), "\n"@)
    }

    open spec fn file_name(settings: Seq<char>, name: Seq<char>) -> Seq<char> {
        lowercase(name)
    }

    open spec fn sanitized(settings: Seq<char>, ident: Seq<char>) -> Seq<char> {
        ident
    }

    open spec fn extras_with(
        settings: Seq<char>,
        extras: Seq<OutputFileView>,
        ty: TypeView,
        file: OutputFileView,
    ) -> Seq<OutputFileView> {
        extras
    }
}

impl Generator for GleamTypeGenerator {
    fn add_type_boilerplate(&mut self, ty: &Type, file: &OutputFile) {
    }

    fn create_decoder(&mut self, ty: &Type) -> (text: String) {
        let mut use_statements: Vec<String> = Vec::new();
        let mut constructor_params: Vec<String> = Vec::new();
        let mut field_decoders: Vec<String> = Vec::new();
        let ghost fields = ty@.fields;
        let ghost parameter = |field: FieldView| parameter_line(field);
        let ghost ident = |field: FieldView| field.ident;
        let ghost line = |field: FieldView| field_line(field);
        let mut i: usize = 0;
        while i < ty.fields.len()
            invariant
                i <= ty.fields.len(),
                fields == ty@.fields,
                fields.len() == ty.fields.len(),
                *self == *old(self),
                parameter == |field: FieldView| parameter_line(field),
                ident == |field: FieldView| field.ident,
                line == |field: FieldView| field_line(field),
                texts(use_statements@) == fields.take(i as int).map_values(parameter),
                texts(constructor_params@) == fields.take(i as int).map_values(ident),
                texts(field_decoders@) == fields.take(i as int).map_values(line),
            decreases ty.fields.len() - i,
        {
            let field = &ty.fields[i];
            let decode_type = self.type_item_decoder(&field.ty);
            let mut use_statement = "use ".to_owned();
            use_statement.append(field.ident.as_str());
            use_statement.append(" <- decode.parameter");
            let mut field_decoder = "|> decode.field(\"".to_owned();
            field_decoder.append(field.ident.as_str());
            field_decoder.append("\", ");
            field_decoder.append(decode_type.as_str());
            field_decoder.append(")");
            let param = field.ident.clone();
            proof {
                assert(fields[i as int] == field@);
                lemma_texts_push(use_statements@, use_statement);
                lemma_texts_push(constructor_params@, param);
                lemma_texts_push(field_decoders@, field_decoder);
                lemma_map_values_take(fields, parameter, i as int);
                lemma_map_values_take(fields, ident, i as int);
                lemma_map_values_take(fields, line, i as int);
            }
            use_statements.push(use_statement);
            constructor_params.push(param);
            field_decoders.push(field_decoder);
            i += 1;
        }
        assert(fields.take(i as int) =~= fields);
        let use_statements = join(&use_statements, "\n\t\t");
        let constructor_params = join(&constructor_params, ", ");
        let field_decoders = join(&field_decoders, "\n\t");
        let mut text = "pub fn decode(data: Dynamic) {\n\tlet decoder = decode.into({\n\t\t".to_owned();
        text.append(use_statements.as_str());
        text.append("\n\n\t\t");
        text.append(ty.ident.as_str());
        text.append("(");
        text.append(constructor_params.as_str());
        text.append(")\n\t})\n\t");
        text.append(field_decoders.as_str());
        text.append("\n\n\tdecoder |> decode.from(data)\n}");
        text
    }

    fn field_separator(&self) -> (text: &'static str) {
        ", "
    }

    fn file_extension(&self) -> (text: &'static str) {
        "gleam"
    }

    fn generate(self) -> (files: Vec<OutputFile>) {
        assert(self.files() + self.extras() =~= self.files());
        self.types
    }

    fn generate_declaration(&self, ident: &str, fields: &str) -> (text: String) {
        let mut text = "pub type ".to_owned();
        text.append(ident);
        text.append(" {\n\t");
        text.append(ident);
        text.append("(");
        text.append(fields);
        text.append(")\n}");
        text
    }

    fn generate_field(&mut self, field: &Field) -> (text: String) {
        let mut text = field.ident.clone();
        text.append(": ");
        text.append(self.generate_type_item(&field.ty).as_str());
        text
    }

    fn generate_imports(&self) -> (text: String) {
        let mut imports: Vec<String> = Vec::new();
        imports.push("import gleam/decode".to_owned());
        if self.needs_option {
            imports.push("import gleam/option.{type Option}".to_owned());
        }
        if self.needs_dict {
            imports.push("import gleam/dict.{type Dict}".to_owned());
        }
        let ghost module = self.module_name@;
        let ghost names = texts(self.used_types@);
        let ghost fixed = texts(imports@);
        assert(fixed =~= seq![decode_import()] + (if self.needs_option {
            seq![option_import()]
        } else {
            Seq::empty()
        }) + (if self.needs_dict {
            seq![dict_import()]
        } else {
            Seq::empty()
        }));
        let mut i: usize = 0;
        while i < self.used_types.len()
            invariant
                i <= self.used_types.len(),
                module == self.module_name@,
                names == texts(self.used_types@),
                texts(imports@) == fixed + type_imports(module, names.take(i as int)),
            decreases self.used_types.len() - i,
        {
            let ty = self.used_types[i].as_str();
            let mut import = "import ".to_owned();
            import.append(self.module_name.as_str());
            import.append("/");
            import.append(self.to_file_name(ty).as_str());
            import.append(".{type ");
            import.append(ty);
            import.append("}");
            proof {
                assert(names[i as int] == ty@);
                assert(names.take(i + 1) =~= names.take(i as int).push(ty@));
                assert(type_imports(module, names.take(i + 1)) =~= type_imports(
                    module,
                    names.take(i as int),
                ).push(type_import(module, ty@)));
                assert(texts(imports@.push(import)) =~= texts(imports@).push(import@));
            }
            imports.push(import);
            i += 1;
        }
        assert(names.take(i as int) =~= names);
        join(&imports, "\n")
    }

    fn generate_type_item(&mut self, ty: &TypeItem) -> (text: String)
        decreases ty,
    {
        match ty {
            TypeItem::Array(items) => {
                let mut text = "List(".to_owned();
                text.append(self.generate_type_item(&**items).as_str());
                text.append(")");
                text
            },
            TypeItem::Dict { key, value } => {
                self.needs_dict = true;
                let mut text = "Map(".to_owned();
                text.append(self.generate_type_item(&**key).as_str());
                text.append(", ");
                text.append(self.generate_type_item(&**value).as_str());
                text.append(")");
                text
            },
            TypeItem::Optional(inner) => {
                self.needs_option = true;
                let mut text = "Option(".to_owned();
                text.append(self.generate_type_item(&**inner).as_str());
                text.append(")");
                text
            },
            TypeItem::Basic(plain) => {
                let name = plain.as_str();
                if same_text(name, "String") {
                    "String".to_owned()
                } else if names_integer(name) {
                    "Int".to_owned()
                } else if same_text(name, "Bool") {
                    "Bool".to_owned()
                } else if names_float(name) {
                    "Float".to_owned()
                } else {
                    if !holds(&self.used_types, name) {
                        proof {
                            assert(texts(self.used_types@.push(*plain)) =~= texts(
                                self.used_types@,
                            ).push(name@));
                        }
                        self.used_types.push(plain.clone());
                    }
                    plain.clone()
                }
            },
        }
    }

    fn push_type(&mut self, file: OutputFile) {
        proof {
            assert(file_views(self.types@.push(file)) =~= file_views(self.types@).push(file@));
        }
        self.types.push(file);
    }

    fn reset(&mut self) {
        self.needs_option = false;
        self.needs_dict = false;
        self.used_types = Vec::new();
        assert(texts(self.used_types@) =~= Seq::<Seq<char>>::empty());
    }

    fn sanitize_ident(&self, ident: &str) -> (text: String) {
        ident.to_owned()
    }

    fn to_file_name(&self, name: &str) -> (text: String) {
        to_lowercase(name)
    }
}

/// The file of a declaration holds its imports, the declaration and its
/// decoder, with a blank line between each two of them, and nothing else.
pub proof fn lemma_file_content(
    module: Seq<char>,
    notes: GleamNotes,
    ident: Seq<char>,
    fields: Seq<char>,
    ty: TypeView,
)
    ensures
        file_content(
            joined(import_lines(module, notes), "\n"@),
            declaration_text(ident, fields),
            decoder_text(ty),
        ) == joined(import_lines(module, notes), "\n"@) + "\n\n"@ + declaration_text(ident, fields)
            + "\n\n"@ + decoder_text(ty),
{
    let imports = joined(import_lines(module, notes), "\n"@);
    let declaration = declaration_text(ident, fields);
    let decoder = decoder_text(ty);
    let core = imports + "\n\n"@ + declaration + "\n\n"@ + decoder;
    reveal_strlit("import gleam/decode");
    reveal_strlit("\n\n\tdecoder |> decode.from(data)\n}");
    reveal_strlit("\n");
    assert(import_lines(module, notes)[0] == decode_import());
    lemma_joined_first(import_lines(module, notes), "\n"@);
    assert(core.first() == 'i');
    assert(core.last() == '}');
    lemma_trimmed(Seq::empty(), core, "\n"@);
    assert(Seq::<char>::empty() + core + "\n"@ =~= core + "\n"@);
}

/// Whether an optional type stands in the type item, at whatever depth.
pub open spec fn uses_optional(item: TypeItemView) -> bool
    decreases item,
{
    match item {
        TypeItemView::Array(element) => uses_optional(*element),
        TypeItemView::Dict { key, value } => uses_optional(*key) || uses_optional(*value),
        TypeItemView::Optional(_) => true,
        TypeItemView::Basic(_) => false,
    }
}

/// Whether a dictionary type stands in the type item, at whatever depth.
pub open spec fn uses_dict(item: TypeItemView) -> bool
    decreases item,
{
    match item {
        TypeItemView::Array(element) => uses_dict(*element),
        TypeItemView::Dict { .. } => true,
        TypeItemView::Optional(inner) => uses_dict(*inner),
        TypeItemView::Basic(_) => false,
    }
}

/// Whether the type of one of the fields holds an optional type.
pub open spec fn any_optional(fields: Seq<FieldView>) -> bool {
    exists|i: int| 0 <= i < fields.len() && uses_optional(#[trigger] fields[i].ty)
}

/// Whether the type of one of the fields holds a dictionary type.
pub open spec fn any_dict(fields: Seq<FieldView>) -> bool {
    exists|i: int| 0 <= i < fields.len() && uses_dict(#[trigger] fields[i].ty)
}

/// Rendering a type item notes an optional type exactly if one stands in it or
/// one was noted before, and likewise a dictionary type.
pub proof fn lemma_noted_flags(notes: GleamNotes, item: TypeItemView)
    ensures
        noted(notes, item).needs_option == (notes.needs_option || uses_optional(item)),
        noted(notes, item).needs_dict == (notes.needs_dict || uses_dict(item)),
    decreases item,
{
    match item {
        TypeItemView::Array(element) => {
            lemma_noted_flags(notes, *element);
        },
        TypeItemView::Dict { key, value } => {
            let marked = GleamNotes { needs_dict: true, ..notes };
            lemma_noted_flags(marked, *key);
            lemma_noted_flags(noted(marked, *key), *value);
        },
        TypeItemView::Optional(inner) => {
            lemma_noted_flags(GleamNotes { needs_option: true, ..notes }, *inner);
        },
        TypeItemView::Basic(_) => {},
    }
}

/// Rendering the fields of a declaration notes an optional type exactly if the
/// type of one of them holds one or one was noted before, and likewise a
/// dictionary type. The module has no part in it.
pub proof fn lemma_fields_noted_flags(module: Seq<char>, notes: GleamNotes, fields: Seq<FieldView>)
    ensures
        fields_noted::<GleamTypeGenerator>(module, notes, fields).needs_option == (
        notes.needs_option || any_optional(fields)),
        fields_noted::<GleamTypeGenerator>(module, notes, fields).needs_dict == (notes.needs_dict
            || any_dict(fields)),
    decreases fields.len(),
{
    if fields.len() > 0 {
        let front = fields.drop_last();
        let last = fields.last();
        lemma_fields_noted_flags(module, notes, front);
        lemma_noted_flags(fields_noted::<GleamTypeGenerator>(module, notes, front), last.ty);
        if any_optional(front) {
            let i = choose|i: int| 0 <= i < front.len() && uses_optional(#[trigger] front[i].ty);
            assert(uses_optional(fields[i].ty));
        }
        if any_dict(front) {
            let i = choose|i: int| 0 <= i < front.len() && uses_dict(#[trigger] front[i].ty);
            assert(uses_dict(fields[i].ty));
        }
        if uses_optional(last.ty) {
            assert(uses_optional(fields[fields.len() - 1].ty));
        }
        if uses_dict(last.ty) {
            assert(uses_dict(fields[fields.len() - 1].ty));
        }
        if any_optional(fields) {
            let i = choose|i: int| 0 <= i < fields.len() && uses_optional(#[trigger] fields[i].ty);
            if i < front.len() {
                assert(uses_optional(front[i].ty));
            }
        }
        if any_dict(fields) {
            let i = choose|i: int| 0 <= i < fields.len() && uses_dict(#[trigger] fields[i].ty);
            if i < front.len() {
                assert(uses_dict(front[i].ty));
            }
        }
    }
}

/// A declaration with an optional type in one of its fields, at whatever
/// depth, gets the import of the optional type; one with a dictionary type
/// gets the import of the dictionary type.
pub proof fn lemma_needed_imports_are_emitted(module: Seq<char>, ty: TypeView)
    ensures
        any_optional(ty.fields) ==> import_lines(
            module,
            fields_noted::<GleamTypeGenerator>(module, GleamTypeGenerator::no_notes(), ty.fields),
        ).contains(option_import()),
        any_dict(ty.fields) ==> import_lines(
            module,
            fields_noted::<GleamTypeGenerator>(module, GleamTypeGenerator::no_notes(), ty.fields),
        ).contains(dict_import()),
{
    let notes = fields_noted::<GleamTypeGenerator>(
        module,
        GleamTypeGenerator::no_notes(),
        ty.fields,
    );
    lemma_fields_noted_flags(module, GleamTypeGenerator::no_notes(), ty.fields);
    let lines = import_lines(module, notes);
    if any_optional(ty.fields) {
        assert(lines[1] == option_import());
    }
    if any_dict(ty.fields) {
        if notes.needs_option {
            assert(lines[2] == dict_import());
        } else {
            assert(lines[1] == dict_import());
        }
    }
}

/// A declaration without an optional type in its fields gets no import of the
/// optional type, and one without a dictionary type none of the dictionary
/// type, unless the import of a declaration that it refers to reads like the
/// one in question.
pub proof fn lemma_unneeded_imports_are_omitted(module: Seq<char>, ty: TypeView)
    requires
        forall|i: int|
            #![trigger fields_noted::<GleamTypeGenerator>(
                module,
                GleamTypeGenerator::no_notes(),
                ty.fields,
            ).used_types[i]]
            0 <= i < fields_noted::<GleamTypeGenerator>(
                module,
                GleamTypeGenerator::no_notes(),
                ty.fields,
            ).used_types.len() ==> {
                let name = fields_noted::<GleamTypeGenerator>(
                    module,
                    GleamTypeGenerator::no_notes(),
                    ty.fields,
                ).used_types[i];
                &&& type_import(module, name) != option_import()
                &&& type_import(module, name) != dict_import()
            },
    ensures
        !any_optional(ty.fields) ==> !import_lines(
            module,
            fields_noted::<GleamTypeGenerator>(module, GleamTypeGenerator::no_notes(), ty.fields),
        ).contains(option_import()),
        !any_dict(ty.fields) ==> !import_lines(
            module,
            fields_noted::<GleamTypeGenerator>(module, GleamTypeGenerator::no_notes(), ty.fields),
        ).contains(dict_import()),
{
    let notes = fields_noted::<GleamTypeGenerator>(
        module,
        GleamTypeGenerator::no_notes(),
        ty.fields,
    );
    lemma_fields_noted_flags(module, GleamTypeGenerator::no_notes(), ty.fields);
    let lines = import_lines(module, notes);
    let fixed = lines.len() - notes.used_types.len();
    reveal_strlit("import gleam/decode");
    reveal_strlit("import gleam/option.{type Option}");
    reveal_strlit("import gleam/dict.{type Dict}");
    assert(decode_import().len() == 19);
    assert(option_import().len() == 33);
    assert(dict_import().len() == 29);
    assert forall|i: int| fixed <= i < lines.len() implies lines[i] != option_import() && lines[i]
        != dict_import() by {
        let name = notes.used_types[i - fixed];
        assert(lines[i] == type_import(module, name));
    }
    if !any_optional(ty.fields) {
        assert forall|i: int| 0 <= i < lines.len() implies lines[i] != option_import() by {}
    }
    if !any_dict(ty.fields) {
        assert forall|i: int| 0 <= i < lines.len() implies lines[i] != dict_import() by {}
    }
}

/// Whether `name` is one of the names of the integer types.
fn names_integer(name: &str) -> (integer: bool)
    ensures
        integer == is_integer_name(name@),
{
    same_text(name, "Int") || same_text(name, "UInt") || same_text(name, "Int8") || same_text(
        name,
        "UInt8",
    ) || same_text(name, "Int16") || same_text(name, "UInt16") || same_text(name, "Int32")
        || same_text(name, "UInt32") || same_text(name, "Int64") || same_text(name, "UInt64")
        || same_text(name, "ISize") || same_text(name, "USize")
}

/// Whether `name` is one of the names of the floating-point types.
fn names_float(name: &str) -> (float: bool)
    ensures
        float == is_float_name(name@),
{
    same_text(name, "Float") || same_text(name, "Double")
}

/// Whether one of the strings reads `name`.
fn holds(names: &Vec<String>, name: &str) -> (found: bool)
    ensures
        found == texts(names@).contains(name@),
{
    let mut i: usize = 0;
    while i < names.len()
        invariant
            i <= names.len(),
            forall|j: int| 0 <= j < i ==> texts(names@)[j] != name@,
        decreases names.len() - i,
    {
        if same_text(names[i].as_str(), name) {
            assert(texts(names@)[i as int] == name@);
            return true;
        }
        i += 1;
    }
    false
}

impl GleamTypeGenerator {
    /// A generator without files, for the module `module_name`.
    pub fn new(module_name: String) -> (generator: Self)
        ensures
            generator.settings() == module_name@,
            generator.notes() == Self::no_notes(),
            generator.files() == Seq::<OutputFileView>::empty(),
    {
        let generator = Self {
            types: Vec::new(),
            needs_option: false,
            needs_dict: false,
            used_types: Vec::new(),
            module_name,
        };
        assert(generator.notes().used_types =~= Seq::empty());
        assert(generator.files() =~= Seq::empty());
        generator
    }

    /// A generator without files, for the module `types`, in a box.
    pub fn boxed() -> (generator: Box<Self>)
        ensures
            generator.settings() == "types"@,
            generator.notes() == Self::no_notes(),
            generator.files() == Seq::<OutputFileView>::empty(),
    {
        Box::new(Self::default())
    }

    /// The expression that decodes a value of the type item.
    fn type_item_decoder(&self, item: &TypeItem) -> (text: String)
        ensures
            text@ == decoder_of(item@),
        decreases item,
    {
        match item {
            TypeItem::Array(elements) => {
                let mut text = "decode.list(".to_owned();
                text.append(self.type_item_decoder(&**elements).as_str());
                text.append(")");
                text
            },
            TypeItem::Dict { key, value } => {
                let mut text = "decode.dict(".to_owned();
                text.append(self.type_item_decoder(&**key).as_str());
                text.append(", ");
                text.append(self.type_item_decoder(&**value).as_str());
                text.append(")");
                text
            },
            TypeItem::Optional(inner) => {
                let mut text = "decode.optional(".to_owned();
                text.append(self.type_item_decoder(&**inner).as_str());
                text.append(")");
                text
            },
            TypeItem::Basic(plain) => {
                let name = plain.as_str();
                if same_text(name, "String") {
                    "decode.string".to_owned()
                } else if names_integer(name) {
                    "decode.int".to_owned()
                } else if same_text(name, "Bool") {
                    "decode.bool".to_owned()
                } else if names_float(name) {
                    "decode.float".to_owned()
                } else {
                    let mut text = self.to_file_name(name);
                    text.append(".decode");
                    text
                }
            },
        }
    }
}

impl Default for GleamTypeGenerator {
    fn default() -> (generator: Self)
        ensures
            generator.settings() == "types"@,
            generator.notes() == Self::no_notes(),
            generator.files() == Seq::<OutputFileView>::empty(),
    {
        Self::new("types".to_owned())
    }
}

} // verus!
