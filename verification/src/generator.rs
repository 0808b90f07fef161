//! Generators: what every target language supplies, and the steps, the same
//! for all of them, that turn a declaration into a file.

use vstd::prelude::*;
use vstd::string::*;
use crate::parser::{Field, FieldView, Type, TypeItem, TypeItemView, TypeView};
use crate::text::{join, joined, texts, trim, trimmed};

pub mod gleam;
pub mod rust;

verus! {

/// A generated file: its name, without extension, and its content.
#[derive(Clone, Debug, PartialEq, Eq)]
pub struct OutputFile {
    pub name: String,
    pub content: String,
}

/// An `OutputFile` with its texts as sequences of characters.
pub struct OutputFileView {
    pub name: Seq<char>,
    pub content: Seq<char>,
}

impl View for OutputFile {
    type V = OutputFileView;

    open spec fn view(&self) -> OutputFileView {
        OutputFileView { name: self.name@, content: self.content@ }
    }
}

/// The files as sequences of characters.
pub open spec fn file_views(files: Seq<OutputFile>) -> Seq<OutputFileView> {
    files.map_values(|file: OutputFile| file@)
}

/// The content of a file that has these three sections: each section, a blank
/// line between two of them, and no white space at the start or the end.
pub open spec fn file_content(imports: Seq<char>, declaration: Seq<char>, decoder: Seq<char>) -> Seq<
    char,
> {
    trimmed(imports + "\n\n"@ + declaration + "\n\n"@ + decoder + "\n"@)
}

/// A target language: what its generator makes of a declaration, as a
/// function of the generator's settings and of what it is given.
///
/// A generator has settings, which never change; the files of the declarations
/// that were added, in the order in which they were added; further files that
/// go with them; and notes on what the declaration at hand has made use of,
/// which are taken while its fields are rendered and read when its imports are
/// written.
pub trait Target: Sized {
    type Settings;

    type Notes;

    /// The settings of this generator.
    spec fn settings(&self) -> Self::Settings;

    /// The notes taken since they were last reset.
    spec fn notes(&self) -> Self::Notes;

    /// The files of the declarations added so far.
    spec fn files(&self) -> Seq<OutputFileView>;

    /// The files that go with those of the declarations.
    spec fn extras(&self) -> Seq<OutputFileView>;

    /// The notes when nothing has been noted.
    spec fn no_notes() -> Self::Notes;

    /// The notes once `item` has been rendered.
    spec fn noted(settings: Self::Settings, notes: Self::Notes, item: TypeItemView) -> Self::Notes;

    /// The separator between two fields.
    spec fn separator() -> Seq<char>;

    /// The extension of the files.
    spec fn extension() -> Seq<char>;

    /// The type item in the target language.
    spec fn type_item_text(settings: Self::Settings, item: TypeItemView) -> Seq<char>;

    /// The field in the target language.
    spec fn field_text(settings: Self::Settings, field: FieldView) -> Seq<char>;

    /// The declaration named `ident` around the rendered fields.
    spec fn declaration_text(settings: Self::Settings, ident: Seq<char>, fields: Seq<char>) -> Seq<
        char,
    >;

    /// The decoder of the declaration; empty where the target language needs
    /// none.
    spec fn decoder_text(settings: Self::Settings, ty: TypeView) -> Seq<char>;

    /// The imports that a declaration with these notes needs.
    spec fn imports_text(settings: Self::Settings, notes: Self::Notes) -> Seq<char>;

    /// The name of the file for the declaration named `name`.
    spec fn file_name(settings: Self::Settings, name: Seq<char>) -> Seq<char>;

    /// The identifier in a form that the target language accepts.
    spec fn sanitized(settings: Self::Settings, ident: Seq<char>) -> Seq<char>;

    /// The further files once the file `file` of the declaration `ty` has been
    /// made.
    spec fn extras_with(
        settings: Self::Settings,
        extras: Seq<OutputFileView>,
        ty: TypeView,
        file: OutputFileView,
    ) -> Seq<OutputFileView>;
}

/// The rendered fields, with the separator between each two of them.
pub open spec fn fields_text<T: Target>(settings: T::Settings, fields: Seq<FieldView>) -> Seq<char> {
    joined(fields.map_values(|field: FieldView| T::field_text(settings, field)), T::separator())
}

/// The notes once the types of the fields have been rendered, one after the
/// other.
pub open spec fn fields_noted<T: Target>(
    settings: T::Settings,
    notes: T::Notes,
    fields: Seq<FieldView>,
) -> T::Notes {
    fields.fold_left(notes, |notes: T::Notes, field: FieldView| T::noted(settings, notes, field.ty))
}

/// The file of the declaration `ty`: named after it, and holding its imports,
/// the declaration itself and its decoder.
pub open spec fn rendered<T: Target>(settings: T::Settings, ty: TypeView) -> OutputFileView {
    OutputFileView {
        name: T::file_name(settings, ty.ident),
        content: file_content(
            T::imports_text(settings, fields_noted::<T>(settings, T::no_notes(), ty.fields)),
            T::declaration_text(settings, ty.ident, fields_text::<T>(settings, ty.fields)),
            T::decoder_text(settings, ty),
        ),
    }
}

/// What adding the declaration `ty` makes of a generator: the file of the
/// declaration is added behind the files that were there, the further files
/// are brought up to date, the settings stay and the notes are empty.
pub open spec fn adds<T: Target>(before: T, ty: TypeView, after: T) -> bool {
    &&& after.settings() == before.settings()
    &&& after.notes() == T::no_notes()
    &&& after.files() == before.files().push(rendered::<T>(before.settings(), ty))
    &&& after.extras() == T::extras_with(
        before.settings(),
        before.extras(),
        ty,
        rendered::<T>(before.settings(), ty),
    )
}

/// A declaration that is added twice gives the same file twice: nothing of the
/// first rendering is left in the generator to change the second.
pub proof fn lemma_add_type_repeats<T: Target>(start: T, once: T, twice: T, ty: TypeView)
    requires
        adds(start, ty, once),
        adds(once, ty, twice),
    ensures
        twice.files() == start.files().push(once.files().last()).push(once.files().last()),
        twice.files().last() == once.files().last(),
{
}

/// Two generators with the same settings render the same file for a
/// declaration, whatever either has rendered before.
pub proof fn lemma_add_type_same_settings<T: Target>(
    first: T,
    first_after: T,
    second: T,
    second_after: T,
    ty: TypeView,
)
    requires
        first.settings() == second.settings(),
        adds(first, ty, first_after),
        adds(second, ty, second_after),
    ensures
        first_after.files().last() == second_after.files().last(),
{
}

/// The executable side of a target language: the operations that each language
/// supplies, and the steps, the same for all of them, that turn a declaration
/// into a file.
pub trait Generator: Target {
    /// Renders the declaration into a file and adds the file to those of this
    /// generator. The notes are reset before and after, so that no declaration
    /// sees what another has made use of.
    fn add_type(&mut self, ty: &Type)
        ensures
            adds(*old(self), ty@, *final(self)),
    {
        self.reset();
        let fields = self.generate_fields(ty);
        let decoder = self.create_decoder(ty);
        let declaration = self.generate_declaration(ty.ident.as_str(), fields.as_str());
        let mut content = self.generate_imports();
        content.append("\n\n");
        content.append(declaration.as_str());
        content.append("\n\n");
        content.append(decoder.as_str());
        content.append("\n");
        let file = OutputFile {
            name: self.to_file_name(ty.ident.as_str()),
            content: trim(content.as_str()),
        };
        self.add_type_boilerplate(ty, &file);
        self.push_type(file);
        self.reset();
    }

    /// Brings the further files up to date once the file of a declaration has
    /// been made.
    fn add_type_boilerplate(&mut self, ty: &Type, file: &OutputFile)
        ensures
            final(self).settings() == old(self).settings(),
            final(self).notes() == old(self).notes(),
            final(self).files() == old(self).files(),
            final(self).extras() == Self::extras_with(
                old(self).settings(),
                old(self).extras(),
                ty@,
                file@,
            ),
    ;

    /// The decoder of the declaration.
    fn create_decoder(&mut self, ty: &Type) -> (text: String)
        ensures
            text@ == Self::decoder_text(old(self).settings(), ty@),
            final(self).settings() == old(self).settings(),
            final(self).notes() == old(self).notes(),
            final(self).files() == old(self).files(),
            final(self).extras() == old(self).extras(),
    ;

    /// The separator between two fields.
    fn field_separator(&self) -> (text: &'static str)
        ensures
            text@ == Self::separator(),
    ;

    /// The extension of the files.
    fn file_extension(&self) -> (text: &'static str)
        ensures
            text@ == Self::extension(),
    ;

    /// Ends the generator: the files of the declarations, then the further
    /// files.
    fn generate(self) -> (files: Vec<OutputFile>)
        ensures
            file_views(files@) == self.files() + self.extras(),
    ;

    /// The declaration named `ident` around the rendered fields.
    fn generate_declaration(&self, ident: &str, fields: &str) -> (text: String)
        ensures
            text@ == Self::declaration_text(self.settings(), ident@, fields@),
    ;

    /// Renders the field, and notes what its type makes use of.
    fn generate_field(&mut self, field: &Field) -> (text: String)
        ensures
            text@ == Self::field_text(old(self).settings(), field@),
            final(self).notes() == Self::noted(old(self).settings(), old(self).notes(), field@.ty),
            final(self).settings() == old(self).settings(),
            final(self).files() == old(self).files(),
            final(self).extras() == old(self).extras(),
    ;

    /// Renders the fields of the declaration, with the separator between each
    /// two of them, and notes what their types make use of.
    fn generate_fields(&mut self, ty: &Type) -> (text: String)
        ensures
            text@ == fields_text::<Self>(old(self).settings(), ty@.fields),
            final(self).notes() == fields_noted::<Self>(
                old(self).settings(),
                old(self).notes(),
                ty@.fields,
            ),
            final(self).settings() == old(self).settings(),
            final(self).files() == old(self).files(),
            final(self).extras() == old(self).extras(),
    {
        let ghost settings = self.settings();
        let ghost all = ty@.fields;
        let ghost render = |field: FieldView| Self::field_text(settings, field);
        let ghost note = |notes: Self::Notes, field: FieldView|
            Self::noted(settings, notes, field.ty);
        let mut parts: Vec<String> = Vec::new();
        let mut i: usize = 0;
        while i < ty.fields.len()
            invariant
                i <= ty.fields.len(),
                all == ty@.fields,
                all.len() == ty.fields.len(),
                render == |field: FieldView| Self::field_text(settings, field),
                note == |notes: Self::Notes, field: FieldView|
                    Self::noted(settings, notes, field.ty),
                texts(parts@) == all.take(i as int).map_values(render),
                self.notes() == all.take(i as int).fold_left(old(self).notes(), note),
                self.settings() == settings,
                self.files() == old(self).files(),
                self.extras() == old(self).extras(),
            decreases ty.fields.len() - i,
        {
            let part = self.generate_field(&ty.fields[i]);
            proof {
                assert(all[i as int] == ty.fields[i as int]@);
                assert(all.take(i + 1).drop_last() =~= all.take(i as int));
                let before = texts(parts@);
                let after = texts(parts@.push(part));
                let wanted = all.take(i + 1).map_values(render);
                assert(before.len() == i);
                assert forall|j: int| 0 <= j < i + 1 implies after[j] == wanted[j] by {
                    if j < i {
                        assert(before[j] == all.take(i as int).map_values(render)[j]);
                    } else {
                        assert(part@ == render(all[i as int]));
                    }
                }
                assert(after =~= wanted);
            }
            parts.push(part);
            i += 1;
        }
        assert(all.take(i as int) =~= all);
        join(&parts, self.field_separator())
    }

    /// The imports that the declaration at hand needs, by the notes taken.
    fn generate_imports(&self) -> (text: String)
        ensures
            text@ == Self::imports_text(self.settings(), self.notes()),
    ;

    /// Renders the type item, and notes what it makes use of.
    fn generate_type_item(&mut self, ty: &TypeItem) -> (text: String)
        ensures
            text@ == Self::type_item_text(old(self).settings(), ty@),
            final(self).notes() == Self::noted(old(self).settings(), old(self).notes(), ty@),
            final(self).settings() == old(self).settings(),
            final(self).files() == old(self).files(),
            final(self).extras() == old(self).extras(),
    ;

    /// Adds a file to the files of the declarations.
    fn push_type(&mut self, file: OutputFile)
        ensures
            final(self).files() == old(self).files().push(file@),
            final(self).settings() == old(self).settings(),
            final(self).notes() == old(self).notes(),
            final(self).extras() == old(self).extras(),
    ;

    /// Forgets the notes.
    fn reset(&mut self)
        ensures
            final(self).notes() == Self::no_notes(),
            final(self).settings() == old(self).settings(),
            final(self).files() == old(self).files(),
            final(self).extras() == old(self).extras(),
    ;

    /// The identifier in a form that the target language accepts.
    fn sanitize_ident(&self, ident: &str) -> (text: String)
        ensures
            text@ == Self::sanitized(self.settings(), ident@),
    ;

    /// The name of the file for the declaration named `name`.
    fn to_file_name(&self, name: &str) -> (text: String)
        ensures
            text@ == Self::file_name(self.settings(), name@),
    ;
}

} // verus!
