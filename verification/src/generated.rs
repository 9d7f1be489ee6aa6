//! What the transformation engine produces: the schema of the generated partial
//! type, the two facts that link it to the declared type, and the errors that stop it.

use crate::schema::{
    text_view, views, Generics, GenericsView, SimplePath, SimplePathView, TypeRef, TypeRefView,
    Visibility, VisibilityView,
};
use vstd::prelude::*;

verus! {

/// How the type of a generated field is written.
#[derive(Debug, PartialEq, Eq)]
pub enum GeneratedType {
    /// The declared type, unchanged.
    Kept(TypeRef),
    /// The partial counterpart of the declared type, with no further wrapper:
    /// `<T as Optionable>::Optioned`.
    Partial(TypeRef),
    /// The partial counterpart of the declared type inside a nullable wrapper:
    /// `Option<<T as Optionable>::Optioned>`.
    NullablePartial(TypeRef),
}

/// The view of `GeneratedType`: text as sequences of characters, lists as sequences.
pub enum GeneratedTypeView {
    Kept(TypeRefView),
    Partial(TypeRefView),
    NullablePartial(TypeRefView),
}

impl View for GeneratedType {
    type V = GeneratedTypeView;

    open spec fn view(&self) -> GeneratedTypeView {
        match self {
            GeneratedType::Kept(ty) => GeneratedTypeView::Kept(ty@),
            GeneratedType::Partial(ty) => GeneratedTypeView::Partial(ty@),
            GeneratedType::NullablePartial(ty) => GeneratedTypeView::NullablePartial(ty@),
        }
    }
}

/// One field of the generated type.
#[derive(Debug, PartialEq, Eq)]
pub struct GeneratedField {
    pub vis: Visibility,
    /// The field's name; `None` for a positional field.
    pub name: Option<String>,
    pub ty: GeneratedType,
    /// The field is to be left out of serialized output while it is absent.
    pub skip_when_absent: bool,
}

/// The view of `GeneratedField`: text as sequences of characters, lists as sequences.
pub struct GeneratedFieldView {
    pub vis: VisibilityView,
    pub name: Option<Seq<char>>,
    pub ty: GeneratedTypeView,
    pub skip_when_absent: bool,
}

impl View for GeneratedField {
    type V = GeneratedFieldView;

    open spec fn view(&self) -> GeneratedFieldView {
        GeneratedFieldView {
            vis: self.vis@,
            name: text_view(self.name),
            ty: self.ty@,
            skip_when_absent: self.skip_when_absent,
        }
    }
}

/// The fields of the generated struct or of one of its variants.
#[derive(Debug, PartialEq, Eq)]
pub enum GeneratedFields {
    Named(Vec<GeneratedField>),
    Unnamed(Vec<GeneratedField>),
    Unit,
}

/// The view of `GeneratedFields`: text as sequences of characters, lists as sequences.
pub enum GeneratedFieldsView {
    Named(Seq<GeneratedFieldView>),
    Unnamed(Seq<GeneratedFieldView>),
    Unit,
}

impl View for GeneratedFields {
    type V = GeneratedFieldsView;

    open spec fn view(&self) -> GeneratedFieldsView {
        match self {
            GeneratedFields::Named(fields) => GeneratedFieldsView::Named(
                views(fields@),
            ),
            GeneratedFields::Unnamed(fields) => GeneratedFieldsView::Unnamed(
                views(fields@),
            ),
            GeneratedFields::Unit => GeneratedFieldsView::Unit,
        }
    }
}

/// One variant of the generated enum.
#[derive(Debug, PartialEq, Eq)]
pub struct GeneratedVariant {
    pub name: String,
    pub fields: GeneratedFields,
}

/// The view of `GeneratedVariant`: text as sequences of characters, lists as sequences.
pub struct GeneratedVariantView {
    pub name: Seq<char>,
    pub fields: GeneratedFieldsView,
}

impl View for GeneratedVariant {
    type V = GeneratedVariantView;

    open spec fn view(&self) -> GeneratedVariantView {
        GeneratedVariantView { name: self.name@, fields: self.fields@ }
    }
}

/// The body of the generated type.
#[derive(Debug, PartialEq, Eq)]
pub enum GeneratedData {
    Struct(GeneratedFields),
    Enum(Vec<GeneratedVariant>),
}

/// The view of `GeneratedData`: text as sequences of characters, lists as sequences.
pub enum GeneratedDataView {
    Struct(GeneratedFieldsView),
    Enum(Seq<GeneratedVariantView>),
}

impl View for GeneratedData {
    type V = GeneratedDataView;

    open spec fn view(&self) -> GeneratedDataView {
        match self {
            GeneratedData::Struct(fields) => GeneratedDataView::Struct(fields@),
            GeneratedData::Enum(variants) => GeneratedDataView::Enum(
                views(variants@),
            ),
        }
    }
}

/// The fact that the type named `source` has the type named `partial` as its
/// partial counterpart. Both names stand for the type with the generic arguments
/// of the schema that the fact belongs to.
#[derive(Debug, PartialEq, Eq)]
pub struct Linkage {
    pub source: String,
    pub partial: String,
}

/// The view of `Linkage`: text as sequences of characters, lists as sequences.
pub struct LinkageView {
    pub source: Seq<char>,
    pub partial: Seq<char>,
}

impl View for Linkage {
    type V = LinkageView;

    open spec fn view(&self) -> LinkageView {
        LinkageView { source: self.source@, partial: self.partial@ }
    }
}

/// The generated partial type and the facts that link it to the declared type.
#[derive(Debug, PartialEq, Eq)]
pub struct GeneratedSchema {
    pub name: String,
    pub vis: Visibility,
    /// The capabilities to derive on the generated type.
    pub derives: Vec<SimplePath>,
    /// The parameters of the declared type and its `where` clause with the added bounds.
    /// The type and both linkages are declared under them.
    pub generics: Generics,
    pub data: GeneratedData,
    /// First the declared type's partial counterpart, then the generated type's own.
    pub linkages: Vec<Linkage>,
}

/// The view of `GeneratedSchema`: text as sequences of characters, lists as sequences.
pub struct GeneratedSchemaView {
    pub name: Seq<char>,
    pub vis: VisibilityView,
    pub derives: Seq<SimplePathView>,
    pub generics: GenericsView,
    pub data: GeneratedDataView,
    pub linkages: Seq<LinkageView>,
}

impl View for GeneratedSchema {
    type V = GeneratedSchemaView;

    open spec fn view(&self) -> GeneratedSchemaView {
        GeneratedSchemaView {
            name: self.name@,
            vis: self.vis@,
            derives: views(self.derives@),
            generics: self.generics@,
            data: self.data@,
            linkages: views(self.linkages@),
        }
    }
}

/// Why a schema was not transformed.
#[derive(Debug, Clone, Copy, PartialEq, Eq)]
pub enum SchemaError {
    /// The type has no field structure: it is a union.
    UnsupportedShape,
    /// The capability at this index of the type's directives is malformed.
    InvalidDirective { capability: usize },
    /// The variant at this index carries a directive; none is supported there.
    DirectiveNotSupportedHere { variant: usize },
}

impl SchemaError {
    /// The text of the report.
    pub open spec fn message_text(self) -> Seq<char> {
        match self {
            SchemaError::UnsupportedShape =>
                "#[derive(Optionable)] not supported for unit structs"@,
            SchemaError::InvalidDirective { .. } =>
                "#[optionable] helper attribute holds a malformed derive path."@,
            SchemaError::DirectiveNotSupportedHere { .. } =>
                "#[optionable] helper attributes not supported on enum variant level."@,
        }
    }

    /// The text of the report.
    pub fn message(&self) -> (text: &'static str)
        ensures
            text@ == self.message_text(),
    {
        match self {
            SchemaError::UnsupportedShape => "#[derive(Optionable)] not supported for unit structs",
            SchemaError::InvalidDirective { .. } =>
                "#[optionable] helper attribute holds a malformed derive path.",
            SchemaError::DirectiveNotSupportedHere { .. } =>
                "#[optionable] helper attributes not supported on enum variant level.",
        }
    }
}

} // verus!
