//! The parsed description of a type, as the transformation engine reads it.
//!
//! A schema holds names, types, visibilities and directives as plain values. Reading
//! source syntax into a schema is the business of whoever calls the engine. Each type
//! here has a view: the same value with text as `Seq<char>` and lists as `Seq`, over
//! which the engine's contracts are stated.

use vstd::prelude::*;

verus! {

/// The views of the items of `items`, in their order.
pub open spec fn views<T: View>(items: Seq<T>) -> Seq<T::V> {
    items.map_values(|item: T| item@)
}

/// A path without arguments, such as `Serialize` or `serde::Serialize`.
#[derive(Debug, PartialEq, Eq)]
pub struct SimplePath {
    /// Whether the path starts with `::`.
    pub leading_colon: bool,
    /// The identifiers between the `::`.
    pub segments: Vec<String>,
}

/// The view of `SimplePath`: text as sequences of characters, lists as sequences.
pub struct SimplePathView {
    pub leading_colon: bool,
    pub segments: Seq<Seq<char>>,
}

impl View for SimplePath {
    type V = SimplePathView;

    open spec fn view(&self) -> SimplePathView {
        SimplePathView {
            leading_colon: self.leading_colon,
            segments: views(self.segments@),
        }
    }
}

impl SimplePathView {
    /// Whether the path is the single identifier `ident`, written without `::`.
    pub open spec fn is_ident(self, ident: Seq<char>) -> bool {
        !self.leading_colon && self.segments.len() == 1 && self.segments[0] == ident
    }

    /// Whether the path has at least one segment and no segment is empty.
    pub open spec fn well_formed(self) -> bool {
        self.segments.len() > 0 && forall|i: int|
            0 <= i < self.segments.len() ==> (#[trigger] self.segments[i]).len() > 0
    }
}

/// A type as it is written in a field, a bound or a generic argument.
#[derive(Debug, PartialEq, Eq)]
pub enum TypeRef {
    /// A path such as `u8`, `Vec<T>` or `std::option::Option<T>`; `args` are the
    /// type arguments of its last segment.
    Path { leading_colon: bool, segments: Vec<String>, args: Vec<TypeRef> },
    /// A reference `&'a T` or `&'a mut T`.
    Reference { lifetime: Option<String>, mutable: bool, target: Box<TypeRef> },
    /// The partial counterpart of a type, left for the compiler to resolve:
    /// `<T as Optionable>::Optioned`.
    Optioned(Box<TypeRef>),
    /// Any other type, kept as it was written.
    Other(String),
}

/// The view of `TypeRef`: text as sequences of characters, lists as sequences.
pub enum TypeRefView {
    Path { leading_colon: bool, segments: Seq<Seq<char>>, args: Seq<TypeRefView> },
    Reference { lifetime: Option<Seq<char>>, mutable: bool, target: Box<TypeRefView> },
    Optioned(Box<TypeRefView>),
    Other(Seq<char>),
}

impl View for TypeRef {
    type V = TypeRefView;

    open spec fn view(&self) -> TypeRefView
        decreases self,
    {
        match self {
            TypeRef::Path { leading_colon, segments, args } => TypeRefView::Path {
                leading_colon: *leading_colon,
                segments: views(segments@),
                args: type_views(args@),
            },
            TypeRef::Reference { lifetime, mutable, target } => TypeRefView::Reference {
                lifetime: text_view(*lifetime),
                mutable: *mutable,
                target: Box::new((**target)@),
            },
            TypeRef::Optioned(inner) => TypeRefView::Optioned(Box::new((**inner)@)),
            TypeRef::Other(text) => TypeRefView::Other(text@),
        }
    }
}

/// The views of the types in `types`, in their order.
pub open spec fn type_views(types: Seq<TypeRef>) -> Seq<TypeRefView>
    decreases types,
{
    if types.len() == 0 {
        Seq::empty()
    } else {
        type_views(types.drop_last()).push(types.last()@)
    }
}

/// `type_views` views each type in its place, as `views` does.
pub proof fn lemma_type_views(types: Seq<TypeRef>)
    ensures
        type_views(types) == views(types),
    decreases types.len(),
{
    if types.len() > 0 {
        lemma_type_views(types.drop_last());
        assert(type_views(types) == type_views(types.drop_last()).push(types.last()@));
    } else {
        assert(type_views(types) == Seq::<TypeRefView>::empty());
    }
    assert(type_views(types) =~= views(types));
}

impl TypeRefView {
    /// The type that is the bare identifier `name`.
    pub open spec fn ident(name: Seq<char>) -> TypeRefView {
        TypeRefView::Path { leading_colon: false, segments: seq![name], args: Seq::empty() }
    }

    /// Whether the type is the single identifier `name`, without `::` and without
    /// arguments.
    pub open spec fn is_ident(self, name: Seq<char>) -> bool {
        self matches TypeRefView::Path { leading_colon, segments, args } && !leading_colon
            && segments.len() == 1 && segments[0] == name && args.len() == 0
    }
}

/// The view of an optional piece of text.
pub open spec fn text_view(text: Option<String>) -> Option<Seq<char>> {
    match text {
        Some(t) => Some(t@),
        None => None,
    }
}

/// Who may see an item or a field.
#[derive(Debug, PartialEq, Eq)]
pub enum Visibility {
    /// No visibility was written.
    Inherited,
    /// `pub`
    Public,
    /// `pub(..)`, with what stands between the brackets.
    Restricted(String),
}

/// The view of `Visibility`: text as sequences of characters, lists as sequences.
pub enum VisibilityView {
    Inherited,
    Public,
    Restricted(Seq<char>),
}

impl View for Visibility {
    type V = VisibilityView;

    open spec fn view(&self) -> VisibilityView {
        match self {
            Visibility::Inherited => VisibilityView::Inherited,
            Visibility::Public => VisibilityView::Public,
            Visibility::Restricted(scope) => VisibilityView::Restricted(scope@),
        }
    }
}

/// A bound on a type parameter.
#[derive(Debug, PartialEq, Eq)]
pub enum Bound {
    /// The bound that asks for a partial counterpart: `::optionable::Optionable`.
    Optionable,
    /// Any other bound, kept as it was written.
    Other(String),
}

/// The view of `Bound`: text as sequences of characters, lists as sequences.
pub enum BoundView {
    Optionable,
    Other(Seq<char>),
}

impl View for Bound {
    type V = BoundView;

    open spec fn view(&self) -> BoundView {
        match self {
            Bound::Optionable => BoundView::Optionable,
            Bound::Other(text) => BoundView::Other(text@),
        }
    }
}

/// One generic parameter of a type.
#[derive(Debug, PartialEq, Eq)]
pub enum GenericParam {
    /// A lifetime parameter `'a: 'b`, with its bounds as written.
    Lifetime { name: String, outlives: Vec<String> },
    /// A type parameter `T: A + B`.
    Type { name: String, bounds: Vec<Bound> },
    /// A const parameter `const N: usize`.
    Const { name: String, ty: TypeRef },
}

/// The view of `GenericParam`: text as sequences of characters, lists as sequences.
pub enum GenericParamView {
    Lifetime { name: Seq<char>, outlives: Seq<Seq<char>> },
    Type { name: Seq<char>, bounds: Seq<BoundView> },
    Const { name: Seq<char>, ty: TypeRefView },
}

impl View for GenericParam {
    type V = GenericParamView;

    open spec fn view(&self) -> GenericParamView {
        match self {
            GenericParam::Lifetime { name, outlives } => GenericParamView::Lifetime {
                name: name@,
                outlives: views(outlives@),
            },
            GenericParam::Type { name, bounds } => GenericParamView::Type {
                name: name@,
                bounds: views(bounds@),
            },
            GenericParam::Const { name, ty } => GenericParamView::Const { name: name@, ty: ty@ },
        }
    }
}

/// One entry of a `where` clause.
#[derive(Debug, PartialEq, Eq)]
pub enum WherePredicate {
    /// `'a: 'b + 'c`
    Lifetime { lifetime: String, outlives: Vec<String> },
    /// `T: A + B`
    Type { bounded: TypeRef, bounds: Vec<Bound> },
}

/// The view of `WherePredicate`: text as sequences of characters, lists as sequences.
pub enum WherePredicateView {
    Lifetime { lifetime: Seq<char>, outlives: Seq<Seq<char>> },
    Type { bounded: TypeRefView, bounds: Seq<BoundView> },
}

impl View for WherePredicate {
    type V = WherePredicateView;

    open spec fn view(&self) -> WherePredicateView {
        match self {
            WherePredicate::Lifetime { lifetime, outlives } => WherePredicateView::Lifetime {
                lifetime: lifetime@,
                outlives: views(outlives@),
            },
            WherePredicate::Type { bounded, bounds } => WherePredicateView::Type {
                bounded: bounded@,
                bounds: views(bounds@),
            },
        }
    }
}

/// The generic parameters of a type and its `where` clause.
#[derive(Debug, PartialEq, Eq)]
pub struct Generics {
    /// The parameters, in the order in which they are declared.
    pub params: Vec<GenericParam>,
    /// The entries of the `where` clause; empty where there is none.
    pub where_clause: Vec<WherePredicate>,
}

/// The view of `Generics`: text as sequences of characters, lists as sequences.
pub struct GenericsView {
    pub params: Seq<GenericParamView>,
    pub where_clause: Seq<WherePredicateView>,
}

impl View for Generics {
    type V = GenericsView;

    open spec fn view(&self) -> GenericsView {
        GenericsView {
            params: views(self.params@),
            where_clause: views(self.where_clause@),
        }
    }
}

/// What a field's own directives say.
#[derive(Debug, Clone, Copy, PartialEq, Eq)]
pub struct FieldDirectives {
    /// The field is always required: it is kept as declared.
    pub required: bool,
}

/// One field of a struct or of an enum variant.
#[derive(Debug, PartialEq, Eq)]
pub struct Field {
    pub vis: Visibility,
    /// The field's name; `None` for a positional field.
    pub name: Option<String>,
    pub ty: TypeRef,
    pub directives: FieldDirectives,
}

/// The view of `Field`: text as sequences of characters, lists as sequences.
pub struct FieldView {
    pub vis: VisibilityView,
    pub name: Option<Seq<char>>,
    pub ty: TypeRefView,
    pub directives: FieldDirectives,
}

impl View for Field {
    type V = FieldView;

    open spec fn view(&self) -> FieldView {
        FieldView {
            vis: self.vis@,
            name: text_view(self.name),
            ty: self.ty@,
            directives: self.directives,
        }
    }
}

/// The fields of a struct or of an enum variant.
#[derive(Debug, PartialEq, Eq)]
pub enum Fields {
    /// `{ a: A, b: B }`
    Named(Vec<Field>),
    /// `(A, B)`
    Unnamed(Vec<Field>),
    /// No fields at all.
    Unit,
}

/// The view of `Fields`: text as sequences of characters, lists as sequences.
pub enum FieldsView {
    Named(Seq<FieldView>),
    Unnamed(Seq<FieldView>),
    Unit,
}

impl View for Fields {
    type V = FieldsView;

    open spec fn view(&self) -> FieldsView {
        match self {
            Fields::Named(fields) => FieldsView::Named(views(fields@)),
            Fields::Unnamed(fields) => FieldsView::Unnamed(views(fields@)),
            Fields::Unit => FieldsView::Unit,
        }
    }
}

/// An attribute, of which only the path is read: `#[path(..)]`.
#[derive(Debug, PartialEq, Eq)]
pub struct Attribute {
    pub path: SimplePath,
}

impl View for Attribute {
    type V = SimplePathView;

    open spec fn view(&self) -> SimplePathView {
        self.path@
    }
}

/// One variant of an enum.
#[derive(Debug, PartialEq, Eq)]
pub struct Variant {
    pub name: String,
    /// The attributes written on the variant.
    pub attrs: Vec<Attribute>,
    pub fields: Fields,
}

/// The view of `Variant`: text as sequences of characters, lists as sequences.
pub struct VariantView {
    pub name: Seq<char>,
    pub attrs: Seq<SimplePathView>,
    pub fields: FieldsView,
}

impl View for Variant {
    type V = VariantView;

    open spec fn view(&self) -> VariantView {
        VariantView {
            name: self.name@,
            attrs: views(self.attrs@),
            fields: self.fields@,
        }
    }
}

/// The body of a type.
#[derive(Debug, PartialEq, Eq)]
pub enum Data {
    Struct(Fields),
    Enum(Vec<Variant>),
    /// A union: it has no field structure that could be made partial.
    Union,
}

/// The view of `Data`: text as sequences of characters, lists as sequences.
pub enum DataView {
    Struct(FieldsView),
    Enum(Seq<VariantView>),
    Union,
}

impl View for Data {
    type V = DataView;

    open spec fn view(&self) -> DataView {
        match self {
            Data::Struct(fields) => DataView::Struct(fields@),
            Data::Enum(variants) => DataView::Enum(views(variants@)),
            Data::Union => DataView::Union,
        }
    }
}

/// A struct, enum or union as declared.
#[derive(Debug, PartialEq, Eq)]
pub struct TypeSchema {
    pub name: String,
    pub vis: Visibility,
    pub generics: Generics,
    pub data: Data,
}

/// The view of `TypeSchema`: text as sequences of characters, lists as sequences.
pub struct TypeSchemaView {
    pub name: Seq<char>,
    pub vis: VisibilityView,
    pub generics: GenericsView,
    pub data: DataView,
}

impl View for TypeSchema {
    type V = TypeSchemaView;

    open spec fn view(&self) -> TypeSchemaView {
        TypeSchemaView {
            name: self.name@,
            vis: self.vis@,
            generics: self.generics@,
            data: self.data@,
        }
    }
}

/// What the directives on the type itself say.
#[derive(Debug, PartialEq, Eq)]
pub struct TypeDirectives {
    /// Capabilities to derive on the generated type, in the order given.
    pub derive: Vec<SimplePath>,
    /// What is appended to the type's name to name the generated type.
    pub suffix: String,
}

/// The view of `TypeDirectives`: text as sequences of characters, lists as sequences.
pub struct TypeDirectivesView {
    pub derive: Seq<SimplePathView>,
    pub suffix: Seq<char>,
}

impl View for TypeDirectives {
    type V = TypeDirectivesView;

    open spec fn view(&self) -> TypeDirectivesView {
        TypeDirectivesView {
            derive: views(self.derive@),
            suffix: self.suffix@,
        }
    }
}

impl Default for TypeDirectives {
    /// No capabilities, and the suffix `Opt`.
    fn default() -> (directives: TypeDirectives)
        ensures
            directives.derive@.len() == 0,
            directives.suffix@ == "Opt"@,
    {
        TypeDirectives { derive: Vec::new(), suffix: "Opt".to_owned() }
    }
}

impl Default for FieldDirectives {
    /// Not required.
    fn default() -> (directives: FieldDirectives)
        ensures
            !directives.required,
    {
        FieldDirectives { required: false }
    }
}

/// Whether `text` reads `word`.
pub fn text_is(text: &String, word: &str) -> (same: bool)
    ensures
        same == (text@ == word@),
{
    *text == word.to_owned()
}

impl SimplePath {
    /// Whether the path is the single identifier `ident`, written without `::`.
    pub fn is_ident(&self, ident: &str) -> (yes: bool)
        ensures
            yes == self@.is_ident(ident@),
    {
        !self.leading_colon && self.segments.len() == 1 && text_is(&self.segments[0], ident)
    }

    /// Whether the path has at least one segment and no segment is empty.
    pub fn is_well_formed(&self) -> (yes: bool)
        ensures
            yes == self@.well_formed(),
    {
        if self.segments.len() == 0 {
            return false;
        }
        let mut i: usize = 0;
        while i < self.segments.len()
            invariant
                i <= self.segments@.len(),
                forall|k: int| 0 <= k < i ==> (#[trigger] self@.segments[k]).len() > 0,
            decreases self.segments@.len() - i,
        {
            if self.segments[i].as_str().is_empty() {
                assert(self@.segments[i as int].len() == 0);
                return false;
            }
            i += 1;
        }
        true
    }
}

impl TypeRef {
    /// Whether the type is the single identifier `name`, without `::` and without
    /// arguments.
    pub fn is_ident(&self, name: &str) -> (yes: bool)
        ensures
            yes == self@.is_ident(name@),
    {
        match self {
            TypeRef::Path { leading_colon, segments, args } => {
                proof {
                    lemma_type_views(args@);
                }
                !*leading_colon && segments.len() == 1 && args.len() == 0 && text_is(
                    &segments[0],
                    name,
                )
            },
            _ => false,
        }
    }

    /// The type that is the bare identifier `name`.
    pub fn ident(name: String) -> (ty: TypeRef)
        ensures
            ty@ == TypeRefView::ident(name@),
    {
        let ty = TypeRef::Path { leading_colon: false, segments: vec![name], args: Vec::new() };
        proof {
            lemma_type_views(ty->args@);
        }
        assert(ty@->Path_segments =~= seq![name@]);
        assert(ty@->Path_args =~= Seq::empty());
        ty
    }
}

} // verus!
