//! The transformation engine: from the schema of a type and its directives to the
//! schema of its partial counterpart.
//!
//! The rules are written once, as spec functions over the views of the schema; the
//! executable functions are proved to compute them.

use crate::generated::{
    GeneratedData, GeneratedDataView, GeneratedField, GeneratedFieldView, GeneratedFields,
    GeneratedFieldsView, GeneratedSchema, GeneratedSchemaView, GeneratedType, GeneratedTypeView,
    GeneratedVariant, GeneratedVariantView, Linkage, LinkageView, SchemaError,
};
use crate::schema::{
    text_is, views, Attribute, Bound, BoundView, Data, DataView, Field, FieldView, Fields,
    FieldsView, GenericParam, GenericParamView, Generics, SimplePath, SimplePathView,
    TypeDirectives, TypeDirectivesView, TypeRef, TypeRefView, TypeSchema, TypeSchemaView,
    Variant, VariantView, WherePredicate, WherePredicateView,
};
use vstd::prelude::*;
use vstd::string::StringExecFns;

verus! {

/// The index of the first item of `items` at or after `from` of which `holds` is
/// true; the length of `items` where there is none.
pub open spec fn first_index<A>(items: Seq<A>, holds: spec_fn(A) -> bool, from: int) -> int
    decreases items.len() - from,
{
    if from < 0 || from >= items.len() {
        items.len() as int
    } else if holds(items[from]) {
        from
    } else {
        first_index(items, holds, from + 1)
    }
}

/// `first_index` names the first item of which `holds` is true: none before it is,
/// and it is one unless it is the length.
pub proof fn lemma_first_index<A>(items: Seq<A>, holds: spec_fn(A) -> bool, from: int)
    requires
        0 <= from <= items.len(),
    ensures
        from <= first_index(items, holds, from) <= items.len(),
        first_index(items, holds, from) < items.len() ==> holds(
            items[first_index(items, holds, from)],
        ),
        forall|k: int| from <= k < first_index(items, holds, from) ==> !holds(#[trigger] items[k]),
    decreases items.len() - from,
{
    if from < items.len() && !holds(items[from]) {
        lemma_first_index(items, holds, from + 1);
    }
}

/// Where no item from `from` up to `found` satisfies `holds`, and `found` is the
/// length or an item that does, `found` is the first index.
pub proof fn lemma_first_index_is<A>(
    items: Seq<A>,
    holds: spec_fn(A) -> bool,
    from: int,
    found: int,
)
    requires
        0 <= from <= found <= items.len(),
        forall|k: int| from <= k < found ==> !holds(#[trigger] items[k]),
        found < items.len() ==> holds(items[found]),
    ensures
        first_index(items, holds, from) == found,
    decreases found - from,
{
    if from < found {
        lemma_first_index_is(items, holds, from + 1, found);
    }
}

impl TypeRefView {
    /// Whether the type is written as the nullable wrapper: `Option`,
    /// `option::Option` or `std::option::Option`, whatever its arguments.
    pub open spec fn is_nullable(self) -> bool {
        self matches TypeRefView::Path { segments, .. } && ({
            ||| segments.len() == 1 && segments[0] == "Option"@
            ||| segments.len() == 2 && segments[0] == "option"@ && segments[1] == "Option"@
            ||| segments.len() == 3 && segments[0] == "std"@ && segments[1] == "option"@
                && segments[2] == "Option"@
        })
    }

    /// The field-wrapping rule: how a field of this declared type is written in the
    /// generated type. A required field keeps its type. A type that is nullable as
    /// written becomes its partial counterpart, with no second nullable layer. Any
    /// other type becomes its partial counterpart inside a nullable wrapper.
    pub open spec fn wrapped(self, required: bool) -> GeneratedTypeView {
        if required {
            GeneratedTypeView::Kept(self)
        } else if self.is_nullable() {
            GeneratedTypeView::Partial(self)
        } else {
            GeneratedTypeView::NullablePartial(self)
        }
    }
}

impl SimplePathView {
    /// Whether the path names the serialization capability: `Serialize` or
    /// `serde::Serialize`.
    pub open spec fn is_serialize(self) -> bool {
        self.is_ident("Serialize"@) || (self.segments.len() == 2 && self.segments[0] == "serde"@
            && self.segments[1] == "Serialize"@)
    }

    /// Whether the path is that of this library's helper attribute: `optionable`.
    pub open spec fn is_helper(self) -> bool {
        self.is_ident("optionable"@)
    }
}

/// Whether one of `attrs` is this library's helper attribute.
pub open spec fn has_helper_attribute(attrs: Seq<SimplePathView>) -> bool {
    exists|i: int| 0 <= i < attrs.len() && (#[trigger] attrs[i]).is_helper()
}

/// Whether one of the capabilities is the serialization capability.
pub open spec fn forwards_serialize(capabilities: Seq<SimplePathView>) -> bool {
    exists|i: int| 0 <= i < capabilities.len() && (#[trigger] capabilities[i]).is_serialize()
}

impl WherePredicateView {
    /// Whether the entry constrains the type parameter `name`: it bounds the type
    /// that is the bare identifier `name`.
    pub open spec fn constrains(self, name: Seq<char>) -> bool {
        self matches WherePredicateView::Type { bounded, .. } && bounded.is_ident(name)
    }

    /// The entry with `bound` appended to its bounds.
    pub open spec fn with_bound(self, bound: BoundView) -> WherePredicateView {
        match self {
            WherePredicateView::Type { bounded, bounds } => WherePredicateView::Type {
                bounded,
                bounds: bounds.push(bound),
            },
            WherePredicateView::Lifetime { .. } => self,
        }
    }

    /// The entry that asks of the type parameter `name` a partial counterpart and
    /// nothing else.
    pub open spec fn optionable(name: Seq<char>) -> WherePredicateView {
        WherePredicateView::Type {
            bounded: TypeRefView::ident(name),
            bounds: seq![BoundView::Optionable],
        }
    }
}

/// The `where` clause `clause` with the demand added that the type parameter `name`
/// has a partial counterpart: appended to the first entry that constrains `name`,
/// or, where there is none, as a new entry at the end.
pub open spec fn require_optionable(
    clause: Seq<WherePredicateView>,
    name: Seq<char>,
) -> Seq<WherePredicateView> {
    let at = first_index(clause, |p: WherePredicateView| p.constrains(name), 0);
    if at < clause.len() {
        clause.update(at, clause[at].with_bound(BoundView::Optionable))
    } else {
        clause.push(WherePredicateView::optionable(name))
    }
}

/// Generic bound propagation: the `where` clause `clause` after the demand for a
/// partial counterpart was added for each type parameter among `params`, in their
/// order. Lifetime and const parameters add nothing.
pub open spec fn patched_where_clause(
    clause: Seq<WherePredicateView>,
    params: Seq<GenericParamView>,
) -> Seq<WherePredicateView>
    decreases params.len(),
{
    if params.len() == 0 {
        clause
    } else {
        let before = patched_where_clause(clause, params.drop_last());
        match params.last() {
            GenericParamView::Type { name, .. } => require_optionable(before, name),
            _ => before,
        }
    }
}

impl FieldView {
    /// The generated counterpart of the field: same visibility and name, the type
    /// wrapped by the field-wrapping rule.
    pub open spec fn generated(self, skip_when_absent: bool) -> GeneratedFieldView {
        GeneratedFieldView {
            vis: self.vis,
            name: self.name,
            ty: self.ty.wrapped(self.directives.required),
            skip_when_absent,
        }
    }
}

impl FieldsView {
    /// The generated counterpart of the fields: the same shape, each field
    /// generated in its place. No fields stay no fields.
    pub open spec fn generated(self, skip_when_absent: bool) -> GeneratedFieldsView {
        match self {
            FieldsView::Named(fields) => GeneratedFieldsView::Named(
                fields.map_values(|f: FieldView| f.generated(skip_when_absent)),
            ),
            FieldsView::Unnamed(fields) => GeneratedFieldsView::Unnamed(
                fields.map_values(|f: FieldView| f.generated(skip_when_absent)),
            ),
            FieldsView::Unit => GeneratedFieldsView::Unit,
        }
    }
}

impl VariantView {
    /// The generated counterpart of the variant: same name, its fields generated.
    pub open spec fn generated(self, skip_when_absent: bool) -> GeneratedVariantView {
        GeneratedVariantView { name: self.name, fields: self.fields.generated(skip_when_absent) }
    }
}

/// The error that stops the transformation of `schema` under `directives`, if any.
/// A malformed capability is reported before anything else, by the index of the
/// first one. Then a union is unsupported, and an enum is refused for the first
/// variant that carries a helper attribute.
pub open spec fn rejection(schema: TypeSchemaView, directives: TypeDirectivesView) -> Option<
    SchemaError,
> {
    let malformed = first_index(directives.derive, |p: SimplePathView| !p.well_formed(), 0);
    if malformed < directives.derive.len() {
        Some(SchemaError::InvalidDirective { capability: malformed as usize })
    } else {
        match schema.data {
            DataView::Struct(_) => None,
            DataView::Enum(variants) => {
                let marked = first_index(
                    variants,
                    |v: VariantView| has_helper_attribute(v.attrs),
                    0,
                );
                if marked < variants.len() {
                    Some(SchemaError::DirectiveNotSupportedHere { variant: marked as usize })
                } else {
                    None
                }
            },
            DataView::Union => Some(SchemaError::UnsupportedShape),
        }
    }
}

/// The schema generated for `schema` under `directives`, where nothing stops the
/// transformation.
pub open spec fn generated_schema(
    schema: TypeSchemaView,
    directives: TypeDirectivesView,
) -> GeneratedSchemaView {
    let name = schema.name + directives.suffix;
    let skip = forwards_serialize(directives.derive);
    GeneratedSchemaView {
        name,
        vis: schema.vis,
        derives: directives.derive,
        generics: crate::schema::GenericsView {
            params: schema.generics.params,
            where_clause: patched_where_clause(
                schema.generics.where_clause,
                schema.generics.params,
            ),
        },
        data: match schema.data {
            DataView::Struct(fields) => GeneratedDataView::Struct(fields.generated(skip)),
            DataView::Enum(variants) => GeneratedDataView::Enum(
                variants.map_values(|v: VariantView| v.generated(skip)),
            ),
            DataView::Union => GeneratedDataView::Struct(GeneratedFieldsView::Unit),
        },
        linkages: seq![
            LinkageView { source: schema.name, partial: name },
            LinkageView { source: name, partial: name },
        ],
    }
}

/// The suffix of the generated type's name where the directives give none.
pub fn default_suffix() -> (suffix: String)
    ensures
        suffix@ == "Opt"@,
{
    String::from_str("Opt")
}

/// Whether the type is written as the nullable wrapper: `Option`, `option::Option`
/// or `std::option::Option`.
pub fn is_option(ty: &TypeRef) -> (yes: bool)
    ensures
        yes == ty@.is_nullable(),
{
    match ty {
        TypeRef::Path { leading_colon: _, segments, args: _ } => {
            let n = segments.len();
            (n == 1 && text_is(&segments[0], "Option")) || (n == 2 && text_is(
                &segments[0],
                "option",
            ) && text_is(&segments[1], "Option")) || (n == 3 && text_is(&segments[0], "std")
                && text_is(&segments[1], "option") && text_is(&segments[2], "Option"))
        },
        _ => false,
    }
}

/// Whether the path names the serialization capability: `Serialize` or
/// `serde::Serialize`.
pub fn is_serialize(path: &SimplePath) -> (yes: bool)
    ensures
        yes == path@.is_serialize(),
{
    path.is_ident("Serialize") || (path.segments.len() == 2 && text_is(
        &path.segments[0],
        "serde",
    ) && text_is(&path.segments[1], "Serialize"))
}

/// Goes through the attributes and reports `error` if one of them is this
/// library's helper attribute.
pub fn error_on_helper_attributes(attrs: &Vec<Attribute>, error: SchemaError) -> (res: Result<
    (),
    SchemaError,
>)
    ensures
        res == if has_helper_attribute(views(attrs@)) {
            Err::<(), SchemaError>(error)
        } else {
            Ok::<(), SchemaError>(())
        },
{
    let mut i: usize = 0;
    while i < attrs.len()
        invariant
            i <= attrs@.len(),
            forall|k: int| 0 <= k < i ==> !(#[trigger] views(attrs@)[k]).is_helper(),
        decreases attrs@.len() - i,
    {
        if attrs[i].path.is_ident("optionable") {
            assert(views(attrs@)[i as int].is_helper());
            return Err(error);
        }
        i += 1;
    }
    Ok(())
}

/// Adds to `clause` the demand that the type parameter `name` has a partial
/// counterpart: on the first entry that constrains `name`, after its other bounds,
/// or in a new entry at the end.
fn add_optionable_bound(clause: &mut Vec<WherePredicate>, name: &String)
    ensures
        views(final(clause)@) == require_optionable(views(old(clause)@), name@),
{
    let ghost before = views(clause@);
    let ghost constrains = |p: WherePredicateView| p.constrains(name@);
    let mut at: usize = 0;
    while at < clause.len()
        invariant
            at <= clause@.len(),
            before == views(old(clause)@),
            views(clause@) == before,
            constrains == |p: WherePredicateView| p.constrains(name@),
            forall|k: int| 0 <= k < at ==> !constrains(#[trigger] before[k]),
        decreases clause@.len() - at,
    {
        let found = match &clause[at] {
            WherePredicate::Type { bounded, bounds: _ } => bounded.is_ident(name.as_str()),
            WherePredicate::Lifetime { .. } => false,
        };
        let ghost entry = clause@[at as int];
        assert(before[at as int] == entry@);
        assert(found == entry@.constrains(name@));
        assert(found == constrains(before[at as int]));
        if found {
            proof {
                lemma_first_index_is(before, constrains, 0, at as int);
            }
            match &mut clause[at] {
                WherePredicate::Type { bounded: _, bounds } => {
                    bounds.push(Bound::Optionable);
                },
                WherePredicate::Lifetime { .. } => {},
            }
            proof {
                let patched = clause@[at as int];
                assert(views(patched->Type_bounds@) =~= views(entry->Type_bounds@).push(
                    BoundView::Optionable,
                ));
                assert(patched@ == entry@.with_bound(BoundView::Optionable));
                assert(views(clause@) =~= before.update(
                    at as int,
                    before[at as int].with_bound(BoundView::Optionable),
                ));
            }
            return ;
        }
        at += 1;
    }
    proof {
        lemma_first_index_is(before, constrains, 0, at as int);
    }
    let bounded = TypeRef::ident(name.clone());
    let bounds = vec![Bound::Optionable];
    assert(views(bounds@) =~= seq![BoundView::Optionable]);
    clause.push(WherePredicate::Type { bounded, bounds });
    assert(views(clause@) =~= before.push(WherePredicateView::optionable(name@)));
}

/// Adjusts the `where` clause to ask of every type parameter a partial counterpart.
/// The parameters stay as they are; each pre-existing entry keeps its place and the
/// order of its bounds, and the new bound comes last.
pub fn patch_where_clause_bounds(generics: &mut Generics)
    ensures
        final(generics).params == old(generics).params,
        final(generics)@.where_clause == patched_where_clause(
            old(generics)@.where_clause,
            old(generics)@.params,
        ),
{
    let ghost clause = generics@.where_clause;
    let ghost params = generics@.params;
    let mut i: usize = 0;
    while i < generics.params.len()
        invariant
            i <= generics.params@.len(),
            generics.params == old(generics).params,
            params == views(generics.params@),
            generics@.where_clause == patched_where_clause(clause, params.take(i as int)),
        decreases generics.params@.len() - i,
    {
        assert(params.take(i + 1).drop_last() =~= params.take(i as int));
        match &generics.params[i] {
            GenericParam::Type { name, bounds: _ } => {
                let name = name.clone();
                add_optionable_bound(&mut generics.where_clause, &name);
            },
            _ => {},
        }
        i += 1;
    }
    assert(params.take(i as int) =~= params);
}

/// The field-wrapping rule on one declared type.
fn wrap_type(ty: TypeRef, required: bool) -> (wrapped: GeneratedType)
    ensures
        wrapped@ == ty@.wrapped(required),
{
    if required {
        GeneratedType::Kept(ty)
    } else if is_option(&ty) {
        GeneratedType::Partial(ty)
    } else {
        GeneratedType::NullablePartial(ty)
    }
}

/// The generated counterpart of each field of `fields`, in their order.
fn optioned_field_list(fields: Vec<Field>, skip_when_absent: bool) -> (generated: Vec<
    GeneratedField,
>)
    ensures
        views(generated@) == views(fields@).map_values(
            |f: FieldView| f.generated(skip_when_absent),
        ),
{
    let ghost declared = fields@;
    let mut generated: Vec<GeneratedField> = Vec::new();
    for field in it: fields
        invariant
            it.seq() == declared,
            generated@.len() == it.index(),
            forall|k: int|
                0 <= k < generated@.len() ==> (#[trigger] generated@[k])@ == declared[k]@.generated(
                    skip_when_absent,
                ),
    {
        let Field { vis, name, ty, directives } = field;
        let ty = wrap_type(ty, directives.required);
        generated.push(GeneratedField { vis, name, ty, skip_when_absent });
    }
    assert(views(generated@) =~= views(declared).map_values(
        |f: FieldView| f.generated(skip_when_absent),
    ));
    generated
}

/// The fields of the generated struct or variant: the same shape as `fields`, each
/// field with its visibility and name, its type wrapped by the field-wrapping rule.
/// Every field is marked with `skip_when_absent`.
pub fn optioned_fields(fields: Fields, skip_when_absent: bool) -> (generated: GeneratedFields)
    ensures
        generated@ == fields@.generated(skip_when_absent),
{
    match fields {
        Fields::Named(fields) => GeneratedFields::Named(
            optioned_field_list(fields, skip_when_absent),
        ),
        Fields::Unnamed(fields) => GeneratedFields::Unnamed(
            optioned_field_list(fields, skip_when_absent),
        ),
        Fields::Unit => GeneratedFields::Unit,
    }
}

/// The index of the first capability that is malformed; their number where all are
/// well formed.
fn first_malformed(capabilities: &Vec<SimplePath>) -> (at: usize)
    ensures
        at == first_index(views(capabilities@), |p: SimplePathView| !p.well_formed(), 0),
{
    let ghost malformed = |p: SimplePathView| !p.well_formed();
    let mut at: usize = 0;
    while at < capabilities.len()
        invariant
            at <= capabilities@.len(),
            malformed == |p: SimplePathView| !p.well_formed(),
            forall|k: int| 0 <= k < at ==> !malformed(#[trigger] views(capabilities@)[k]),
        decreases capabilities@.len() - at,
    {
        if !capabilities[at].is_well_formed() {
            proof {
                lemma_first_index_is(views(capabilities@), malformed, 0, at as int);
            }
            return at;
        }
        at += 1;
    }
    proof {
        lemma_first_index_is(views(capabilities@), malformed, 0, at as int);
    }
    at
}

/// Whether one of the capabilities is the serialization capability.
fn any_serialize(capabilities: &Vec<SimplePath>) -> (yes: bool)
    ensures
        yes == forwards_serialize(views(capabilities@)),
{
    let mut i: usize = 0;
    while i < capabilities.len()
        invariant
            i <= capabilities@.len(),
            forall|k: int| 0 <= k < i ==> !(#[trigger] views(capabilities@)[k]).is_serialize(),
        decreases capabilities@.len() - i,
    {
        if is_serialize(&capabilities[i]) {
            assert(views(capabilities@)[i as int].is_serialize());
            return true;
        }
        i += 1;
    }
    false
}

/// The generated counterpart of each variant, in their order; the error for the
/// first variant that carries a helper attribute.
fn optioned_variants(variants: Vec<Variant>, skip_when_absent: bool) -> (res: Result<
    Vec<GeneratedVariant>,
    SchemaError,
>)
    ensures
        ({
            let marked = first_index(
                views(variants@),
                |v: VariantView| has_helper_attribute(v.attrs),
                0,
            );
            match res {
                Ok(generated) => marked == variants@.len() && views(generated@) == views(
                    variants@,
                ).map_values(|v: VariantView| v.generated(skip_when_absent)),
                Err(e) => marked < variants@.len() && e == (SchemaError::DirectiveNotSupportedHere {
                    variant: marked as usize,
                }),
            }
        }),
{
    let ghost declared = variants@;
    let ghost marked = |v: VariantView| has_helper_attribute(v.attrs);
    let count = variants.len();
    let mut generated: Vec<GeneratedVariant> = Vec::new();
    let mut at: usize = 0;
    for variant in it: variants
        invariant
            it.seq() == declared,
            declared.len() == count,
            at == it.index(),
            marked == |v: VariantView| has_helper_attribute(v.attrs),
            generated@.len() == it.index(),
            forall|k: int| 0 <= k < at ==> !marked(#[trigger] views(declared)[k]),
            forall|k: int|
                0 <= k < generated@.len() ==> (#[trigger] generated@[k])@ == declared[k]@.generated(
                    skip_when_absent,
                ),
    {
        let Variant { name, attrs, fields } = variant;
        match error_on_helper_attributes(
            &attrs,
            SchemaError::DirectiveNotSupportedHere { variant: at },
        ) {
            Ok(()) => {},
            Err(e) => {
                proof {
                    assert(marked(views(declared)[at as int]));
                    lemma_first_index_is(views(declared), marked, 0, at as int);
                }
                return Err(e);
            },
        }
        let fields = optioned_fields(fields, skip_when_absent);
        generated.push(GeneratedVariant { name, fields });
        at += 1;
    }
    proof {
        lemma_first_index_is(views(declared), marked, 0, at as int);
        assert(views(generated@) =~= views(declared).map_values(
            |v: VariantView| v.generated(skip_when_absent),
        ));
    }
    Ok(generated)
}

/// Derives the schema of the partial counterpart of `schema`.
///
/// The generated type is named by the declared name followed by the suffix, has the
/// declared visibility and generic parameters, and carries the capabilities of
/// the directives as they are. Its `where` clause asks of every type parameter a
/// partial counterpart. Its fields, or those of each of its variants, follow the
/// field-wrapping rule; where the serialization capability is among the
/// capabilities, every field is marked to be skipped while absent. Two linkages
/// come with it: the generated type is the partial counterpart of the declared type,
/// and its own.
///
/// Nothing is generated where `rejection` names an error: that error is returned.
pub fn derive_optionable(schema: TypeSchema, directives: TypeDirectives) -> (res: Result<
    GeneratedSchema,
    SchemaError,
>)
    ensures
        match res {
            Ok(generated) => rejection(schema@, directives@) is None && generated@
                == generated_schema(schema@, directives@),
            Err(e) => rejection(schema@, directives@) == Some(e),
        },
{
    let TypeSchema { name, vis, generics, data } = schema;
    let TypeDirectives { derive, suffix } = directives;
    let malformed = first_malformed(&derive);
    if malformed < derive.len() {
        return Err(SchemaError::InvalidDirective { capability: malformed });
    }
    let skip_when_absent = any_serialize(&derive);
    let generated_name = name.clone().concat(suffix.as_str());
    let mut generics = generics;
    patch_where_clause_bounds(&mut generics);
    let data = match data {
        Data::Struct(fields) => GeneratedData::Struct(optioned_fields(fields, skip_when_absent)),
        Data::Enum(variants) => match optioned_variants(variants, skip_when_absent) {
            Ok(variants) => GeneratedData::Enum(variants),
            Err(e) => {
                return Err(e);
            },
        },
        Data::Union => {
            return Err(SchemaError::UnsupportedShape);
        },
    };
    let linkages = vec![
        Linkage { source: name, partial: generated_name.clone() },
        Linkage { source: generated_name.clone(), partial: generated_name.clone() },
    ];
    let generated = GeneratedSchema {
        name: generated_name,
        vis,
        derives: derive,
        generics,
        data,
        linkages,
    };
    proof {
        assert(generated@.linkages =~= generated_schema(schema@, directives@).linkages);
    }
    Ok(generated)
}

} // verus!
