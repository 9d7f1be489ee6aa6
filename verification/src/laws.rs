//! What holds of every schema that the engine generates.

use crate::derive::{
    first_index, generated_schema, lemma_first_index, lemma_first_index_is, patched_where_clause,
    require_optionable,
};
use crate::generated::{
    GeneratedDataView, GeneratedFieldsView, GeneratedTypeView, LinkageView,
};
use crate::schema::{
    BoundView, DataView, FieldView, FieldsView, GenericParamView, TypeDirectivesView, TypeRefView,
    TypeSchemaView, WherePredicateView,
};
use vstd::prelude::*;

verus! {

impl GeneratedTypeView {
    /// The type that the generated field has once the partial counterparts are
    /// resolved by the mapping protocol.
    pub open spec fn resolved(self) -> TypeRefView {
        match self {
            GeneratedTypeView::Kept(ty) => ty,
            GeneratedTypeView::Partial(ty) => ty.partial(),
            GeneratedTypeView::NullablePartial(ty) => TypeRefView::nullable(ty.partial()),
        }
    }
}

/// Required field exemption: a required field keeps its declared type, whatever
/// that type is, and with it its visibility and name.
pub proof fn lemma_required_field_is_kept(field: FieldView, skip_when_absent: bool)
    requires
        field.directives.required,
    ensures
        field.generated(skip_when_absent).ty == GeneratedTypeView::Kept(field.ty),
        field.generated(skip_when_absent).ty.resolved() == field.ty,
        field.generated(skip_when_absent).vis == field.vis,
        field.generated(skip_when_absent).name == field.name,
{
}

/// A field that is not required is nullable exactly once in the generated type: a
/// field declared as the nullable wrapper around `inner` resolves to the partial
/// counterpart of `inner`, with no second nullable layer.
pub proof fn lemma_nullable_field_is_not_wrapped_twice(inner: TypeRefView)
    ensures
        TypeRefView::nullable(inner).wrapped(false) == GeneratedTypeView::Partial(
            TypeRefView::nullable(inner),
        ),
        TypeRefView::nullable(inner).wrapped(false).resolved() == inner.partial(),
{
    crate::mapping::lemma_nullable_collapses(inner);
}

/// A field that is not required and not declared nullable becomes the nullable
/// wrapper around the partial counterpart of its type.
pub proof fn lemma_other_field_is_wrapped(ty: TypeRefView)
    requires
        !ty.is_nullable(),
    ensures
        ty.wrapped(false).resolved() == TypeRefView::nullable(ty.partial()),
{
}

/// The partial counterpart that `linkages` give for the type `name`: that of the
/// first linkage whose source it is.
pub open spec fn registered_partial(linkages: Seq<LinkageView>, name: Seq<char>) -> Option<
    Seq<char>,
> {
    let at = first_index(linkages, |l: LinkageView| l.source == name, 0);
    if at < linkages.len() {
        Some(linkages[at].partial)
    } else {
        None
    }
}

/// Generated-type idempotence: by the linkages of a generated schema, the generated
/// type is the partial counterpart of the declared type and its own, so that taking the
/// partial counterpart twice gives what taking it once gives.
pub proof fn lemma_generated_is_its_own_partial(
    schema: TypeSchemaView,
    directives: TypeDirectivesView,
)
    ensures
        ({
            let generated = generated_schema(schema, directives);
            &&& generated.name == schema.name + directives.suffix
            &&& registered_partial(generated.linkages, schema.name) == Some(generated.name)
            &&& registered_partial(generated.linkages, generated.name) == Some(generated.name)
        }),
{
    let generated = generated_schema(schema, directives);
    let links = generated.linkages;
    let of_declared = |l: LinkageView| l.source == schema.name;
    let of_generated = |l: LinkageView| l.source == generated.name;
    assert(links[0].source == schema.name);
    assert(links[1].source == generated.name);
    lemma_first_index_is(links, of_declared, 0, 0);
    if schema.name == generated.name {
        lemma_first_index_is(links, of_generated, 0, 0);
    } else {
        lemma_first_index_is(links, of_generated, 0, 1);
    }
}

/// The generated type has the shape of the declared type: a struct stays a struct with
/// as many fields, named or positional as before; an enum stays an enum with the
/// same variants in the same order, and a variant without fields stays without.
pub proof fn lemma_shape_is_kept(schema: TypeSchemaView, directives: TypeDirectivesView)
    ensures
        match (schema.data, generated_schema(schema, directives).data) {
            (DataView::Struct(fields), GeneratedDataView::Struct(generated)) => same_shape(
                fields,
                generated,
            ),
            (DataView::Enum(variants), GeneratedDataView::Enum(generated)) => {
                &&& generated.len() == variants.len()
                &&& forall|i: int|
                    0 <= i < variants.len() ==> (#[trigger] generated[i]).name == variants[i].name
                        && same_shape(variants[i].fields, generated[i].fields)
            },
            (DataView::Union, _) => true,
            _ => false,
        },
{
}

/// `generated` has as many fields as `fields`, named or positional as they are,
/// each with the visibility and name of the field in its place.
pub open spec fn same_shape(fields: FieldsView, generated: GeneratedFieldsView) -> bool {
    match (fields, generated) {
        (FieldsView::Named(f), GeneratedFieldsView::Named(g)) => same_fields(f, g),
        (FieldsView::Unnamed(f), GeneratedFieldsView::Unnamed(g)) => same_fields(f, g),
        (FieldsView::Unit, GeneratedFieldsView::Unit) => true,
        _ => false,
    }
}

/// `generated` holds, place by place, a field with the visibility and name of the
/// field of `fields`, and with its type wrapped by the field-wrapping rule.
pub open spec fn same_fields(
    fields: Seq<FieldView>,
    generated: Seq<crate::generated::GeneratedFieldView>,
) -> bool {
    &&& generated.len() == fields.len()
    &&& forall|i: int|
        0 <= i < fields.len() ==> {
            &&& (#[trigger] generated[i]).vis == fields[i].vis
            &&& generated[i].name == fields[i].name
            &&& generated[i].ty == fields[i].ty.wrapped(fields[i].directives.required)
        }
}

/// `after` is the entry `before` with nothing but demands for a partial
/// counterpart added behind its bounds.
pub open spec fn extends(before: WherePredicateView, after: WherePredicateView) -> bool {
    match before {
        WherePredicateView::Lifetime { .. } => after == before,
        WherePredicateView::Type { bounded, bounds } => {
            &&& after matches WherePredicateView::Type { bounded: kept, bounds: longer }
            &&& kept == bounded
            &&& bounds.len() <= longer.len()
            &&& forall|k: int| 0 <= k < bounds.len() ==> #[trigger] longer[k] == bounds[k]
            &&& forall|k: int|
                bounds.len() <= k < longer.len() ==> #[trigger] longer[k] == BoundView::Optionable
        },
    }
}

/// `entry` asks of the type parameter `name` a partial counterpart, as the last
/// of its bounds.
pub open spec fn demands_partial(entry: WherePredicateView, name: Seq<char>) -> bool {
    &&& entry.constrains(name)
    &&& entry->Type_bounds.len() > 0
    &&& entry->Type_bounds.last() == BoundView::Optionable
}

/// Adding the demand for one parameter keeps every entry in its place, adds to an
/// entry nothing but that demand, behind its bounds, and leaves an entry that
/// makes the demand of the parameter.
pub proof fn lemma_require_optionable(clause: Seq<WherePredicateView>, name: Seq<char>)
    ensures
        ({
            let patched = require_optionable(clause, name);
            &&& clause.len() <= patched.len() <= clause.len() + 1
            &&& forall|j: int| 0 <= j < clause.len() ==> extends(clause[j], #[trigger] patched[j])
            &&& exists|j: int| 0 <= j < patched.len() && demands_partial(#[trigger] patched[j], name)
        }),
{
    let constrains = |p: WherePredicateView| p.constrains(name);
    let at = first_index(clause, constrains, 0);
    lemma_first_index(clause, constrains, 0);
    let patched = require_optionable(clause, name);
    if at < clause.len() {
        assert(demands_partial(patched[at], name));
    } else {
        assert(demands_partial(patched[clause.len() as int], name));
    }
}

/// Generic bound propagation keeps what was there: every entry of the `where`
/// clause stays in its place with its bounds in their order, and what is added to
/// it comes behind them.
pub proof fn lemma_patched_keeps_entries(
    clause: Seq<WherePredicateView>,
    params: Seq<GenericParamView>,
)
    ensures
        clause.len() <= patched_where_clause(clause, params).len(),
        forall|j: int|
            0 <= j < clause.len() ==> extends(
                clause[j],
                #[trigger] patched_where_clause(clause, params)[j],
            ),
    decreases params.len(),
{
    if params.len() > 0 {
        let before = patched_where_clause(clause, params.drop_last());
        lemma_patched_keeps_entries(clause, params.drop_last());
        match params.last() {
            GenericParamView::Type { name, .. } => {
                lemma_require_optionable(before, name);
                let patched = require_optionable(before, name);
                assert forall|j: int| 0 <= j < clause.len() implies extends(
                    clause[j],
                    #[trigger] patched[j],
                ) by {
                    assert(extends(clause[j], before[j]));
                    assert(extends(before[j], patched[j]));
                }
            },
            _ => {},
        }
    }
}

/// Generic bound propagation reaches every type parameter: for each of them the
/// patched `where` clause holds an entry that asks of it a partial counterpart, as
/// the last of that entry's bounds.
pub proof fn lemma_every_type_parameter_is_bound(
    clause: Seq<WherePredicateView>,
    params: Seq<GenericParamView>,
    i: int,
)
    requires
        0 <= i < params.len(),
        params[i] is Type,
    ensures
        exists|j: int|
            0 <= j < patched_where_clause(clause, params).len() && demands_partial(
                #[trigger] patched_where_clause(clause, params)[j],
                params[i]->Type_name,
            ),
    decreases params.len(),
{
    let before = patched_where_clause(clause, params.drop_last());
    let patched = patched_where_clause(clause, params);
    let name = params[i]->Type_name;
    match params.last() {
        GenericParamView::Type { name: last, .. } => {
            lemma_require_optionable(before, last);
            if i < params.len() - 1 {
                lemma_every_type_parameter_is_bound(clause, params.drop_last(), i);
                let j = choose|j: int|
                    0 <= j < before.len() && demands_partial(#[trigger] before[j], name);
                assert(extends(before[j], patched[j]));
                assert(demands_partial(patched[j], name));
            }
        },
        _ => {
            lemma_every_type_parameter_is_bound(clause, params.drop_last(), i);
        },
    }
}

} // verus!
