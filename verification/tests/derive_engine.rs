use optionable::derive::{
    default_suffix, derive_optionable, error_on_helper_attributes, is_option, is_serialize,
    optioned_fields, patch_where_clause_bounds,
};
use optionable::generated::{
    GeneratedData, GeneratedField, GeneratedFields, GeneratedSchema, GeneratedType, Linkage,
    SchemaError,
};
use optionable::schema::{
    Attribute, Bound, Data, Field, FieldDirectives, Fields, GenericParam, Generics, SimplePath,
    TypeDirectives, TypeRef, TypeSchema, Variant, Visibility, WherePredicate,
};
use optionable::Optionable;
use serde::ser::SerializeStruct;
use std::str::FromStr;

fn ty(name: &str) -> TypeRef {
    TypeRef::Path { leading_colon: false, segments: vec![name.to_owned()], args: vec![] }
}

fn generic(name: &str, args: Vec<TypeRef>) -> TypeRef {
    TypeRef::Path { leading_colon: false, segments: vec![name.to_owned()], args }
}

fn field(vis: Visibility, name: Option<&str>, ty: TypeRef, required: bool) -> Field {
    Field { vis, name: name.map(str::to_owned), ty, directives: FieldDirectives { required } }
}

fn named(name: &str, ty: TypeRef) -> Field {
    field(Visibility::Inherited, Some(name), ty, false)
}

fn positional(ty: TypeRef) -> Field {
    field(Visibility::Inherited, None, ty, false)
}

fn no_generics() -> Generics {
    Generics { params: vec![], where_clause: vec![] }
}

fn path(segments: &[&str]) -> SimplePath {
    SimplePath { leading_colon: false, segments: segments.iter().map(|s| (*s).to_owned()).collect() }
}

fn plain() -> TypeDirectives {
    TypeDirectives { derive: vec![], suffix: default_suffix() }
}

fn example(data: Data) -> TypeSchema {
    TypeSchema {
        name: "DeriveExample".to_owned(),
        vis: Visibility::Inherited,
        generics: no_generics(),
        data,
    }
}

fn type_text(ty: &TypeRef) -> String {
    match ty {
        TypeRef::Path { leading_colon, segments, args } => {
            let mut out = String::new();
            if *leading_colon {
                out.push_str("::");
            }
            out.push_str(&segments.join("::"));
            if !args.is_empty() {
                let inner: Vec<String> = args.iter().map(type_text).collect();
                out.push_str(&format!("<{}>", inner.join(", ")));
            }
            out
        }
        TypeRef::Reference { lifetime, mutable, target } => format!(
            "&{}{}{}",
            lifetime.as_ref().map(|l| format!("{l} ")).unwrap_or_default(),
            if *mutable { "mut " } else { "" },
            type_text(target)
        ),
        TypeRef::Optioned(inner) => {
            format!("<{} as ::optionable::Optionable>::Optioned", type_text(inner))
        }
        TypeRef::Other(text) => text.clone(),
    }
}

fn generated_type_text(ty: &GeneratedType) -> String {
    match ty {
        GeneratedType::Kept(ty) => type_text(ty),
        GeneratedType::Partial(ty) => {
            format!("<{} as ::optionable::Optionable>::Optioned", type_text(ty))
        }
        GeneratedType::NullablePartial(ty) => {
            format!("Option<<{} as ::optionable::Optionable>::Optioned>", type_text(ty))
        }
    }
}

fn vis_text(vis: &Visibility) -> String {
    match vis {
        Visibility::Inherited => String::new(),
        Visibility::Public => "pub ".to_owned(),
        Visibility::Restricted(scope) => format!("pub({scope}) "),
    }
}

fn field_text(f: &GeneratedField) -> String {
    let skip = if f.skip_when_absent && !matches!(f.ty, GeneratedType::Kept(_)) {
        "#[serde(skip_serializing_if = \"Option::is_none\")] "
    } else {
        ""
    };
    let name = f.name.as_ref().map(|n| format!("{n}: ")).unwrap_or_default();
    format!("{skip}{}{name}{}", vis_text(&f.vis), generated_type_text(&f.ty))
}

fn fields_text(fields: &GeneratedFields) -> String {
    match fields {
        GeneratedFields::Named(fs) => {
            format!("{{ {} }}", fs.iter().map(field_text).collect::<Vec<_>>().join(", "))
        }
        GeneratedFields::Unnamed(fs) => {
            format!("({})", fs.iter().map(field_text).collect::<Vec<_>>().join(", "))
        }
        GeneratedFields::Unit => String::new(),
    }
}

fn bound_text(b: &Bound) -> String {
    match b {
        Bound::Optionable => "::optionable::Optionable".to_owned(),
        Bound::Other(text) => text.clone(),
    }
}

fn generics_text(g: &Generics) -> (String, String, String) {
    let mut decl = Vec::new();
    let mut args = Vec::new();
    for p in &g.params {
        match p {
            GenericParam::Lifetime { name, outlives } => {
                args.push(name.clone());
                if outlives.is_empty() {
                    decl.push(name.clone());
                } else {
                    decl.push(format!("{name}: {}", outlives.join(" + ")));
                }
            }
            GenericParam::Type { name, bounds } => {
                args.push(name.clone());
                if bounds.is_empty() {
                    decl.push(name.clone());
                } else {
                    let bounds: Vec<String> = bounds.iter().map(bound_text).collect();
                    decl.push(format!("{name}: {}", bounds.join(" + ")));
                }
            }
            GenericParam::Const { name, ty } => {
                args.push(name.clone());
                decl.push(format!("const {name}: {}", type_text(ty)));
            }
        }
    }
    let clause: Vec<String> = g
        .where_clause
        .iter()
        .map(|p| match p {
            WherePredicate::Lifetime { lifetime, outlives } => {
                format!("{lifetime}: {}", outlives.join(" + "))
            }
            WherePredicate::Type { bounded, bounds } => {
                let bounds: Vec<String> = bounds.iter().map(bound_text).collect();
                format!("{}: {}", type_text(bounded), bounds.join(" + "))
            }
        })
        .collect();
    let wrap = |v: &Vec<String>| if v.is_empty() { String::new() } else { format!("<{}>", v.join(", ")) };
    let clause =
        if clause.is_empty() { String::new() } else { format!("where {}", clause.join(", ")) };
    (wrap(&decl), wrap(&args), clause)
}

fn schema_text(g: &GeneratedSchema) -> String {
    let (decl, args, clause) = generics_text(&g.generics);
    let derives = if g.derives.is_empty() {
        String::new()
    } else {
        let paths: Vec<String> = g.derives.iter().map(|p| p.segments.join("::")).collect();
        format!("#[derive({})]", paths.join(", "))
    };
    let body = match &g.data {
        GeneratedData::Struct(fields) => {
            let semicolon = if matches!(fields, GeneratedFields::Unnamed(_)) { ";" } else { "" };
            format!(
                "{}struct {} {decl} {clause} {} {semicolon}",
                vis_text(&g.vis),
                g.name,
                fields_text(fields)
            )
        }
        GeneratedData::Enum(variants) => {
            let variants: Vec<String> =
                variants.iter().map(|v| format!("{} {}", v.name, fields_text(&v.fields))).collect();
            format!("{}enum {} {decl} {clause} {{ {} }}", vis_text(&g.vis), g.name, variants.join(", "))
        }
    };
    let links: Vec<String> = g
        .linkages
        .iter()
        .map(|l| {
            format!(
                "#[automatically_derived] impl {decl} ::optionable::Optionable for {} {args} {clause} {{ type Optioned = {} {args}; }}",
                l.source, l.partial
            )
        })
        .collect();
    format!("#[automatically_derived] {derives} {body} {}", links.join(" "))
}

fn tokens(text: &str) -> String {
    proc_macro2::TokenStream::from_str(text).unwrap().to_string()
}

fn nullable(name: &str) -> GeneratedType {
    GeneratedType::NullablePartial(ty(name))
}

#[test]
fn derive_named_struct() {
    let schema = example(Data::Struct(Fields::Named(vec![
        named("name", ty("String")),
        named("surname", ty("String")),
    ])));
    let generated = derive_optionable(schema, plain()).unwrap();
    assert_eq!(generated.name, "DeriveExampleOpt");
    match &generated.data {
        GeneratedData::Struct(GeneratedFields::Named(fields)) => {
            assert_eq!(fields.len(), 2);
            assert_eq!(fields[0].name.as_deref(), Some("name"));
            assert_eq!(fields[0].ty, nullable("String"));
            assert_eq!(fields[1].name.as_deref(), Some("surname"));
            assert_eq!(fields[1].ty, nullable("String"));
        }
        other => panic!("unexpected {other:?}"),
    }

    #[allow(dead_code)]
    struct DeriveExampleOpt {
        name: Option<<String as Optionable>::Optioned>,
        surname: Option<<String as Optionable>::Optioned>,
    }
    let _ = DeriveExampleOpt { name: None, surname: None };
    let _ = DeriveExampleOpt { name: Some("a".to_owned()), surname: Some("b".to_owned()) };
}

#[test]
fn lib_derive_named_struct() {
    let schema = example(Data::Struct(Fields::Named(vec![
        named("name", ty("String")),
        named("surname", ty("String")),
    ])));
    let generated = derive_optionable(schema, plain()).unwrap();
    assert_eq!(
        tokens(&schema_text(&generated)),
        tokens(
            "#[automatically_derived]
             struct DeriveExampleOpt {
                 name: Option<<String as ::optionable::Optionable>::Optioned>,
                 surname: Option<<String as ::optionable::Optionable>::Optioned>
             }
             #[automatically_derived]
             impl ::optionable::Optionable for DeriveExample { type Optioned = DeriveExampleOpt; }
             #[automatically_derived]
             impl ::optionable::Optionable for DeriveExampleOpt { type Optioned = DeriveExampleOpt; }"
        )
    );
}

#[test]
fn derive_named_struct_required() {
    let schema = example(Data::Struct(Fields::Named(vec![
        named("name", ty("String")),
        field(Visibility::Inherited, Some("surname"), ty("String"), true),
    ])));
    let generated = derive_optionable(schema, plain()).unwrap();
    match &generated.data {
        GeneratedData::Struct(GeneratedFields::Named(fields)) => {
            assert_eq!(fields[0].ty, nullable("String"));
            assert_eq!(fields[1].ty, GeneratedType::Kept(ty("String")));
        }
        other => panic!("unexpected {other:?}"),
    }

    #[allow(dead_code)]
    struct DeriveExampleOpt {
        name: Option<<String as Optionable>::Optioned>,
        surname: String,
    }
    let _ = DeriveExampleOpt { name: None, surname: "b".to_owned() };
    let _ = DeriveExampleOpt { name: Some("a".to_owned()), surname: "b".to_owned() };
}

#[test]
fn derive_unnamed_struct() {
    let schema = example(Data::Struct(Fields::Unnamed(vec![
        positional(ty("String")),
        positional(ty("i32")),
    ])));
    let generated = derive_optionable(schema, plain()).unwrap();
    match &generated.data {
        GeneratedData::Struct(GeneratedFields::Unnamed(fields)) => {
            assert_eq!(fields.len(), 2);
            assert_eq!(fields[0].name, None);
            assert_eq!(fields[0].ty, nullable("String"));
            assert_eq!(fields[1].ty, nullable("i32"));
        }
        other => panic!("unexpected {other:?}"),
    }

    #[allow(dead_code)]
    struct DeriveExampleOpt(
        Option<<String as Optionable>::Optioned>,
        Option<<i32 as Optionable>::Optioned>,
    );
    let _ = DeriveExampleOpt(None, None);
    let _ = DeriveExampleOpt(Some("a".to_owned()), Some(42));
}

#[test]
fn lib_derive_unnamed_struct() {
    let schema = example(Data::Struct(Fields::Unnamed(vec![
        positional(ty("String")),
        positional(ty("i32")),
    ])));
    let generated = derive_optionable(schema, plain()).unwrap();
    assert_eq!(
        tokens(&schema_text(&generated)),
        tokens(
            "#[automatically_derived]
             struct DeriveExampleOpt(
                 Option<<String as ::optionable::Optionable>::Optioned>,
                 Option<<i32 as ::optionable::Optionable>::Optioned>
             );
             #[automatically_derived]
             impl ::optionable::Optionable for DeriveExample { type Optioned = DeriveExampleOpt; }
             #[automatically_derived]
             impl ::optionable::Optionable for DeriveExampleOpt { type Optioned = DeriveExampleOpt; }"
        )
    );
}

#[test]
fn derive_unnamed_struct_required() {
    let schema = example(Data::Struct(Fields::Unnamed(vec![
        positional(ty("String")),
        field(Visibility::Inherited, None, ty("i32"), true),
    ])));
    let generated = derive_optionable(schema, plain()).unwrap();
    match &generated.data {
        GeneratedData::Struct(GeneratedFields::Unnamed(fields)) => {
            assert_eq!(fields[0].ty, nullable("String"));
            assert_eq!(fields[1].ty, GeneratedType::Kept(ty("i32")));
        }
        other => panic!("unexpected {other:?}"),
    }

    #[allow(dead_code)]
    struct DeriveExampleOpt(Option<<String as Optionable>::Optioned>, i32);
    let _ = DeriveExampleOpt(None, 42);
    let _ = DeriveExampleOpt(Some("a".to_owned()), 42);
}

fn two_parameters() -> Generics {
    Generics {
        params: vec![
            GenericParam::Type { name: "T".to_owned(), bounds: vec![] },
            GenericParam::Type { name: "T2".to_owned(), bounds: vec![] },
        ],
        where_clause: vec![],
    }
}

#[test]
fn derive_generic() {
    let schema = TypeSchema {
        name: "DeriveExample".to_owned(),
        vis: Visibility::Inherited,
        generics: two_parameters(),
        data: Data::Struct(Fields::Named(vec![named("name", ty("T")), named("surname", ty("T2"))])),
    };
    let generated = derive_optionable(schema, plain()).unwrap();
    assert_eq!(generated.generics.params, two_parameters().params);
    assert_eq!(
        generated.generics.where_clause,
        vec![
            WherePredicate::Type { bounded: ty("T"), bounds: vec![Bound::Optionable] },
            WherePredicate::Type { bounded: ty("T2"), bounds: vec![Bound::Optionable] },
        ]
    );

    #[allow(dead_code)]
    struct DeriveExampleOpt<T, T2>
    where
        T: Optionable,
        T2: Optionable,
    {
        name: Option<<T as Optionable>::Optioned>,
        surname: Option<<T2 as Optionable>::Optioned>,
    }
    let _ = DeriveExampleOpt::<i32, String> { name: None, surname: None };
    let _ = DeriveExampleOpt::<i32, String> { name: Some(2), surname: Some("b".to_owned()) };
}

#[test]
fn lib_derive_generic() {
    let schema = TypeSchema {
        name: "DeriveExample".to_owned(),
        vis: Visibility::Inherited,
        generics: Generics {
            params: vec![
                GenericParam::Type { name: "T".to_owned(), bounds: vec![] },
                GenericParam::Type {
                    name: "T2".to_owned(),
                    bounds: vec![Bound::Other("Serialize".to_owned())],
                },
            ],
            where_clause: vec![WherePredicate::Type {
                bounded: ty("T"),
                bounds: vec![Bound::Other("DeserializeOwned".to_owned())],
            }],
        },
        data: Data::Struct(Fields::Named(vec![named("output", ty("T")), named("input", ty("T2"))])),
    };
    let generated = derive_optionable(schema, plain()).unwrap();
    assert_eq!(
        tokens(&schema_text(&generated)),
        tokens(
            "#[automatically_derived]
             struct DeriveExampleOpt<T, T2: Serialize>
                 where T: DeserializeOwned + ::optionable::Optionable,
                       T2: ::optionable::Optionable {
                 output: Option<<T as ::optionable::Optionable>::Optioned>,
                 input: Option<<T2 as ::optionable::Optionable>::Optioned>
             }
             #[automatically_derived]
             impl<T, T2: Serialize> ::optionable::Optionable for DeriveExample<T, T2>
                 where T: DeserializeOwned + ::optionable::Optionable,
                       T2: ::optionable::Optionable {
                 type Optioned = DeriveExampleOpt<T,T2>;
             }
             #[automatically_derived]
             impl<T, T2: Serialize> ::optionable::Optionable for DeriveExampleOpt<T, T2>
                 where T: DeserializeOwned + ::optionable::Optionable,
                       T2: ::optionable::Optionable {
                 type Optioned = DeriveExampleOpt<T,T2>;
             }"
        )
    );
}

#[allow(dead_code)]
struct Address {
    street_name: String,
    number: u8,
}

#[allow(dead_code)]
struct AddressOpt {
    street_name: Option<<String as Optionable>::Optioned>,
    number: Option<<u8 as Optionable>::Optioned>,
}

impl Optionable for Address {
    type Optioned = AddressOpt;
}

impl Optionable for AddressOpt {
    type Optioned = AddressOpt;
}

#[test]
fn derive_nested() {
    let outer = example(Data::Struct(Fields::Named(vec![
        named("name", ty("String")),
        named("addresses", generic("Vec", vec![ty("Address")])),
    ])));
    let generated = derive_optionable(outer, plain()).unwrap();
    match &generated.data {
        GeneratedData::Struct(GeneratedFields::Named(fields)) => {
            assert_eq!(fields[0].ty, nullable("String"));
            assert_eq!(
                fields[1].ty,
                GeneratedType::NullablePartial(generic("Vec", vec![ty("Address")]))
            );
        }
        other => panic!("unexpected {other:?}"),
    }
    let inner = TypeSchema {
        name: "Address".to_owned(),
        vis: Visibility::Inherited,
        generics: no_generics(),
        data: Data::Struct(Fields::Named(vec![
            named("street_name", ty("String")),
            named("number", ty("u8")),
        ])),
    };
    let generated = derive_optionable(inner, plain()).unwrap();
    assert_eq!(generated.name, "AddressOpt");
    assert_eq!(
        generated.linkages,
        vec![
            Linkage { source: "Address".to_owned(), partial: "AddressOpt".to_owned() },
            Linkage { source: "AddressOpt".to_owned(), partial: "AddressOpt".to_owned() },
        ]
    );

    #[allow(dead_code)]
    struct DeriveExampleOpt {
        name: Option<<String as Optionable>::Optioned>,
        addresses: Option<<Vec<Address> as Optionable>::Optioned>,
    }
    let _ = DeriveExampleOpt { name: None, addresses: None };
    let _ = DeriveExampleOpt {
        name: Some("a".to_owned()),
        addresses: Some(vec![AddressOpt { street_name: None, number: None }]),
    };
    let _ = DeriveExampleOpt {
        name: Some("a".to_owned()),
        addresses: Some(vec![AddressOpt { street_name: Some("B".to_owned()), number: Some(2) }]),
    };
    let _ = DeriveExampleOpt { name: None, addresses: None };
}

#[test]
fn lib_derive_nested() {
    let outer = example(Data::Struct(Fields::Named(vec![
        named("name", ty("String")),
        named("address", ty("Address")),
    ])));
    let generated = derive_optionable(outer, plain()).unwrap();
    match &generated.data {
        GeneratedData::Struct(GeneratedFields::Named(fields)) => {
            assert_eq!(fields[1].ty, nullable("Address"));
        }
        other => panic!("unexpected {other:?}"),
    }

    #[allow(dead_code)]
    struct DeriveExampleOpt {
        name: Option<<String as Optionable>::Optioned>,
        address: Option<<Address as Optionable>::Optioned>,
    }
    let _ = DeriveExampleOpt { name: None, address: None };
    let _ = DeriveExampleOpt {
        name: Some("a".to_owned()),
        address: Some(AddressOpt { street_name: None, number: None }),
    };
    let _ = DeriveExampleOpt {
        name: Some("a".to_owned()),
        address: Some(AddressOpt { street_name: Some("B".to_owned()), number: Some(2) }),
    };
}

fn variant(name: &str, fields: Fields) -> Variant {
    Variant { name: name.to_owned(), attrs: vec![], fields }
}

fn example_enum() -> TypeSchema {
    example(Data::Enum(vec![
        variant("Unit", Fields::Unit),
        variant("Plain", Fields::Unnamed(vec![positional(ty("String"))])),
        variant(
            "Address",
            Fields::Named(vec![named("street", ty("String")), named("number", ty("u32"))]),
        ),
        variant("Address2", Fields::Unnamed(vec![positional(ty("String")), positional(ty("u32"))])),
    ]))
}

#[test]
fn derive_enum() {
    let generated = derive_optionable(example_enum(), plain()).unwrap();
    match &generated.data {
        GeneratedData::Enum(variants) => {
            assert_eq!(variants.len(), 4);
            assert_eq!(variants[0].name, "Unit");
            assert_eq!(variants[0].fields, GeneratedFields::Unit);
            match &variants[1].fields {
                GeneratedFields::Unnamed(fields) => {
                    assert_eq!(fields.len(), 1);
                    assert_eq!(fields[0].ty, nullable("String"));
                }
                other => panic!("unexpected {other:?}"),
            }
            match &variants[2].fields {
                GeneratedFields::Named(fields) => {
                    assert_eq!(fields[0].name.as_deref(), Some("street"));
                    assert_eq!(fields[0].ty, nullable("String"));
                    assert_eq!(fields[1].name.as_deref(), Some("number"));
                    assert_eq!(fields[1].ty, nullable("u32"));
                }
                other => panic!("unexpected {other:?}"),
            }
            match &variants[3].fields {
                GeneratedFields::Unnamed(fields) => {
                    assert_eq!(fields[0].ty, nullable("String"));
                    assert_eq!(fields[1].ty, nullable("u32"));
                }
                other => panic!("unexpected {other:?}"),
            }
        }
        other => panic!("unexpected {other:?}"),
    }

    #[allow(dead_code)]
    enum DeriveExampleOpt {
        Unit,
        Plain(Option<<String as Optionable>::Optioned>),
        Address {
            street: Option<<String as Optionable>::Optioned>,
            number: Option<<u32 as Optionable>::Optioned>,
        },
        Address2(Option<<String as Optionable>::Optioned>, Option<<u32 as Optionable>::Optioned>),
    }
    let _ = DeriveExampleOpt::Unit;
    let _ = DeriveExampleOpt::Plain(None);
    let _ = DeriveExampleOpt::Address { street: None, number: None };
    let _ = DeriveExampleOpt::Address2(None, None);
    let _ = DeriveExampleOpt::Plain(Some("a".to_owned()));
    let _ = DeriveExampleOpt::Address { street: Some("a".to_owned()), number: Some(42) };
    let _ = DeriveExampleOpt::Address2(Some("a".to_owned()), Some(42));
}

struct Forwarded {
    name: Option<String>,
    surname: Option<String>,
    skip: Vec<bool>,
}

impl serde::Serialize for Forwarded {
    fn serialize<S: serde::Serializer>(&self, serializer: S) -> Result<S::Ok, S::Error> {
        let fields = [("name", &self.name), ("surname", &self.surname)];
        let kept = fields
            .iter()
            .zip(&self.skip)
            .filter(|((_, value), skip)| !(**skip && value.is_none()))
            .count();
        let mut state = serializer.serialize_struct("DeriveExampleOpt", kept)?;
        for ((name, value), skip) in fields.iter().zip(&self.skip) {
            if *skip && value.is_none() {
                state.skip_field(name)?;
            } else {
                state.serialize_field(name, value)?;
            }
        }
        state.end()
    }
}

#[test]
fn derive_forward_other_derives() {
    let schema = example(Data::Struct(Fields::Named(vec![
        named("name", ty("String")),
        named("surname", ty("String")),
    ])));
    let directives = TypeDirectives {
        derive: vec![path(&["Deserialize"]), path(&["Serialize"])],
        suffix: default_suffix(),
    };
    let generated = derive_optionable(schema, directives).unwrap();
    assert_eq!(generated.derives, vec![path(&["Deserialize"]), path(&["Serialize"])]);
    let skip: Vec<bool> = match &generated.data {
        GeneratedData::Struct(GeneratedFields::Named(fields)) => {
            fields.iter().map(|f| f.skip_when_absent).collect()
        }
        other => panic!("unexpected {other:?}"),
    };
    assert_eq!(skip, vec![true, true]);

    let a = Forwarded { name: Some("a".to_owned()), surname: None, skip };
    let a_json = serde_json::to_string(&a).unwrap();
    assert_eq!(a_json, "{\"name\":\"a\"}");
}

struct TestCase {
    input: TypeSchema,
    directives: TypeDirectives,
    output: &'static str,
}

#[test]
fn derive_test_optionable() {
    let linkage_tail = |partial: &str| {
        format!(
            "#[automatically_derived]
             impl ::optionable::Optionable for DeriveExample {{ type Optioned = {partial}; }}
             #[automatically_derived]
             impl ::optionable::Optionable for {partial} {{ type Optioned = {partial}; }}"
        )
    };
    let tcs = vec![
        TestCase {
            input: example(Data::Struct(Fields::Named(vec![
                named("name", ty("String")),
                field(Visibility::Public, Some("surname"), ty("String"), false),
            ]))),
            directives: plain(),
            output: "#[automatically_derived]
                     struct DeriveExampleOpt {
                         name: Option<<String as ::optionable::Optionable>::Optioned>,
                         pub surname: Option<<String as ::optionable::Optionable>::Optioned>
                     }",
        },
        TestCase {
            input: example(Data::Struct(Fields::Named(vec![
                named("name", ty("String")),
                field(Visibility::Public, Some("surname"), ty("String"), true),
            ]))),
            directives: plain(),
            output: "#[automatically_derived]
                     struct DeriveExampleOpt {
                         name: Option<<String as ::optionable::Optionable>::Optioned>,
                         pub surname: String
                     }",
        },
        TestCase {
            input: example(Data::Struct(Fields::Named(vec![
                named("name", ty("String")),
                named("middle_name", generic("Option", vec![ty("String")])),
                named("surname", ty("String")),
            ]))),
            directives: TypeDirectives {
                derive: vec![path(&["Deserialize"]), path(&["Serialize"])],
                suffix: "Ac".to_owned(),
            },
            output: "#[automatically_derived]
                     #[derive(Deserialize, Serialize)]
                     struct DeriveExampleAc {
                         #[serde(skip_serializing_if = \"Option::is_none\")]
                         name: Option<<String as ::optionable::Optionable>::Optioned>,
                         #[serde(skip_serializing_if = \"Option::is_none\")]
                         middle_name: <Option<String> as ::optionable::Optionable>::Optioned,
                         #[serde(skip_serializing_if = \"Option::is_none\")]
                         surname: Option<<String as ::optionable::Optionable>::Optioned>
                     }",
        },
        TestCase {
            input: example(Data::Struct(Fields::Named(vec![
                named("name", ty("String")),
                named("surname", ty("String")),
            ]))),
            directives: TypeDirectives {
                derive: vec![path(&["serde", "Deserialize"]), path(&["serde", "Serialize"])],
                suffix: "Ac".to_owned(),
            },
            output: "#[automatically_derived]
                     #[derive(serde::Deserialize, serde::Serialize)]
                     struct DeriveExampleAc {
                         #[serde(skip_serializing_if = \"Option::is_none\")]
                         name: Option<<String as ::optionable::Optionable>::Optioned>,
                         #[serde(skip_serializing_if = \"Option::is_none\")]
                         surname: Option<<String as ::optionable::Optionable>::Optioned>
                     }",
        },
        TestCase {
            input: example(Data::Struct(Fields::Unnamed(vec![
                field(Visibility::Public, None, ty("String"), false),
                positional(ty("i32")),
            ]))),
            directives: plain(),
            output: "#[automatically_derived]
                     struct DeriveExampleOpt(
                         pub Option<<String as ::optionable::Optionable>::Optioned>,
                         Option<<i32 as ::optionable::Optionable>::Optioned>
                     );",
        },
        TestCase {
            input: example(Data::Struct(Fields::Unnamed(vec![
                field(Visibility::Public, None, ty("String"), false),
                field(Visibility::Inherited, None, ty("i32"), true),
            ]))),
            directives: plain(),
            output: "#[automatically_derived]
                     struct DeriveExampleOpt(
                         pub Option<<String as ::optionable::Optionable>::Optioned>,
                         i32
                     );",
        },
        TestCase {
            input: example_enum(),
            directives: plain(),
            output: "#[automatically_derived]
                     enum DeriveExampleOpt {
                         Unit,
                         Plain( Option<<String as ::optionable::Optionable>::Optioned> ),
                         Address{ street: Option<< String as ::optionable::Optionable>::Optioned>, number:Option<<u32 as ::optionable::Optionable>::Optioned> },
                         Address2( Option<<String as ::optionable::Optionable>::Optioned>, Option<<u32 as ::optionable::Optionable>::Optioned> )
                     }",
        },
    ];
    for tc in tcs {
        let output = derive_optionable(tc.input, tc.directives).unwrap();
        let expected = format!("{} {}", tc.output, linkage_tail(&output.name));
        println!("{}", schema_text(&output));
        assert_eq!(tokens(&expected), tokens(&schema_text(&output)));
    }
}

#[test]
fn name_is_declared_name_and_suffix() {
    assert_eq!(default_suffix(), "Opt");
    assert_eq!(TypeDirectives::default(), plain());
    assert!(!FieldDirectives::default().required);
    let directives = TypeDirectives { derive: vec![], suffix: "Patch".to_owned() };
    let generated = derive_optionable(example(Data::Struct(Fields::Unit)), directives).unwrap();
    assert_eq!(generated.name, "DeriveExamplePatch");
    assert_eq!(generated.data, GeneratedData::Struct(GeneratedFields::Unit));
    assert_eq!(generated.linkages[0].source, "DeriveExample");
    assert_eq!(generated.linkages[0].partial, "DeriveExamplePatch");
    assert_eq!(generated.linkages[1].source, "DeriveExamplePatch");
    assert_eq!(generated.linkages[1].partial, "DeriveExamplePatch");
}

#[test]
fn visibility_is_kept() {
    let mut schema = example(Data::Struct(Fields::Named(vec![field(
        Visibility::Restricted("crate".to_owned()),
        Some("a"),
        ty("u8"),
        false,
    )])));
    schema.vis = Visibility::Public;
    let generated = derive_optionable(schema, plain()).unwrap();
    assert_eq!(generated.vis, Visibility::Public);
    match &generated.data {
        GeneratedData::Struct(GeneratedFields::Named(fields)) => {
            assert_eq!(fields[0].vis, Visibility::Restricted("crate".to_owned()));
            assert!(!fields[0].skip_when_absent);
        }
        other => panic!("unexpected {other:?}"),
    }
}

#[test]
fn nullable_field_is_not_wrapped_again() {
    for spelling in [vec!["Option"], vec!["option", "Option"], vec!["std", "option", "Option"]] {
        let declared = TypeRef::Path {
            leading_colon: false,
            segments: spelling.iter().map(|s| (*s).to_owned()).collect(),
            args: vec![ty("u8")],
        };
        assert!(is_option(&declared));
        let fields = optioned_fields(
            Fields::Unnamed(vec![positional(TypeRef::Path {
                leading_colon: false,
                segments: spelling.iter().map(|s| (*s).to_owned()).collect(),
                args: vec![ty("u8")],
            })]),
            false,
        );
        assert_eq!(
            fields,
            GeneratedFields::Unnamed(vec![GeneratedField {
                vis: Visibility::Inherited,
                name: None,
                ty: GeneratedType::Partial(declared),
                skip_when_absent: false,
            }])
        );
    }
    assert!(!is_option(&ty("Vec")));
    assert!(!is_option(&generic("core", vec![])));
    assert!(!is_option(&TypeRef::Path {
        leading_colon: false,
        segments: vec!["core".to_owned(), "option".to_owned(), "Option".to_owned()],
        args: vec![],
    }));
    assert!(!is_option(&TypeRef::Other("Option".to_owned())));
    assert!(!is_option(&TypeRef::Reference {
        lifetime: None,
        mutable: false,
        target: Box::new(ty("Option")),
    }));
}

#[test]
fn serialize_is_recognised() {
    assert!(is_serialize(&path(&["Serialize"])));
    assert!(is_serialize(&path(&["serde", "Serialize"])));
    assert!(!is_serialize(&path(&["Deserialize"])));
    assert!(!is_serialize(&path(&["serde", "Deserialize"])));
    assert!(!is_serialize(&path(&["other", "serde", "Serialize"])));
    assert!(!is_serialize(&SimplePath { leading_colon: true, segments: vec!["Serialize".to_owned()] }));
    assert!(is_serialize(&SimplePath {
        leading_colon: true,
        segments: vec!["serde".to_owned(), "Serialize".to_owned()],
    }));
}

#[test]
fn bounds_are_appended_behind_existing_ones() {
    let mut generics = Generics {
        params: vec![
            GenericParam::Lifetime { name: "'a".to_owned(), outlives: vec![] },
            GenericParam::Type { name: "T".to_owned(), bounds: vec![] },
            GenericParam::Const { name: "N".to_owned(), ty: ty("usize") },
            GenericParam::Type { name: "U".to_owned(), bounds: vec![] },
        ],
        where_clause: vec![
            WherePredicate::Lifetime { lifetime: "'a".to_owned(), outlives: vec!["'static".to_owned()] },
            WherePredicate::Type {
                bounded: generic("Vec", vec![ty("T")]),
                bounds: vec![Bound::Other("Clone".to_owned())],
            },
            WherePredicate::Type {
                bounded: ty("T"),
                bounds: vec![Bound::Other("A".to_owned()), Bound::Other("B".to_owned())],
            },
            WherePredicate::Type { bounded: ty("T"), bounds: vec![Bound::Other("C".to_owned())] },
        ],
    };
    patch_where_clause_bounds(&mut generics);
    assert_eq!(generics.params.len(), 4);
    assert_eq!(
        generics.where_clause,
        vec![
            WherePredicate::Lifetime { lifetime: "'a".to_owned(), outlives: vec!["'static".to_owned()] },
            WherePredicate::Type {
                bounded: generic("Vec", vec![ty("T")]),
                bounds: vec![Bound::Other("Clone".to_owned())],
            },
            WherePredicate::Type {
                bounded: ty("T"),
                bounds: vec![
                    Bound::Other("A".to_owned()),
                    Bound::Other("B".to_owned()),
                    Bound::Optionable,
                ],
            },
            WherePredicate::Type { bounded: ty("T"), bounds: vec![Bound::Other("C".to_owned())] },
            WherePredicate::Type { bounded: ty("U"), bounds: vec![Bound::Optionable] },
        ]
    );
}

#[test]
fn union_is_unsupported() {
    let err = derive_optionable(example(Data::Union), plain()).unwrap_err();
    assert_eq!(err, SchemaError::UnsupportedShape);
    assert_eq!(err.message(), "#[derive(Optionable)] not supported for unit structs");
}

#[test]
fn directive_on_a_variant_is_refused() {
    let helper = Attribute { path: path(&["optionable"]) };
    let other = Attribute { path: path(&["serde"]) };
    assert_eq!(error_on_helper_attributes(&vec![], SchemaError::UnsupportedShape), Ok(()));
    assert_eq!(
        error_on_helper_attributes(
            &vec![Attribute { path: path(&["serde"]) }],
            SchemaError::UnsupportedShape
        ),
        Ok(())
    );
    let schema = example(Data::Enum(vec![
        Variant { name: "A".to_owned(), attrs: vec![other], fields: Fields::Unit },
        Variant {
            name: "B".to_owned(),
            attrs: vec![Attribute { path: path(&["doc"]) }, helper],
            fields: Fields::Unit,
        },
        Variant {
            name: "C".to_owned(),
            attrs: vec![Attribute { path: path(&["optionable"]) }],
            fields: Fields::Unit,
        },
    ]));
    let err = derive_optionable(schema, plain()).unwrap_err();
    assert_eq!(err, SchemaError::DirectiveNotSupportedHere { variant: 1 });
    assert_eq!(
        err.message(),
        "#[optionable] helper attributes not supported on enum variant level."
    );
}

#[test]
fn malformed_capability_is_refused_first() {
    let directives = TypeDirectives {
        derive: vec![path(&["Clone"]), path(&["serde", ""]), path(&[])],
        suffix: default_suffix(),
    };
    let err = derive_optionable(example(Data::Union), directives).unwrap_err();
    assert_eq!(err, SchemaError::InvalidDirective { capability: 1 });
    let directives = TypeDirectives { derive: vec![path(&[])], suffix: default_suffix() };
    let err = derive_optionable(example(Data::Struct(Fields::Unit)), directives).unwrap_err();
    assert_eq!(err, SchemaError::InvalidDirective { capability: 0 });
    assert!(!err.message().is_empty());
}
