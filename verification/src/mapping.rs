//! The mapping protocol on written types: which shape a type has, and what its
//! partial counterpart is.
//!
//! A type is recognised by the way it is written. What is not recognised keeps a
//! partial counterpart all the same: it is left as `<T as Optionable>::Optioned` for
//! the compiler to resolve.

use crate::schema::{lemma_type_views, text_is, views, TypeRef, TypeRefView};
use vstd::prelude::*;

verus! {

/// The shapes that the mapping protocol tells apart. A type has exactly one.
#[derive(Debug, Clone, Copy, PartialEq, Eq)]
pub enum Shape {
    /// A type without inner structure: it is its own partial counterpart.
    Leaf,
    /// A reference: its target is made partial.
    Reference,
    /// The nullable wrapper around one type: it collapses into the partial
    /// counterpart of that type.
    Nullable,
    /// A sequence, set, heap or single-value wrapper around one type: its element
    /// is made partial.
    Container,
    /// A map from keys to values: its values are made partial, its keys stay.
    KeyValue,
    /// A result: its success arm is made partial, its error arm stays.
    Outcome,
    /// A partial counterpart already: it is its own.
    Partial,
    /// Anything else: its partial counterpart is left unresolved.
    Opaque,
}

/// The names of the types without inner structure.
pub open spec fn leaf_names() -> Seq<Seq<char>> {
    seq![
        "i8"@,
        "i16"@,
        "i32"@,
        "i64"@,
        "i128"@,
        "isize"@,
        "u8"@,
        "u16"@,
        "u32"@,
        "u64"@,
        "u128"@,
        "usize"@,
        "f32"@,
        "f64"@,
        "char"@,
        "bool"@,
        "String"@,
        "str"@,
    ]
}

/// The names of the containers of one element type.
pub open spec fn container_names() -> Seq<Seq<char>> {
    seq![
        "Vec"@,
        "VecDeque"@,
        "LinkedList"@,
        "HashSet"@,
        "BTreeSet"@,
        "BinaryHeap"@,
        "Box"@,
        "Rc"@,
        "Arc"@,
        "RefCell"@,
        "Mutex"@,
    ]
}

/// The names of the maps from keys to values.
pub open spec fn map_names() -> Seq<Seq<char>> {
    seq!["HashMap"@, "BTreeMap"@]
}

impl TypeRefView {
    /// The nullable wrapper around `inner`.
    pub open spec fn nullable(inner: TypeRefView) -> TypeRefView {
        TypeRefView::Path { leading_colon: false, segments: seq!["Option"@], args: seq![inner] }
    }

    /// Whether the type is a path of the one segment `name` with `arity` type
    /// arguments.
    pub open spec fn is_named(self, name: Seq<char>, arity: nat) -> bool {
        self matches TypeRefView::Path { segments, args, .. } && segments.len() == 1
            && segments[0] == name && args.len() == arity
    }

    /// Whether the type is a path of one segment, which is one of `names`, with
    /// `arity` type arguments.
    pub open spec fn is_one_of(self, names: Seq<Seq<char>>, arity: nat) -> bool {
        exists|i: int| 0 <= i < names.len() && self.is_named(#[trigger] names[i], arity)
    }

    /// The shape of the type. The rules are tried in this order, and the first that
    /// applies decides.
    pub open spec fn shape(self) -> Shape {
        match self {
            TypeRefView::Reference { .. } => Shape::Reference,
            TypeRefView::Optioned(_) => Shape::Partial,
            TypeRefView::Other(_) => Shape::Opaque,
            TypeRefView::Path { args, .. } => {
                if self.is_one_of(leaf_names(), 0) {
                    Shape::Leaf
                } else if self.is_nullable() && args.len() == 1 {
                    Shape::Nullable
                } else if self.is_one_of(container_names(), 1) {
                    Shape::Container
                } else if self.is_one_of(map_names(), 2) {
                    Shape::KeyValue
                } else if self.is_named("Result"@, 2) {
                    Shape::Outcome
                } else {
                    Shape::Opaque
                }
            },
        }
    }

    /// The partial counterpart of the type.
    pub open spec fn partial(self) -> TypeRefView
        decreases self,
    {
        match self {
            TypeRefView::Reference { lifetime, mutable, target } => TypeRefView::Reference {
                lifetime,
                mutable,
                target: Box::new(target.partial()),
            },
            TypeRefView::Optioned(_) => self,
            TypeRefView::Other(_) => TypeRefView::Optioned(Box::new(self)),
            TypeRefView::Path { leading_colon, segments, args } => match self.shape() {
                Shape::Leaf => self,
                Shape::Nullable => args[0].partial(),
                Shape::Container => TypeRefView::Path {
                    leading_colon,
                    segments,
                    args: seq![args[0].partial()],
                },
                Shape::KeyValue => TypeRefView::Path {
                    leading_colon,
                    segments,
                    args: seq![args[0], args[1].partial()],
                },
                Shape::Outcome => TypeRefView::Path {
                    leading_colon,
                    segments,
                    args: seq![args[0].partial(), args[1]],
                },
                _ => TypeRefView::Optioned(Box::new(self)),
            },
        }
    }
}

/// A leaf type is its own partial counterpart.
pub proof fn lemma_leaf_is_its_own_partial(ty: TypeRefView)
    requires
        ty.shape() == Shape::Leaf,
    ensures
        ty.partial() == ty,
{
}

/// Collapsing law: the partial counterpart of a nullable type is that of the type
/// inside, so no second nullable layer arises, however the wrapper is spelled and
/// however often it is nested.
pub proof fn lemma_nullable_collapses(inner: TypeRefView)
    ensures
        TypeRefView::nullable(inner).shape() == Shape::Nullable,
        TypeRefView::nullable(inner).partial() == inner.partial(),
        TypeRefView::nullable(TypeRefView::nullable(inner)).partial() == inner.partial(),
{
    lemma_names_apart();
    let once = TypeRefView::nullable(inner);
    assert(once.shape() == Shape::Nullable) by {
        assert(once.is_nullable());
        assert forall|i: int| 0 <= i < leaf_names().len() implies !once.is_named(
            #[trigger] leaf_names()[i],
            0,
        ) by {}
    }
    let twice = TypeRefView::nullable(once);
    assert(twice.shape() == Shape::Nullable) by {
        assert(twice.is_nullable());
    }
    assert(once->Path_args[0] == inner);
    assert(twice->Path_args[0] == once);
}

/// The partial counterpart of any nullable type, whatever its spelling, is that of
/// its one argument.
pub proof fn lemma_nullable_shape_collapses(ty: TypeRefView)
    requires
        ty.shape() == Shape::Nullable,
    ensures
        ty.partial() == ty->Path_args[0].partial(),
{
}

/// A map keeps its key type, a result its error type.
pub proof fn lemma_keys_and_errors_stay(ty: TypeRefView)
    requires
        ty.shape() == Shape::KeyValue || ty.shape() == Shape::Outcome,
    ensures
        ty.shape() == Shape::KeyValue ==> ty.partial()->Path_args[0] == ty->Path_args[0],
        ty.shape() == Shape::Outcome ==> ty.partial()->Path_args[1] == ty->Path_args[1],
{
}

/// Fixed point: the partial counterpart of a partial counterpart is itself.
pub proof fn lemma_partial_is_fixed_point(ty: TypeRefView)
    ensures
        ty.partial().partial() == ty.partial(),
    decreases ty,
{
    match ty {
        TypeRefView::Reference { lifetime, mutable, target } => {
            lemma_partial_is_fixed_point(*target);
        },
        TypeRefView::Optioned(_) => {},
        TypeRefView::Other(_) => {},
        TypeRefView::Path { leading_colon, segments, args } => {
            let p = ty.partial();
            match ty.shape() {
                Shape::Leaf => {},
                Shape::Nullable => {
                    lemma_partial_is_fixed_point(args[0]);
                },
                Shape::Container => {
                    lemma_partial_is_fixed_point(args[0]);
                    lemma_same_shape(ty, p);
                    assert(p.partial()->Path_args =~= p->Path_args);
                },
                Shape::KeyValue => {
                    lemma_partial_is_fixed_point(args[1]);
                    lemma_same_shape(ty, p);
                    assert(p.partial()->Path_args =~= p->Path_args);
                },
                Shape::Outcome => {
                    lemma_partial_is_fixed_point(args[0]);
                    lemma_same_shape(ty, p);
                    assert(p.partial()->Path_args =~= p->Path_args);
                },
                _ => {},
            }
        },
    }
}

/// Two paths with the same segments and as many arguments have the same shape.
proof fn lemma_same_shape(a: TypeRefView, b: TypeRefView)
    requires
        a is Path,
        b is Path,
        a->Path_segments == b->Path_segments,
        a->Path_args.len() == b->Path_args.len(),
    ensures
        a.shape() == b.shape(),
{
    assert forall|names: Seq<Seq<char>>, arity: nat|
        a.is_one_of(names, arity) == b.is_one_of(names, arity) by {
        if a.is_one_of(names, arity) {
            let i = choose|i: int| 0 <= i < names.len() && a.is_named(#[trigger] names[i], arity);
            assert(b.is_named(names[i], arity));
        }
        if b.is_one_of(names, arity) {
            let i = choose|i: int| 0 <= i < names.len() && b.is_named(#[trigger] names[i], arity);
            assert(a.is_named(names[i], arity));
        }
    }
}

/// The nullable wrapper's name is none of the leaf names.
proof fn lemma_names_apart()
    ensures
        forall|i: int| 0 <= i < leaf_names().len() ==> #[trigger] leaf_names()[i] != "Option"@,
{
    reveal_strlit("Option");
    reveal_strlit("i8");
    reveal_strlit("i16");
    reveal_strlit("i32");
    reveal_strlit("i64");
    reveal_strlit("i128");
    reveal_strlit("isize");
    reveal_strlit("u8");
    reveal_strlit("u16");
    reveal_strlit("u32");
    reveal_strlit("u64");
    reveal_strlit("u128");
    reveal_strlit("usize");
    reveal_strlit("f32");
    reveal_strlit("f64");
    reveal_strlit("char");
    reveal_strlit("bool");
    reveal_strlit("String");
    reveal_strlit("str");
    assert forall|i: int| 0 <= i < leaf_names().len() implies #[trigger] leaf_names()[i]
        != "Option"@ by {
        assert(leaf_names()[i][0] != 'O');
    }
}

/// Whether `name` is one of `names`.
fn listed<const N: usize>(name: &String, names: &[&'static str; N]) -> (yes: bool)
    ensures
        yes == exists|i: int| 0 <= i < N && (#[trigger] names@[i])@ == name@,
{
    let mut i: usize = 0;
    while i < N
        invariant
            i <= N,
            names@.len() == N,
            forall|k: int| 0 <= k < i ==> (#[trigger] names@[k])@ != name@,
        decreases N - i,
    {
        if text_is(name, names[i]) {
            return true;
        }
        i += 1;
    }
    false
}

/// The shape of the type.
pub fn shape_of(ty: &TypeRef) -> (shape: Shape)
    ensures
        shape == ty@.shape(),
{
    match ty {
        TypeRef::Reference { .. } => Shape::Reference,
        TypeRef::Optioned(_) => Shape::Partial,
        TypeRef::Other(_) => Shape::Opaque,
        TypeRef::Path { leading_colon: _, segments, args } => {
            proof {
                lemma_type_views(args@);
            }
            let single = segments.len() == 1;
            let arity = args.len();
            let leaves = [
                "i8",
                "i16",
                "i32",
                "i64",
                "i128",
                "isize",
                "u8",
                "u16",
                "u32",
                "u64",
                "u128",
                "usize",
                "f32",
                "f64",
                "char",
                "bool",
                "String",
                "str",
            ];
            let containers = [
                "Vec",
                "VecDeque",
                "LinkedList",
                "HashSet",
                "BTreeSet",
                "BinaryHeap",
                "Box",
                "Rc",
                "Arc",
                "RefCell",
                "Mutex",
            ];
            let maps = ["HashMap", "BTreeMap"];
            assert(leaves@.len() == leaf_names().len() && forall|i: int|
                0 <= i < leaves@.len() ==> (#[trigger] leaves@[i])@ == leaf_names()[i]);
            assert(containers@.len() == container_names().len() && forall|i: int|
                0 <= i < containers@.len() ==> (#[trigger] containers@[i])@ == container_names()[i]);
            assert(maps@.len() == map_names().len() && forall|i: int|
                0 <= i < maps@.len() ==> (#[trigger] maps@[i])@ == map_names()[i]);
            if single && arity == 0 && listed(&segments[0], &leaves) {
                proof {
                    let i = choose|i: int| 0 <= i < 18 && (#[trigger] leaves@[i])@ == segments@[0]@;
                    assert(ty@.is_named(leaf_names()[i], 0));
                }
                Shape::Leaf
            } else if arity == 1 && crate::derive::is_option(ty) {
                assert(!ty@.is_one_of(leaf_names(), 0));
                Shape::Nullable
            } else if single && arity == 1 && listed(&segments[0], &containers) {
                proof {
                    let i = choose|i: int|
                        0 <= i < 11 && (#[trigger] containers@[i])@ == segments@[0]@;
                    assert(ty@.is_named(container_names()[i], 1));
                }
                assert(!ty@.is_one_of(leaf_names(), 0));
                Shape::Container
            } else if single && arity == 2 && listed(&segments[0], &maps) {
                proof {
                    let i = choose|i: int| 0 <= i < 2 && (#[trigger] maps@[i])@ == segments@[0]@;
                    assert(ty@.is_named(map_names()[i], 2));
                }
                assert(!ty@.is_one_of(leaf_names(), 0));
                assert(!ty@.is_one_of(container_names(), 1));
                Shape::KeyValue
            } else if single && arity == 2 && text_is(&segments[0], "Result") {
                assert(!ty@.is_one_of(leaf_names(), 0));
                assert(!ty@.is_one_of(container_names(), 1));
                assert(!ty@.is_one_of(map_names(), 2));
                Shape::Outcome
            } else {
                assert(!ty@.is_one_of(leaf_names(), 0));
                assert(!ty@.is_one_of(container_names(), 1));
                assert(!ty@.is_one_of(map_names(), 2));
                Shape::Opaque
            }
        },
    }
}

/// The partial counterpart of the type.
pub fn partial_of(ty: TypeRef) -> (partial: TypeRef)
    ensures
        partial@ == ty@.partial(),
    decreases ty,
{
    let shape = shape_of(&ty);
    match ty {
        TypeRef::Reference { lifetime, mutable, target } => {
            let target = partial_of(*target);
            TypeRef::Reference { lifetime, mutable, target: Box::new(target) }
        },
        TypeRef::Optioned(inner) => TypeRef::Optioned(inner),
        TypeRef::Other(text) => TypeRef::Optioned(Box::new(TypeRef::Other(text))),
        TypeRef::Path { leading_colon, segments, args } => {
            let ghost declared = args@;
            proof {
                lemma_type_views(declared);
            }
            let mut args = args;
            match shape {
                Shape::Leaf => TypeRef::Path { leading_colon, segments, args },
                Shape::Nullable => {
                    let inner = args.pop().unwrap();
                    partial_of(inner)
                },
                Shape::Container => {
                    let element = args.pop().unwrap();
                    args.push(partial_of(element));
                    proof {
                        lemma_type_views(args@);
                        assert(views(args@) =~= seq![declared[0]@.partial()]);
                    }
                    TypeRef::Path { leading_colon, segments, args }
                },
                Shape::KeyValue => {
                    let value = args.pop().unwrap();
                    args.push(partial_of(value));
                    proof {
                        lemma_type_views(args@);
                        assert(views(args@) =~= seq![declared[0]@, declared[1]@.partial()]);
                    }
                    TypeRef::Path { leading_colon, segments, args }
                },
                Shape::Outcome => {
                    let error = args.pop().unwrap();
                    let success = args.pop().unwrap();
                    args.push(partial_of(success));
                    args.push(error);
                    proof {
                        lemma_type_views(args@);
                        assert(views(args@) =~= seq![declared[0]@.partial(), declared[1]@]);
                    }
                    TypeRef::Path { leading_colon, segments, args }
                },
                _ => TypeRef::Optioned(Box::new(TypeRef::Path { leading_colon, segments, args })),
            }
        },
    }
}

} // verus!
