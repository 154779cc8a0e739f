//! Types for the values of a graph. They are advice: the runtime never asks
//! them.

use crate::runtime::text::{decimal, unsigned_text};
use crate::runtime::value::join_texts;
use std::collections::HashMap;
use vstd::prelude::*;
use vstd::string::StringExecFns;

verus! {

broadcast use vstd::std_specs::hash::group_hash_axioms;

/// What a type holds.
pub enum TypeView {
    Nil,
    Bool,
    Int,
    Float,
    String,
    Array(Box<TypeView>),
    Mapping(Box<TypeView>, Box<TypeView>),
    Function(Seq<TypeView>, Box<TypeView>),
    NodeRef,
    MemoryRef(Box<TypeView>),
    AsyncHandle(Box<TypeView>),
    TypeVar(u32),
    Union(Seq<TypeView>),
    Any,
    Never,
}

/// The type of a value.
#[derive(Debug, PartialEq, Eq)]
pub enum Type {
    Nil,
    Bool,
    Int,
    Float,
    String,
    /// An array of elements of one type.
    Array(Box<Type>),
    /// A mapping from keys of one type to values of another.
    Mapping(Box<Type>, Box<Type>),
    /// A function from parameters to a result.
    Function(Vec<Type>, Box<Type>),
    NodeRef,
    MemoryRef(Box<Type>),
    AsyncHandle(Box<Type>),
    /// A type that inference has yet to find.
    TypeVar(u32),
    /// One of several types.
    Union(Vec<Type>),
    /// Every type.
    Any,
    /// No type.
    Never,
}

/// What `t` holds.
pub open spec fn type_view(t: Type) -> TypeView
    decreases t,
{
    match t {
        Type::Nil => TypeView::Nil,
        Type::Bool => TypeView::Bool,
        Type::Int => TypeView::Int,
        Type::Float => TypeView::Float,
        Type::String => TypeView::String,
        Type::Array(e) => TypeView::Array(Box::new(type_view(*e))),
        Type::Mapping(k, v) => TypeView::Mapping(
            Box::new(type_view(*k)),
            Box::new(type_view(*v)),
        ),
        Type::Function(ps, r) => TypeView::Function(
            Seq::new(
                ps@.len(),
                |i: int|
                    if 0 <= i < ps@.len() {
                        type_view(ps@[i])
                    } else {
                        TypeView::Nil
                    },
            ),
            Box::new(type_view(*r)),
        ),
        Type::NodeRef => TypeView::NodeRef,
        Type::MemoryRef(e) => TypeView::MemoryRef(Box::new(type_view(*e))),
        Type::AsyncHandle(e) => TypeView::AsyncHandle(Box::new(type_view(*e))),
        Type::TypeVar(id) => TypeView::TypeVar(id),
        Type::Union(ts) => TypeView::Union(
            Seq::new(
                ts@.len(),
                |i: int|
                    if 0 <= i < ts@.len() {
                        type_view(ts@[i])
                    } else {
                        TypeView::Nil
                    },
            ),
        ),
        Type::Any => TypeView::Any,
        Type::Never => TypeView::Never,
    }
}

impl View for Type {
    type V = TypeView;

    open spec fn view(&self) -> TypeView {
        type_view(*self)
    }
}

impl DeepView for Type {
    type V = TypeView;

    open spec fn deep_view(&self) -> TypeView {
        self@
    }
}

/// What a list of types holds.
pub open spec fn types_view(types: Vec<Type>) -> Seq<TypeView> {
    (Type::Union(types))@->Union_0
}

/// Copies of the types.
#[verifier::loop_isolation(false)]
fn clone_types(types: &Vec<Type>) -> (copy: Vec<Type>)
    ensures
        types_view(copy) == types_view(*types),
    decreases types,
{
    let mut out: Vec<Type> = Vec::new();
    let mut i: usize = 0;
    while i < types.len()
        invariant
            i <= types.len(),
            out.len() == i,
            forall|j: int| 0 <= j < i ==> out@[j]@ == types@[j]@,
        decreases types.len() - i,
    {
        out.push(types[i].clone());
        i += 1;
    }
    assert(types_view(out) =~= types_view(*types));
    out
}

impl Clone for Type {
    fn clone(&self) -> (copy: Type)
        ensures
            copy@ == self@,
        decreases self,
    {
        match self {
            Type::Nil => Type::Nil,
            Type::Bool => Type::Bool,
            Type::Int => Type::Int,
            Type::Float => Type::Float,
            Type::String => Type::String,
            Type::Array(e) => Type::Array(Box::new((**e).clone())),
            Type::Mapping(k, v) => Type::Mapping(Box::new((**k).clone()), Box::new((**v).clone())),
            Type::Function(ps, r) => {
                let params = clone_types(ps);
                let copy = Type::Function(params, Box::new((**r).clone()));
                assert(copy@->Function_0 =~= types_view(params));
                assert(self@->Function_0 =~= types_view(*ps));
                copy
            },
            Type::NodeRef => Type::NodeRef,
            Type::MemoryRef(e) => Type::MemoryRef(Box::new((**e).clone())),
            Type::AsyncHandle(e) => Type::AsyncHandle(Box::new((**e).clone())),
            Type::TypeVar(id) => Type::TypeVar(*id),
            Type::Union(ts) => Type::Union(clone_types(ts)),
            Type::Any => Type::Any,
            Type::Never => Type::Never,
        }
    }
}

/// Whether the types of the two lists are the same, one by one.
#[verifier::loop_isolation(false)]
fn same_types(a: &Vec<Type>, b: &Vec<Type>) -> (same: bool)
    ensures
        same == (types_view(*a) == types_view(*b)),
    decreases a,
{
    if a.len() != b.len() {
        assert(types_view(*a).len() != types_view(*b).len());
        return false;
    }
    let mut i: usize = 0;
    while i < a.len()
        invariant
            i <= a.len(),
            forall|j: int| 0 <= j < i ==> a@[j]@ == b@[j]@,
        decreases a.len() - i,
    {
        if !a[i].same(&b[i]) {
            assert(types_view(*a)[i as int] != types_view(*b)[i as int]);
            return false;
        }
        i += 1;
    }
    assert(types_view(*a) =~= types_view(*b));
    true
}

/// Whether a type is compatible with another, where `flip` says that the
/// two stand in reverse order: `compat(a, b, true)` is whether `b` is
/// compatible with `a`.
///
/// Every type is compatible with `Any`, and `Any` with every type; `Never`
/// with none, and none with it. A type is compatible with itself, an
/// integer with a float and a float with an integer. Arrays and mappings
/// are compatible as their parts are. A function is compatible with another
/// of as many parameters where each parameter of the other is compatible
/// with its own and its result with the other's. A union is compatible
/// with a type where one of its members is; a type with a union where it is
/// with one of the members.
pub open spec fn compat(a: TypeView, b: TypeView, flip: bool) -> bool
    decreases a, b,
{
    let x = if flip {
        b
    } else {
        a
    };
    let y = if flip {
        a
    } else {
        b
    };
    if x is Any || y is Any {
        true
    } else if x is Never || y is Never {
        false
    } else if x == y {
        true
    } else {
        match (a, b) {
            (TypeView::Int, TypeView::Float) | (TypeView::Float, TypeView::Int) => true,
            (TypeView::Array(ea), TypeView::Array(eb)) => compat(*ea, *eb, flip),
            (TypeView::Mapping(ka, va), TypeView::Mapping(kb, vb)) => compat(*ka, *kb, flip)
                && compat(*va, *vb, flip),
            (TypeView::Function(pa, ra), TypeView::Function(pb, rb)) => {
                &&& pa.len() == pb.len()
                &&& forall|i: int| 0 <= i < pa.len() ==> compat(#[trigger] pa[i], pb[i], !flip)
                &&& compat(*ra, *rb, flip)
            },
            (TypeView::Union(ts), _) => if !flip {
                exists|i: int| 0 <= i < ts.len() && compat(#[trigger] ts[i], b, flip)
            } else if b is Union {
                exists|i: int|
                    0 <= i < b->Union_0.len() && compat(a, #[trigger] b->Union_0[i], flip)
            } else {
                exists|i: int| 0 <= i < ts.len() && compat(#[trigger] ts[i], b, flip)
            },
            (_, TypeView::Union(ts)) => exists|i: int|
                0 <= i < ts.len() && compat(a, #[trigger] ts[i], flip),
            _ => false,
        }
    }
}

/// Whether `a` is compatible with `b`.
pub open spec fn compatible(a: TypeView, b: TypeView) -> bool {
    compat(a, b, false)
}

/// The type that two types have in common: the type itself for two like
/// types, a float for an integer and a float, the other type beside `Any`,
/// an array of the common element type for two arrays, and else the union
/// of the two.
pub open spec fn common(a: TypeView, b: TypeView) -> TypeView
    decreases a,
{
    if a == b {
        a
    } else {
        match (a, b) {
            (TypeView::Int, TypeView::Float) | (TypeView::Float, TypeView::Int) => TypeView::Float,
            (TypeView::Any, other) => other,
            (other, TypeView::Any) => other,
            (TypeView::Array(ea), TypeView::Array(eb)) => TypeView::Array(
                Box::new(common(*ea, *eb)),
            ),
            _ => TypeView::Union(seq![a, b]),
        }
    }
}

/// The texts of types.
pub open spec fn type_texts(types: Seq<TypeView>) -> Seq<Seq<char>>
    decreases types,
{
    Seq::new(
        types.len(),
        |i: int|
            if 0 <= i < types.len() {
                type_text(types[i])
            } else {
                Seq::empty()
            },
    )
}

/// A type as text.
pub open spec fn type_text(t: TypeView) -> Seq<char>
    decreases t,
{
    match t {
        TypeView::Nil => "nil"@,
        TypeView::Bool => "bool"@,
        TypeView::Int => "int"@,
        TypeView::Float => "float"@,
        TypeView::String => "string"@,
        TypeView::Array(e) => "array<"@ + type_text(*e) + ">"@,
        TypeView::Mapping(k, v) => "map<"@ + type_text(*k) + ", "@ + type_text(*v) + ">"@,
        TypeView::Function(ps, r) => "fn("@ + join_texts(type_texts(ps), ", "@) + ") -> "@
            + type_text(*r),
        TypeView::NodeRef => "noderef"@,
        TypeView::MemoryRef(e) => "memref<"@ + type_text(*e) + ">"@,
        TypeView::AsyncHandle(e) => "async<"@ + type_text(*e) + ">"@,
        TypeView::TypeVar(id) => "T"@ + decimal(id as int),
        TypeView::Union(ts) => "("@ + join_texts(type_texts(ts), " | "@) + ")"@,
        TypeView::Any => "any"@,
        TypeView::Never => "never"@,
    }
}

/// The texts of `types` with `sep` between each two of them.
#[verifier::loop_isolation(false)]
fn join_types(types: &Vec<Type>, sep: &str) -> (text: String)
    ensures
        text@ == join_texts(type_texts(types_view(*types)), sep@),
    decreases types,
{
    let ghost parts = type_texts(types_view(*types));
    let mut text = String::new();
    let mut i: usize = 0;
    assert(parts.take(0) =~= Seq::empty());
    while i < types.len()
        invariant
            i <= types.len(),
            text@ == join_texts(parts.take(i as int), sep@),
        decreases types.len() - i,
    {
        if i > 0 {
            text.append(sep);
        }
        let item = types[i].to_string();
        text.append(item.as_str());
        proof {
            let now = parts.take(i + 1);
            assert(now.drop_last() =~= parts.take(i as int));
            assert(now.last() == item@);
            assert(text@ =~= join_texts(now, sep@));
        }
        i += 1;
    }
    assert(parts.take(i as int) =~= parts);
    text
}

/// Whether one of `types` is compatible with `other`; in reverse order
/// where `flip` says so.
#[verifier::loop_isolation(false)]
fn any_compatible(types: &Vec<Type>, other: &Type, flip: bool, types_first: bool) -> (found: bool)
    ensures
        found == if types_first {
            exists|i: int|
                0 <= i < types_view(*types).len() && compat(
                    #[trigger] types_view(*types)[i],
                    other@,
                    flip,
                )
        } else {
            exists|i: int|
                0 <= i < types_view(*types).len() && compat(
                    other@,
                    #[trigger] types_view(*types)[i],
                    flip,
                )
        },
    decreases
            (if types_first {
                Type::Union(*types)
            } else {
                *other
            }),
            (if types_first {
                *other
            } else {
                Type::Union(*types)
            }),
            0nat,
{
    let ghost views = types_view(*types);
    let mut i: usize = 0;
    while i < types.len()
        invariant
            i <= types.len(),
            forall|j: int|
                0 <= j < i ==> !(if types_first {
                    compat(#[trigger] views[j], other@, flip)
                } else {
                    compat(other@, views[j], flip)
                }),
        decreases types.len() - i,
    {
        let hit = if types_first {
            compatible_types(&types[i], other, flip)
        } else {
            compatible_types(other, &types[i], flip)
        };
        if hit {
            assert(views[i as int] == types@[i as int]@);
            return true;
        }
        i += 1;
    }
    false
}

/// Whether `a` is compatible with `b`; in reverse order where `flip` says
/// so.
#[verifier::loop_isolation(false)]
fn compatible_types(a: &Type, b: &Type, flip: bool) -> (yes: bool)
    ensures
        yes == compat(a@, b@, flip),
    decreases *a, *b, 1nat,
{
    let (x, y) = if flip {
        (b, a)
    } else {
        (a, b)
    };
    if matches!(x, Type::Any) || matches!(y, Type::Any) {
        return true;
    }
    if matches!(x, Type::Never) || matches!(y, Type::Never) {
        return false;
    }
    if x.same(y) {
        return true;
    }
    match (a, b) {
        (Type::Int, Type::Float) | (Type::Float, Type::Int) => true,
        (Type::Array(ea), Type::Array(eb)) => compatible_types(ea, eb, flip),
        (Type::Mapping(ka, va), Type::Mapping(kb, vb)) => compatible_types(ka, kb, flip)
            && compatible_types(va, vb, flip),
        (Type::Function(pa, ra), Type::Function(pb, rb)) => {
            if pa.len() != pb.len() {
                return false;
            }
            let mut i: usize = 0;
            while i < pa.len()
                invariant
                    i <= pa.len(),
                    forall|j: int|
                        0 <= j < i ==> compat(
                            #[trigger] types_view(*pa)[j],
                            types_view(*pb)[j],
                            !flip,
                        ),
                decreases pa.len() - i,
            {
                if !compatible_types(&pa[i], &pb[i], !flip) {
                    assert(!compat(types_view(*pa)[i as int], types_view(*pb)[i as int], !flip));
                    return false;
                }
                i += 1;
            }
            compatible_types(ra, rb, flip)
        },
        (Type::Union(ts), _) => {
            if !flip {
                any_compatible(ts, b, flip, true)
            } else {
                match b {
                    Type::Union(us) => any_compatible(us, a, flip, false),
                    _ => any_compatible(ts, b, flip, true),
                }
            }
        },
        (_, Type::Union(ts)) => any_compatible(ts, a, flip, false),
        _ => false,
    }
}

impl Type {
    /// Whether the type is the same as `other`.
    pub fn same(&self, other: &Type) -> (same: bool)
        ensures
            same == (self@ == other@),
        decreases self,
    {
        match (self, other) {
            (Type::Nil, Type::Nil) => true,
            (Type::Bool, Type::Bool) => true,
            (Type::Int, Type::Int) => true,
            (Type::Float, Type::Float) => true,
            (Type::String, Type::String) => true,
            (Type::Array(a), Type::Array(b)) => a.same(b),
            (Type::Mapping(ka, va), Type::Mapping(kb, vb)) => ka.same(kb) && va.same(vb),
            (Type::Function(pa, ra), Type::Function(pb, rb)) => {
                let params = same_types(pa, pb);
                let result = ra.same(rb);
                assert(self@->Function_0 =~= types_view(*pa));
                assert(other@->Function_0 =~= types_view(*pb));
                params && result
            },
            (Type::NodeRef, Type::NodeRef) => true,
            (Type::MemoryRef(a), Type::MemoryRef(b)) => a.same(b),
            (Type::AsyncHandle(a), Type::AsyncHandle(b)) => a.same(b),
            (Type::TypeVar(a), Type::TypeVar(b)) => *a == *b,
            (Type::Union(a), Type::Union(b)) => same_types(a, b),
            (Type::Any, Type::Any) => true,
            (Type::Never, Type::Never) => true,
            _ => false,
        }
    }

    /// Whether the type is a number: an integer or a float.
    pub fn is_numeric(&self) -> (yes: bool)
        ensures
            yes == (self@ is Int || self@ is Float),
    {
        matches!(self, Type::Int | Type::Float)
    }

    /// Whether the type is one of the five that have no parts.
    pub fn is_primitive(&self) -> (yes: bool)
        ensures
            yes == (self@ is Nil || self@ is Bool || self@ is Int || self@ is Float
                || self@ is String),
    {
        matches!(self, Type::Nil | Type::Bool | Type::Int | Type::Float | Type::String)
    }

    /// Whether the type is that of a reference: to a node, into memory, or
    /// to a computation that completes later.
    pub fn is_reference(&self) -> (yes: bool)
        ensures
            yes == (self@ is NodeRef || self@ is MemoryRef || self@ is AsyncHandle),
    {
        matches!(self, Type::NodeRef | Type::MemoryRef(_) | Type::AsyncHandle(_))
    }

    /// Whether the type is compatible with `other`.
    pub fn is_compatible_with(&self, other: &Type) -> (yes: bool)
        ensures
            yes == compatible(self@, other@),
    {
        compatible_types(self, other, false)
    }

    /// The type that this type and `other` have in common.
    pub fn common_type(&self, other: &Type) -> (found: Option<Type>)
        ensures
            found matches Some(t) && t@ == common(self@, other@),
        decreases self,
    {
        if self.same(other) {
            return Some(self.clone());
        }
        match (self, other) {
            (Type::Int, Type::Float) | (Type::Float, Type::Int) => Some(Type::Float),
            (Type::Any, other) => Some(other.clone()),
            (other, Type::Any) => Some(other.clone()),
            (Type::Array(a), Type::Array(b)) => match a.common_type(b) {
                Some(t) => Some(Type::Array(Box::new(t))),
                None => None,
            },
            _ => {
                let mut both: Vec<Type> = Vec::new();
                both.push(self.clone());
                both.push(other.clone());
                let union = Type::Union(both);
                assert(union@->Union_0 =~= seq![self@, other@]);
                Some(union)
            },
        }
    }

    /// The type as text.
    pub fn to_string(&self) -> (text: String)
        ensures
            text@ == type_text(self@),
        decreases self,
    {
        match self {
            Type::Nil => String::from_str("nil"),
            Type::Bool => String::from_str("bool"),
            Type::Int => String::from_str("int"),
            Type::Float => String::from_str("float"),
            Type::String => String::from_str("string"),
            Type::Array(e) => {
                let mut text = String::from_str("array<");
                text.append(e.to_string().as_str());
                text.append(">");
                text
            },
            Type::Mapping(k, v) => {
                let mut text = String::from_str("map<");
                text.append(k.to_string().as_str());
                text.append(", ");
                text.append(v.to_string().as_str());
                text.append(">");
                text
            },
            Type::Function(ps, r) => {
                let mut text = String::from_str("fn(");
                text.append(join_types(ps, ", ").as_str());
                text.append(") -> ");
                text.append(r.to_string().as_str());
                assert(self@->Function_0 =~= types_view(*ps));
                text
            },
            Type::NodeRef => String::from_str("noderef"),
            Type::MemoryRef(e) => {
                let mut text = String::from_str("memref<");
                text.append(e.to_string().as_str());
                text.append(">");
                text
            },
            Type::AsyncHandle(e) => {
                let mut text = String::from_str("async<");
                text.append(e.to_string().as_str());
                text.append(">");
                text
            },
            Type::TypeVar(id) => {
                let mut text = String::from_str("T");
                text.append(unsigned_text(*id as u64).as_str());
                text
            },
            Type::Union(ts) => {
                let mut text = String::from_str("(");
                text.append(join_types(ts, " | ").as_str());
                text.append(")");
                text
            },
            Type::Any => String::from_str("any"),
            Type::Never => String::from_str("never"),
        }
    }
}

/// What a type variable must be.
#[derive(Debug, Clone, Copy, PartialEq, Eq, Structural)]
pub enum TypeConstraint {
    /// The variable stands for a number.
    Numeric(u32),
    /// Values of the variable can be compared.
    Comparable(u32),
    /// Values of the variable can be tested for equality.
    Equatable(u32),
    /// Values of the variable have a length.
    HasLength(u32),
    /// Values of the variable can be called.
    Callable(u32),
    /// The two variables stand for the same type.
    SameAs(u32, u32),
}

/// What a signature holds.
pub struct SignatureView {
    pub params: Seq<TypeView>,
    pub return_type: TypeView,
    pub type_params: Seq<u32>,
    pub constraints: Seq<TypeConstraint>,
}

/// The signature of a function: its parameters, its result, the type
/// variables it is generic in and what they must be.
#[derive(Debug)]
pub struct TypeSignature {
    pub params: Vec<Type>,
    pub return_type: Type,
    pub type_params: Vec<u32>,
    pub constraints: Vec<TypeConstraint>,
}

impl View for TypeSignature {
    type V = SignatureView;

    open spec fn view(&self) -> SignatureView {
        SignatureView {
            params: types_view(self.params),
            return_type: self.return_type@,
            type_params: self.type_params@,
            constraints: self.constraints@,
        }
    }
}

/// What the bindings of type variables hold.
pub open spec fn bindings_view(bindings: Map<u32, Type>) -> Map<u32, TypeView> {
    Map::new(|id: u32| bindings.contains_key(id), |id: u32| bindings[id]@)
}

/// The types of `types`, resolved.
pub open spec fn resolved_all(bindings: Map<u32, TypeView>, types: Seq<TypeView>, fuel: nat) -> Seq<
    TypeView,
>
    decreases fuel, types,
{
    Seq::new(
        types.len(),
        |i: int|
            if 0 <= i < types.len() {
                resolved(bindings, types[i], fuel)
            } else {
                TypeView::Nil
            },
    )
}

/// A type with its type variables replaced by what they are bound to, and
/// those again, through at most `fuel` bindings in a row. A variable
/// without a binding stays, and so does one that more bindings lead to than
/// `fuel` allows.
pub open spec fn resolved(bindings: Map<u32, TypeView>, t: TypeView, fuel: nat) -> TypeView
    decreases fuel, t,
{
    match t {
        TypeView::TypeVar(id) => if fuel > 0 && bindings.contains_key(id) {
            resolved(bindings, bindings[id], (fuel - 1) as nat)
        } else {
            t
        },
        TypeView::Array(e) => TypeView::Array(Box::new(resolved(bindings, *e, fuel))),
        TypeView::Mapping(k, v) => TypeView::Mapping(
            Box::new(resolved(bindings, *k, fuel)),
            Box::new(resolved(bindings, *v, fuel)),
        ),
        TypeView::Function(ps, r) => TypeView::Function(
            resolved_all(bindings, ps, fuel),
            Box::new(resolved(bindings, *r, fuel)),
        ),
        TypeView::MemoryRef(e) => TypeView::MemoryRef(Box::new(resolved(bindings, *e, fuel))),
        TypeView::AsyncHandle(e) => TypeView::AsyncHandle(Box::new(resolved(bindings, *e, fuel))),
        TypeView::Union(ts) => TypeView::Union(resolved_all(bindings, ts, fuel)),
        _ => t,
    }
}

/// The position of the first signature under `name`, from `from` on.
pub open spec fn signature_from(
    functions: Seq<(Seq<char>, SignatureView)>,
    name: Seq<char>,
    from: int,
) -> Option<int>
    decreases functions.len() - from,
{
    if from < 0 || from >= functions.len() {
        None
    } else if functions[from].0 == name {
        Some(from)
    } else {
        signature_from(functions, name, from + 1)
    }
}

/// The signatures with `signature` under `name`: in the place of the first
/// under that name, or behind the last where there is none.
pub open spec fn with_signature(
    functions: Seq<(Seq<char>, SignatureView)>,
    name: Seq<char>,
    signature: SignatureView,
) -> Seq<(Seq<char>, SignatureView)> {
    match signature_from(functions, name, 0) {
        Some(i) => functions.update(i, (name, signature)),
        None => functions.push((name, signature)),
    }
}

/// What a list of named signatures holds.
pub open spec fn functions_view(functions: Seq<(String, TypeSignature)>) -> Seq<
    (Seq<char>, SignatureView),
> {
    Seq::new(functions.len(), |i: int| (functions[i].0@, functions[i].1@))
}

/// The signature of a function of one type variable, 0.
pub open spec fn generic_signature(
    params: Seq<TypeView>,
    return_type: TypeView,
    constraints: Seq<TypeConstraint>,
) -> SignatureView {
    SignatureView { params, return_type, type_params: seq![0u32], constraints }
}

/// The signatures with those of the five built-in functions: `add` of two
/// numbers of one type, `eq` of two values of one type that can be tested
/// for equality, `array_get` of an array and an integer, `alloc` of a size
/// and an initial value, and `async_begin`.
pub open spec fn with_builtins(functions: Seq<(Seq<char>, SignatureView)>) -> Seq<
    (Seq<char>, SignatureView),
> {
    let t = TypeView::TypeVar(0);
    let f1 = with_signature(
        functions,
        "add"@,
        generic_signature(seq![t, t], t, seq![TypeConstraint::Numeric(0)]),
    );
    let f2 = with_signature(
        f1,
        "eq"@,
        generic_signature(seq![t, t], TypeView::Bool, seq![TypeConstraint::Equatable(0)]),
    );
    let f3 = with_signature(
        f2,
        "array_get"@,
        generic_signature(seq![TypeView::Array(Box::new(t)), TypeView::Int], t, Seq::empty()),
    );
    let f4 = with_signature(
        f3,
        "alloc"@,
        generic_signature(
            seq![TypeView::Int, t],
            TypeView::MemoryRef(Box::new(t)),
            Seq::empty(),
        ),
    );
    with_signature(
        f4,
        "async_begin"@,
        generic_signature(Seq::empty(), TypeView::AsyncHandle(Box::new(t)), Seq::empty()),
    )
}

/// The types that are known: those of variables and of functions by name,
/// and the bindings of type variables.
#[derive(Debug)]
pub struct TypeEnvironment {
    pub variables: Vec<(String, Type)>,
    pub functions: Vec<(String, TypeSignature)>,
    pub type_vars: HashMap<u32, Type>,
    next_type_var: u32,
}

/// The types `a` and `b`, as a list.
fn pair_of(a: Type, b: Type) -> (both: Vec<Type>)
    ensures
        types_view(both) == seq![a@, b@],
{
    let mut both: Vec<Type> = Vec::new();
    both.push(a);
    both.push(b);
    assert(types_view(both) =~= seq![a@, b@]);
    both
}

/// A signature of one type variable, 0.
fn signature_of(params: Vec<Type>, return_type: Type, constraints: Vec<TypeConstraint>) -> (s:
    TypeSignature)
    ensures
        s@ == generic_signature(types_view(params), return_type@, constraints@),
{
    let mut type_params: Vec<u32> = Vec::new();
    type_params.push(0);
    assert(type_params@ =~= seq![0u32]);
    TypeSignature { params, return_type, type_params, constraints }
}

impl TypeEnvironment {
    /// The number of the next type variable.
    pub closed spec fn next_var(&self) -> u32 {
        self.next_type_var
    }

    /// The signatures of the functions that are known, by name.
    pub closed spec fn signatures(&self) -> Seq<(Seq<char>, SignatureView)> {
        functions_view(self.functions@)
    }

    /// What the type variables are bound to.
    pub closed spec fn bindings(&self) -> Map<u32, TypeView> {
        bindings_view(self.type_vars@)
    }

    /// How many type variables are bound.
    pub open spec fn binding_count(&self) -> nat {
        self.bindings().dom().len()
    }

    /// The types of the variables that are known, by name.
    pub closed spec fn variable_types(&self) -> Seq<(Seq<char>, TypeView)> {
        Seq::new(self.variables@.len(), |i: int| (self.variables@[i].0@, self.variables@[i].1@))
    }

    /// The environment that knows nothing.
    pub fn new() -> (env: TypeEnvironment)
        ensures
            env.variable_types() == Seq::<(Seq<char>, TypeView)>::empty(),
            env.signatures() == Seq::<(Seq<char>, SignatureView)>::empty(),
            env.bindings() == Map::<u32, TypeView>::empty(),
            env.binding_count() == 0,
            env.next_var() == 0,
    {
        let env = TypeEnvironment {
            variables: Vec::new(),
            functions: Vec::new(),
            type_vars: HashMap::new(),
            next_type_var: 0,
        };
        assert(env.variable_types() =~= Seq::empty());
        assert(env.signatures() =~= Seq::empty());
        assert(env.bindings() =~= Map::empty());
        env
    }

    /// Whether another type variable can be handed out: the numbers are
    /// not used up.
    pub fn can_new_type_var(&self) -> (yes: bool)
        ensures
            yes == (self.next_var() < u32::MAX),
    {
        self.next_type_var < u32::MAX
    }

    /// A type variable that was not handed out before.
    pub fn new_type_var(&mut self) -> (var: Type)
        requires
            old(self).next_var() < u32::MAX,
        ensures
            var@ == TypeView::TypeVar(old(self).next_var()),
            final(self).next_var() == old(self).next_var() + 1,
            final(self).variable_types() == old(self).variable_types(),
            final(self).signatures() == old(self).signatures(),
            final(self).bindings() == old(self).bindings(),
    {
        let var = Type::TypeVar(self.next_type_var);
        self.next_type_var = self.next_type_var + 1;
        var
    }

    /// Binds the type variable `var_id` to `ty`, in the place of what it was
    /// bound to.
    pub fn bind_type_var(&mut self, var_id: u32, ty: Type)
        ensures
            final(self).bindings() == old(self).bindings().insert(var_id, ty@),
            final(self).binding_count() == if old(self).bindings().contains_key(var_id) {
                old(self).binding_count()
            } else {
                old(self).binding_count() + 1
            },
            final(self).next_var() == old(self).next_var(),
            final(self).variable_types() == old(self).variable_types(),
            final(self).signatures() == old(self).signatures(),
    {
        let ghost before = bindings_view(self.type_vars@);
        assert(before.dom() =~= self.type_vars@.dom());
        self.type_vars.insert(var_id, ty);
        assert(bindings_view(self.type_vars@) =~= before.insert(var_id, ty@));
        assert(before.insert(var_id, ty@).dom() =~= before.dom().insert(var_id));
    }

    /// The types of `types`, resolved.
    #[verifier::loop_isolation(false)]
    fn resolve_all(&self, types: &Vec<Type>, fuel: usize) -> (out: Vec<Type>)
        ensures
            types_view(out) == resolved_all(
                bindings_view(self.type_vars@),
                types_view(*types),
                fuel as nat,
            ),
        decreases fuel, types,
    {
        let ghost wanted = resolved_all(
            bindings_view(self.type_vars@),
            types_view(*types),
            fuel as nat,
        );
        let mut out: Vec<Type> = Vec::new();
        let mut i: usize = 0;
        while i < types.len()
            invariant
                i <= types.len(),
                out.len() == i,
                forall|j: int| 0 <= j < i ==> out@[j]@ == wanted[j],
            decreases types.len() - i,
        {
            let ghost t = types@[i as int];
            assert(types_view(*types)[i as int] == t@);
            out.push(self.resolve_with(&types[i], fuel));
            i += 1;
        }
        assert(types_view(out) =~= wanted);
        out
    }

    /// `ty` resolved through at most `fuel` bindings in a row.
    fn resolve_with(&self, ty: &Type, fuel: usize) -> (r: Type)
        ensures
            r@ == resolved(bindings_view(self.type_vars@), ty@, fuel as nat),
        decreases fuel, ty,
    {
        match ty {
            Type::TypeVar(id) => {
                if fuel > 0 {
                    match self.type_vars.get(id) {
                        Some(bound) => self.resolve_with(bound, fuel - 1),
                        None => ty.clone(),
                    }
                } else {
                    ty.clone()
                }
            },
            Type::Array(e) => Type::Array(Box::new(self.resolve_with(e, fuel))),
            Type::Mapping(k, v) => Type::Mapping(
                Box::new(self.resolve_with(k, fuel)),
                Box::new(self.resolve_with(v, fuel)),
            ),
            Type::Function(ps, r) => {
                assert(ty@->Function_0 =~= types_view(*ps));
                let params = self.resolve_all(ps, fuel);
                let out = Type::Function(params, Box::new(self.resolve_with(r, fuel)));
                assert(out@->Function_0 =~= types_view(params));
                out
            },
            Type::MemoryRef(e) => Type::MemoryRef(Box::new(self.resolve_with(e, fuel))),
            Type::AsyncHandle(e) => Type::AsyncHandle(Box::new(self.resolve_with(e, fuel))),
            Type::Union(ts) => Type::Union(self.resolve_all(ts, fuel)),
            _ => ty.clone(),
        }
    }

    /// `ty` with its type variables replaced by what they are bound to, and
    /// those again. No more bindings are followed in a row than there are
    /// bindings: a variable that is bound in a circle stays.
    pub fn resolve_type(&self, ty: &Type) -> (r: Type)
        ensures
            r@ == resolved(self.bindings(), ty@, self.bindings().dom().len()),
    {
        assert(self.bindings().dom() =~= self.type_vars@.dom());
        self.resolve_with(ty, self.type_vars.len())
    }

    /// Puts `signature` under `name`, in the place of what was there.
    pub fn set_function(&mut self, name: &str, signature: TypeSignature)
        ensures
            final(self).signatures() == with_signature(old(self).signatures(), name@, signature@),
            final(self).next_var() == old(self).next_var(),
            final(self).variable_types() == old(self).variable_types(),
            final(self).bindings() == old(self).bindings(),
            final(self).binding_count() == old(self).binding_count(),
    {
        let ghost before = functions_view(self.functions@);
        let key = String::from_str(name);
        let mut i: usize = 0;
        while i < self.functions.len()
            invariant
                i <= self.functions.len(),
                *self == *old(self),
                before == functions_view(self.functions@),
                key@ == name@,
                signature_from(before, name@, 0) == signature_from(before, name@, i as int),
            decreases self.functions.len() - i,
        {
            if self.functions[i].0 == key {
                self.functions.set(i, (key, signature));
                assert(functions_view(self.functions@) =~= before.update(
                    i as int,
                    (name@, signature@),
                ));
                return ;
            }
            i += 1;
        }
        self.functions.push((key, signature));
        assert(functions_view(self.functions@) =~= before.push((name@, signature@)));
    }

    /// Makes the five built-in functions known.
    pub fn add_builtin_functions(&mut self)
        ensures
            final(self).signatures() == with_builtins(old(self).signatures()),
            final(self).next_var() == old(self).next_var(),
            final(self).variable_types() == old(self).variable_types(),
            final(self).bindings() == old(self).bindings(),
            final(self).binding_count() == old(self).binding_count(),
    {
        let mut numeric: Vec<TypeConstraint> = Vec::new();
        numeric.push(TypeConstraint::Numeric(0));
        assert(numeric@ =~= seq![TypeConstraint::Numeric(0)]);
        self.set_function(
            "add",
            signature_of(pair_of(Type::TypeVar(0), Type::TypeVar(0)), Type::TypeVar(0), numeric),
        );
        let mut equatable: Vec<TypeConstraint> = Vec::new();
        equatable.push(TypeConstraint::Equatable(0));
        assert(equatable@ =~= seq![TypeConstraint::Equatable(0)]);
        self.set_function(
            "eq",
            signature_of(pair_of(Type::TypeVar(0), Type::TypeVar(0)), Type::Bool, equatable),
        );
        self.set_function(
            "array_get",
            signature_of(
                pair_of(Type::Array(Box::new(Type::TypeVar(0))), Type::Int),
                Type::TypeVar(0),
                Vec::new(),
            ),
        );
        self.set_function(
            "alloc",
            signature_of(
                pair_of(Type::Int, Type::TypeVar(0)),
                Type::MemoryRef(Box::new(Type::TypeVar(0))),
                Vec::new(),
            ),
        );
        let none: Vec<Type> = Vec::new();
        assert(types_view(none) =~= Seq::empty());
        self.set_function(
            "async_begin",
            signature_of(none, Type::AsyncHandle(Box::new(Type::TypeVar(0))), Vec::new()),
        );
    }
}

/// Whether the type variable `v` occurs in `t`.
pub open spec fn mentions(t: TypeView, v: u32) -> bool
    decreases t,
{
    match t {
        TypeView::TypeVar(id) => id == v,
        TypeView::Array(e) => mentions(*e, v),
        TypeView::Mapping(k, e) => mentions(*k, v) || mentions(*e, v),
        TypeView::Function(ps, r) => mentions(*r, v) || exists|i: int|
            0 <= i < ps.len() && mentions(#[trigger] ps[i], v),
        TypeView::MemoryRef(e) => mentions(*e, v),
        TypeView::AsyncHandle(e) => mentions(*e, v),
        TypeView::Union(ts) => exists|i: int| 0 <= i < ts.len() && mentions(#[trigger] ts[i], v),
        _ => false,
    }
}

/// Whether no bound type variable occurs in `t`.
pub open spec fn is_resolved(bindings: Map<u32, TypeView>, t: TypeView) -> bool {
    forall|v: u32| #[trigger] mentions(t, v) ==> !bindings.contains_key(v)
}

/// Whether `rank` numbers the bound variables such that every binding
/// names only bound variables of a lower number. Bindings have such a
/// numbering exactly when no variable reaches itself through them.
pub open spec fn ranked(bindings: Map<u32, TypeView>, rank: spec_fn(u32) -> nat) -> bool {
    forall|id: u32, v: u32|
        bindings.contains_key(id) && bindings.contains_key(v) && #[trigger] mentions(
            bindings[id],
            v,
        ) ==> rank(v) < rank(id)
}

/// A type without bound variables resolves to itself, whatever the
/// bindings.
pub proof fn lemma_resolved_stays(bindings: Map<u32, TypeView>, t: TypeView, fuel: nat)
    requires
        is_resolved(bindings, t),
    ensures
        resolved(bindings, t, fuel) == t,
    decreases t,
{
    match t {
        TypeView::TypeVar(id) => {
            assert(mentions(t, id));
        },
        TypeView::Array(e) => {
            assert forall|v: u32| mentions(*e, v) implies !bindings.contains_key(v) by {
                assert(mentions(t, v));
            }
            lemma_resolved_stays(bindings, *e, fuel);
        },
        TypeView::Mapping(k, e) => {
            assert forall|v: u32| mentions(*k, v) implies !bindings.contains_key(v) by {
                assert(mentions(t, v));
            }
            assert forall|v: u32| mentions(*e, v) implies !bindings.contains_key(v) by {
                assert(mentions(t, v));
            }
            lemma_resolved_stays(bindings, *k, fuel);
            lemma_resolved_stays(bindings, *e, fuel);
        },
        TypeView::Function(ps, r) => {
            assert forall|v: u32| mentions(*r, v) implies !bindings.contains_key(v) by {
                assert(mentions(t, v));
            }
            lemma_resolved_stays(bindings, *r, fuel);
            lemma_all_resolved_stay(bindings, ps, fuel, t);
        },
        TypeView::MemoryRef(e) => {
            assert forall|v: u32| mentions(*e, v) implies !bindings.contains_key(v) by {
                assert(mentions(t, v));
            }
            lemma_resolved_stays(bindings, *e, fuel);
        },
        TypeView::AsyncHandle(e) => {
            assert forall|v: u32| mentions(*e, v) implies !bindings.contains_key(v) by {
                assert(mentions(t, v));
            }
            lemma_resolved_stays(bindings, *e, fuel);
        },
        TypeView::Union(ts) => {
            lemma_all_resolved_stay(bindings, ts, fuel, t);
        },
        _ => {},
    }
}

/// The parts of a type without bound variables resolve to themselves.
proof fn lemma_all_resolved_stay(
    bindings: Map<u32, TypeView>,
    types: Seq<TypeView>,
    fuel: nat,
    whole: TypeView,
)
    requires
        is_resolved(bindings, whole),
        (whole matches TypeView::Function(ps, _) && ps == types) || (whole matches TypeView::Union(
            ts,
        ) && ts == types),
    ensures
        resolved_all(bindings, types, fuel) == types,
    decreases whole, 0nat,
{
    assert forall|i: int| 0 <= i < types.len() implies resolved(bindings, #[trigger] types[i], fuel)
        == types[i] by {
        assert forall|v: u32| mentions(types[i], v) implies !bindings.contains_key(v) by {
            assert(mentions(whole, v));
        }
        lemma_resolved_stays(bindings, types[i], fuel);
    }
    assert(resolved_all(bindings, types, fuel) =~= types);
}

/// Resolving leaves no bound variable, where the bindings can be numbered
/// and the nesting allowed covers the numbers of the bound variables in the
/// type.
pub proof fn lemma_resolved_is_resolved(
    bindings: Map<u32, TypeView>,
    rank: spec_fn(u32) -> nat,
    t: TypeView,
    fuel: nat,
)
    requires
        ranked(bindings, rank),
        forall|v: u32| mentions(t, v) && bindings.contains_key(v) ==> rank(v) < fuel,
    ensures
        is_resolved(bindings, resolved(bindings, t, fuel)),
    decreases fuel, t,
{
    match t {
        TypeView::TypeVar(id) => {
            assert(mentions(t, id));
            if fuel > 0 && bindings.contains_key(id) {
                assert forall|v: u32|
                    mentions(bindings[id], v) && bindings.contains_key(v) implies rank(v) < fuel
                    - 1 by {
                    assert(rank(v) < rank(id));
                }
                lemma_resolved_is_resolved(bindings, rank, bindings[id], (fuel - 1) as nat);
            }
        },
        TypeView::Array(e) => {
            assert forall|v: u32| mentions(*e, v) && bindings.contains_key(v) implies rank(v)
                < fuel by {
                assert(mentions(t, v));
            }
            lemma_resolved_is_resolved(bindings, rank, *e, fuel);
            assert forall|v: u32| mentions(resolved(bindings, t, fuel), v) implies !bindings.contains_key(
                v,
            ) by {
                if mentions(resolved(bindings, *e, fuel), v) {
                    assert(!bindings.contains_key(v));
                }
            }
        },
        TypeView::Mapping(k, e) => {
            assert forall|v: u32| mentions(*k, v) && bindings.contains_key(v) implies rank(v)
                < fuel by {
                assert(mentions(t, v));
            }
            assert forall|v: u32| mentions(*e, v) && bindings.contains_key(v) implies rank(v)
                < fuel by {
                assert(mentions(t, v));
            }
            lemma_resolved_is_resolved(bindings, rank, *k, fuel);
            lemma_resolved_is_resolved(bindings, rank, *e, fuel);
            assert forall|v: u32| mentions(resolved(bindings, t, fuel), v) implies !bindings.contains_key(
                v,
            ) by {
                if mentions(resolved(bindings, *k, fuel), v) {
                    assert(!bindings.contains_key(v));
                }
                if mentions(resolved(bindings, *e, fuel), v) {
                    assert(!bindings.contains_key(v));
                }
            }
        },
        TypeView::Function(ps, r) => {
            assert forall|v: u32| mentions(*r, v) && bindings.contains_key(v) implies rank(v)
                < fuel by {
                assert(mentions(t, v));
            }
            lemma_resolved_is_resolved(bindings, rank, *r, fuel);
            lemma_all_resolved_are_resolved(bindings, rank, ps, fuel, t);
            assert forall|v: u32| mentions(resolved(bindings, t, fuel), v) implies !bindings.contains_key(
                v,
            ) by {
                let rs = resolved_all(bindings, ps, fuel);
                if mentions(resolved(bindings, *r, fuel), v) {
                    assert(!bindings.contains_key(v));
                } else {
                    let i = choose|i: int| 0 <= i < rs.len() && mentions(#[trigger] rs[i], v);
                    assert(is_resolved(bindings, rs[i]));
                }
            }
        },
        TypeView::MemoryRef(e) => {
            assert forall|v: u32| mentions(*e, v) && bindings.contains_key(v) implies rank(v)
                < fuel by {
                assert(mentions(t, v));
            }
            lemma_resolved_is_resolved(bindings, rank, *e, fuel);
            assert forall|v: u32| mentions(resolved(bindings, t, fuel), v) implies !bindings.contains_key(
                v,
            ) by {
                if mentions(resolved(bindings, *e, fuel), v) {
                    assert(!bindings.contains_key(v));
                }
            }
        },
        TypeView::AsyncHandle(e) => {
            assert forall|v: u32| mentions(*e, v) && bindings.contains_key(v) implies rank(v)
                < fuel by {
                assert(mentions(t, v));
            }
            lemma_resolved_is_resolved(bindings, rank, *e, fuel);
            assert forall|v: u32| mentions(resolved(bindings, t, fuel), v) implies !bindings.contains_key(
                v,
            ) by {
                if mentions(resolved(bindings, *e, fuel), v) {
                    assert(!bindings.contains_key(v));
                }
            }
        },
        TypeView::Union(ts) => {
            lemma_all_resolved_are_resolved(bindings, rank, ts, fuel, t);
            assert forall|v: u32| mentions(resolved(bindings, t, fuel), v) implies !bindings.contains_key(
                v,
            ) by {
                let rs = resolved_all(bindings, ts, fuel);
                let i = choose|i: int| 0 <= i < rs.len() && mentions(#[trigger] rs[i], v);
                assert(is_resolved(bindings, rs[i]));
            }
        },
        _ => {},
    }
}

/// Resolving the parts of a type leaves no bound variable in them.
proof fn lemma_all_resolved_are_resolved(
    bindings: Map<u32, TypeView>,
    rank: spec_fn(u32) -> nat,
    types: Seq<TypeView>,
    fuel: nat,
    whole: TypeView,
)
    requires
        ranked(bindings, rank),
        forall|v: u32| mentions(whole, v) && bindings.contains_key(v) ==> rank(v) < fuel,
        (whole matches TypeView::Function(ps, _) && ps == types) || (whole matches TypeView::Union(
            ts,
        ) && ts == types),
    ensures
        forall|i: int|
            0 <= i < types.len() ==> is_resolved(
                bindings,
                #[trigger] resolved_all(bindings, types, fuel)[i],
            ),
    decreases fuel, whole, 0nat,
{
    assert forall|i: int| 0 <= i < types.len() implies is_resolved(
        bindings,
        #[trigger] resolved_all(bindings, types, fuel)[i],
    ) by {
        assert forall|w: u32| mentions(types[i], w) && bindings.contains_key(w) implies rank(w)
            < fuel by {
            assert(mentions(whole, w));
        }
        lemma_resolved_is_resolved(bindings, rank, types[i], fuel);
    }
}

/// Resolving resolves, once and for all. Where no variable reaches itself
/// through the bindings, so that the bound variables can be numbered below
/// the number of bindings with every binding naming only lower numbers,
/// the type that `resolve_type` gives holds no bound variable, and
/// resolving it again gives the same type.
pub proof fn lemma_resolve_is_idempotent(
    bindings: Map<u32, TypeView>,
    rank: spec_fn(u32) -> nat,
    t: TypeView,
)
    requires
        ranked(bindings, rank),
        forall|v: u32| bindings.contains_key(v) ==> #[trigger] rank(v) < bindings.dom().len(),
    ensures
        is_resolved(bindings, resolved(bindings, t, bindings.dom().len())),
        resolved(bindings, resolved(bindings, t, bindings.dom().len()), bindings.dom().len())
            == resolved(bindings, t, bindings.dom().len()),
{
    let fuel = bindings.dom().len();
    lemma_resolved_is_resolved(bindings, rank, t, fuel);
    lemma_resolved_stays(bindings, resolved(bindings, t, fuel), fuel);
}

} // verus!
