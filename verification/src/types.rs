//! Resolved types and generic substitution.
//!
//! A [`Type`] is the concrete outcome of resolving a signature token:
//! primitives, a resolved struct instantiation, a reference wrapping an
//! inner type, or a still-abstract type parameter.  A [`TypeContext`] binds
//! generic type-parameter positions to concrete types at one instantiation
//! site; substituting a context into a struct's base definition yields the
//! concrete instantiation used at that site.

use vstd::prelude::*;
use crate::errors::{StatusCode, VMResult, VMStatus};

verus! {

broadcast use vstd::seq::group_seq_axioms, vstd::std_specs::vec::group_vec_axioms;

/// A built-in type descriptor handed out by the native-type registry.
#[derive(Clone, Copy, PartialEq, Eq, Structural, Debug)]
pub struct NativeStructType {
    pub tag: u64,
}

/// A concrete, resolved type.
#[derive(Debug)]
pub enum Type {
    Bool,
    U64,
    String,
    ByteArray,
    Address,
    Struct(StructDef),
    Reference(Box<Type>),
    MutableReference(Box<Type>),
    TypeVariable(u16),
}

/// The fully resolved shape of a struct: the ordered list of its resolved
/// field types, or the native descriptor for a built-in struct.  The shape
/// is independent of any particular instantiation site; type parameters
/// inside it stay abstract until substituted.
#[derive(Debug)]
pub enum StructDef {
    Declared(Vec<Type>),
    Native(NativeStructType),
}

/// The mathematical value of a `Type`.
pub enum TypeV {
    Bool,
    U64,
    String,
    ByteArray,
    Address,
    Struct(StructDefV),
    Reference(Box<TypeV>),
    MutableReference(Box<TypeV>),
    TypeVariable(u16),
}

/// The mathematical value of a `StructDef`.
pub enum StructDefV {
    Declared(Seq<TypeV>),
    Native(NativeStructType),
}

impl Type {
    /// The mathematical value of the type.
    pub open spec fn type_view(&self) -> TypeV
        decreases self,
    {
        match self {
            Type::Bool => TypeV::Bool,
            Type::U64 => TypeV::U64,
            Type::String => TypeV::String,
            Type::ByteArray => TypeV::ByteArray,
            Type::Address => TypeV::Address,
            Type::Struct(def) => TypeV::Struct(def.def_view()),
            Type::Reference(inner) => TypeV::Reference(Box::new(inner.type_view())),
            Type::MutableReference(inner) => {
                TypeV::MutableReference(Box::new(inner.type_view()))
            }
            Type::TypeVariable(idx) => TypeV::TypeVariable(*idx),
        }
    }
}

impl StructDef {
    /// The mathematical value of the struct shape.
    pub open spec fn def_view(&self) -> StructDefV
        decreases self,
    {
        match self {
            StructDef::Declared(fields) => StructDefV::Declared(types_view(fields@)),
            StructDef::Native(native) => StructDefV::Native(*native),
        }
    }

    /// The fully resolved shape of a field-defined struct.
    pub fn new(field_types: Vec<Type>) -> (r: StructDef)
        ensures
            r.def_view() == StructDefV::Declared(types_view(field_types@)),
    {
        StructDef::Declared(field_types)
    }
}

/// The mathematical values of a list of types, in order.
pub open spec fn types_view(types: Seq<Type>) -> Seq<TypeV>
    decreases types,
{
    if types.len() == 0 {
        Seq::empty()
    } else {
        types_view(types.drop_last()).push(types.last().type_view())
    }
}

/// `types_view` maps each type of the list to its value, keeping the order.
pub proof fn lemma_types_view(types: Seq<Type>)
    ensures
        types_view(types).len() == types.len(),
        forall|i: int| 0 <= i < types.len()
            ==> #[trigger] types_view(types)[i] == types[i].type_view(),
    decreases types.len(),
{
    if types.len() > 0 {
        lemma_types_view(types.drop_last());
    }
}

impl Type {
    /// A structurally identical copy of the type.
    #[verifier::loop_isolation(false)]
    pub fn duplicate(&self) -> (r: Type)
        ensures
            r.type_view() == self.type_view(),
        decreases self,
    {
        match self {
            Type::Bool => Type::Bool,
            Type::U64 => Type::U64,
            Type::String => Type::String,
            Type::ByteArray => Type::ByteArray,
            Type::Address => Type::Address,
            Type::Struct(def) => Type::Struct(def.duplicate()),
            Type::Reference(inner) => Type::Reference(Box::new(inner.duplicate())),
            Type::MutableReference(inner) => {
                Type::MutableReference(Box::new(inner.duplicate()))
            }
            Type::TypeVariable(idx) => Type::TypeVariable(*idx),
        }
    }
}

impl StructDef {
    /// A structurally identical copy of the struct shape.
    #[verifier::loop_isolation(false)]
    pub fn duplicate(&self) -> (r: StructDef)
        ensures
            r.def_view() == self.def_view(),
        decreases self,
    {
        match self {
            StructDef::Native(native) => StructDef::Native(*native),
            StructDef::Declared(fields) => {
                let mut copies: Vec<Type> = Vec::new();
                let n = fields.len();
                for i in 0..n
                    invariant
                        copies@.len() == i,
                        n == fields@.len(),
                        forall|j: int| 0 <= j < i
                            ==> #[trigger] copies@[j].type_view() == fields@[j].type_view(),
                {
                    proof {
                        assert(decreases_to!(*self => *fields));
                        assert(decreases_to!(*fields => fields@[i as int]));
                    }
                    copies.push(fields[i].duplicate());
                }
                proof {
                    lemma_types_view(copies@);
                    lemma_types_view(fields@);
                    assert(types_view(copies@) =~= types_view(fields@));
                }
                StructDef::Declared(copies)
            }
        }
    }
}

/// An ordered substitution environment: position `i` of the list is the
/// concrete type bound to type parameter `i` at one instantiation site.
#[derive(Debug)]
pub struct TypeContext {
    pub types: Vec<Type>,
}

impl View for TypeContext {
    type V = Seq<TypeV>;

    open spec fn view(&self) -> Seq<TypeV> {
        types_view(self.types@)
    }
}

/// What substituting a context into a type yields: the type with every
/// in-range type variable replaced by its binding, and a resolution fault
/// for a variable outside the context.
pub open spec fn spec_subst_type(ctx: Seq<TypeV>, t: TypeV) -> Result<TypeV, VMStatus>
    decreases t,
{
    match t {
        TypeV::Bool => Ok(TypeV::Bool),
        TypeV::U64 => Ok(TypeV::U64),
        TypeV::String => Ok(TypeV::String),
        TypeV::ByteArray => Ok(TypeV::ByteArray),
        TypeV::Address => Ok(TypeV::Address),
        TypeV::Struct(def) => match spec_subst_def(ctx, def) {
            Ok(d) => Ok(TypeV::Struct(d)),
            Err(e) => Err(e),
        },
        TypeV::Reference(inner) => match spec_subst_type(ctx, *inner) {
            Ok(s) => Ok(TypeV::Reference(Box::new(s))),
            Err(e) => Err(e),
        },
        TypeV::MutableReference(inner) => match spec_subst_type(ctx, *inner) {
            Ok(s) => Ok(TypeV::MutableReference(Box::new(s))),
            Err(e) => Err(e),
        },
        TypeV::TypeVariable(idx) => if 0 <= idx < ctx.len() {
            Ok(ctx[idx as int])
        } else {
            Err(VMStatus { major: StatusCode::TypeResolutionFailure })
        },
    }
}

/// Substitution over a list of types, in order, stopping at the first fault.
pub open spec fn spec_subst_types(ctx: Seq<TypeV>, types: Seq<TypeV>) -> Result<
    Seq<TypeV>,
    VMStatus,
>
    decreases types,
{
    if types.len() == 0 {
        Ok(Seq::empty())
    } else {
        match spec_subst_type(ctx, types.first()) {
            Err(e) => Err(e),
            Ok(t) => match spec_subst_types(ctx, types.drop_first()) {
                Err(e) => Err(e),
                Ok(rest) => Ok(seq![t] + rest),
            },
        }
    }
}

/// Substitution over a struct shape: native shapes are untouched, declared
/// shapes have the context substituted into every field type.
pub open spec fn spec_subst_def(ctx: Seq<TypeV>, def: StructDefV) -> Result<StructDefV, VMStatus>
    decreases def,
{
    match def {
        StructDefV::Native(native) => Ok(StructDefV::Native(native)),
        StructDefV::Declared(fields) => match spec_subst_types(ctx, fields) {
            Ok(subs) => Ok(StructDefV::Declared(subs)),
            Err(e) => Err(e),
        },
    }
}

/// Extending an all-good prefix by one element extends its substitution,
/// and a faulting element makes the whole prefix fault with its error.
pub proof fn lemma_subst_types_extend(ctx: Seq<TypeV>, types: Seq<TypeV>, i: int)
    requires
        0 <= i < types.len(),
    ensures
        (spec_subst_types(ctx, types.take(i)) matches Ok(p) ==> {
            &&& spec_subst_type(ctx, types[i]) matches Ok(t)
                ==> spec_subst_types(ctx, types.take(i + 1)) == Ok::<_, VMStatus>(p.push(t))
            &&& spec_subst_type(ctx, types[i]) matches Err(e)
                ==> spec_subst_types(ctx, types.take(i + 1)) == Err::<Seq<TypeV>, _>(e)
        }),
    decreases i,
{
    if i == 0 {
        assert(types.take(0).len() == 0);
        assert(types.take(1).first() == types[0]);
        assert(types.take(1).drop_first() =~= types.take(0));
        if spec_subst_type(ctx, types[0]) is Ok {
            let t = spec_subst_type(ctx, types[0])->Ok_0;
            assert(seq![t] + Seq::empty() =~= Seq::empty().push(t));
        }
    } else {
        lemma_subst_types_extend(ctx, types.drop_first(), i - 1);
        assert(types.take(i).first() == types[0]);
        assert(types.take(i).drop_first() =~= types.drop_first().take(i - 1));
        assert(types.take(i + 1).first() == types[0]);
        assert(types.take(i + 1).drop_first() =~= types.drop_first().take(i));
        assert(types.drop_first()[i - 1] == types[i]);
        if spec_subst_type(ctx, types[0]) is Ok
            && spec_subst_types(ctx, types.drop_first().take(i - 1)) is Ok
            && spec_subst_type(ctx, types[i]) is Ok {
            let h = spec_subst_type(ctx, types[0])->Ok_0;
            let q = spec_subst_types(ctx, types.drop_first().take(i - 1))->Ok_0;
            let t = spec_subst_type(ctx, types[i])->Ok_0;
            assert(seq![h] + q.push(t) =~= (seq![h] + q).push(t));
        }
    }
}

/// A fault in a prefix of the list is the fault of the whole list.
pub proof fn lemma_subst_types_prefix_err(ctx: Seq<TypeV>, types: Seq<TypeV>, k: int)
    requires
        0 <= k <= types.len(),
        spec_subst_types(ctx, types.take(k)) is Err,
    ensures
        spec_subst_types(ctx, types) == spec_subst_types(ctx, types.take(k)),
    decreases k,
{
    assert(k > 0);
    assert(types.take(k).first() == types.first());
    assert(types.take(k).drop_first() =~= types.drop_first().take(k - 1));
    if spec_subst_type(ctx, types.first()) is Ok {
        lemma_subst_types_prefix_err(ctx, types.drop_first(), k - 1);
    }
}

/// Generic substitution on a one-parameter declaration: substituting a
/// context that binds the single type parameter into the shape of a struct
/// whose sole field is that parameter yields the shape whose sole field is
/// the bound type, whatever that type is.
pub proof fn lemma_single_field_substitution(arg: TypeV)
    ensures
        spec_subst_def(seq![arg], StructDefV::Declared(seq![TypeV::TypeVariable(0)]))
            == Ok::<StructDefV, VMStatus>(StructDefV::Declared(seq![arg])),
{
    let ctx = seq![arg];
    let fields = seq![TypeV::TypeVariable(0)];
    assert(spec_subst_type(ctx, fields.first()) == Ok::<TypeV, VMStatus>(arg));
    assert(fields.drop_first() =~= Seq::<TypeV>::empty());
    assert(spec_subst_types(ctx, fields.drop_first())
        == Ok::<Seq<TypeV>, VMStatus>(Seq::empty()));
    assert(seq![arg] + Seq::<TypeV>::empty() =~= seq![arg]);
}

impl TypeContext {
    /// A concrete substitution built from resolved type arguments.
    pub fn new(types: Vec<Type>) -> (r: TypeContext)
        ensures
            r@ == types_view(types@),
    {
        TypeContext { types }
    }

    /// The identity substitution for a declaration of `arity` type
    /// parameters: each position maps to itself.  Used while resolving a
    /// struct's own declaration rather than a use site.
    #[verifier::loop_isolation(false)]
    pub fn identity_mapping(arity: u16) -> (r: TypeContext)
        ensures
            r@.len() == arity,
            forall|i: int| 0 <= i < arity ==> r@[i] == TypeV::TypeVariable(i as u16),
    {
        let mut types: Vec<Type> = Vec::new();
        for i in 0..arity
            invariant
                types@.len() == i,
                forall|j: int| 0 <= j < i
                    ==> #[trigger] types@[j].type_view() == TypeV::TypeVariable(j as u16),
        {
            types.push(Type::TypeVariable(i));
        }
        proof {
            lemma_types_view(types@);
        }
        TypeContext { types }
    }

    /// The number of bindings in the context.
    pub fn arity(&self) -> (r: usize)
        ensures
            r == self@.len(),
    {
        proof {
            lemma_types_view(self.types@);
        }
        self.types.len()
    }

    /// The concrete type bound at position `idx`; a resolution fault when
    /// the position is outside the context.
    pub fn get_type(&self, idx: u16) -> (r: VMResult<Type>)
        ensures
            idx < self@.len() ==> (r matches Ok(t) && t.type_view() == self@[idx as int]),
            idx >= self@.len() ==> (r matches Err(e)
                && e.major == StatusCode::TypeResolutionFailure),
    {
        proof {
            lemma_types_view(self.types@);
        }
        if (idx as usize) < self.types.len() {
            Ok(self.types[idx as usize].duplicate())
        } else {
            Err(VMStatus::new(StatusCode::TypeResolutionFailure))
        }
    }

    /// Substitutes the context into a type; see [`spec_subst_type`].
    #[verifier::loop_isolation(false)]
    pub fn subst_type(&self, t: &Type) -> (r: VMResult<Type>)
        ensures
            (spec_subst_type(self@, t.type_view()) matches Ok(s)
                ==> (r matches Ok(u) && u.type_view() == s)),
            (spec_subst_type(self@, t.type_view()) matches Err(e)
                ==> r == Err::<Type, _>(e)),
        decreases t,
    {
        match t {
            Type::Bool => Ok(Type::Bool),
            Type::U64 => Ok(Type::U64),
            Type::String => Ok(Type::String),
            Type::ByteArray => Ok(Type::ByteArray),
            Type::Address => Ok(Type::Address),
            Type::Struct(def) => match self.subst_struct_def(def) {
                Ok(d) => Ok(Type::Struct(d)),
                Err(e) => Err(e),
            },
            Type::Reference(inner) => match self.subst_type(inner) {
                Ok(s) => Ok(Type::Reference(Box::new(s))),
                Err(e) => Err(e),
            },
            Type::MutableReference(inner) => match self.subst_type(inner) {
                Ok(s) => Ok(Type::MutableReference(Box::new(s))),
                Err(e) => Err(e),
            },
            Type::TypeVariable(idx) => self.get_type(*idx),
        }
    }

    /// Substitutes the context into every field type of a struct shape;
    /// see [`spec_subst_def`].
    #[verifier::loop_isolation(false)]
    pub fn subst_struct_def(&self, def: &StructDef) -> (r: VMResult<StructDef>)
        ensures
            (spec_subst_def(self@, def.def_view()) matches Ok(s)
                ==> (r matches Ok(d) && d.def_view() == s)),
            (spec_subst_def(self@, def.def_view()) matches Err(e)
                ==> r == Err::<StructDef, _>(e)),
        decreases def,
    {
        match def {
            StructDef::Native(native) => Ok(StructDef::Native(*native)),
            StructDef::Declared(fields) => {
                let ghost fieldsv = types_view(fields@);
                proof {
                    lemma_types_view(fields@);
                }
                let mut subs: Vec<Type> = Vec::new();
                let n = fields.len();
                for i in 0..n
                    invariant
                        subs@.len() == i,
                        n == fields@.len(),
                        fieldsv == types_view(fields@),
                        spec_subst_types(self@, fieldsv.take(i as int))
                            == Ok::<_, VMStatus>(types_view(subs@)),
                {
                    proof {
                        assert(decreases_to!(*def => *fields));
                        assert(decreases_to!(*fields => fields@[i as int]));
                        lemma_subst_types_extend(self@, fieldsv, i as int);
                        lemma_types_view(subs@);
                    }
                    let ghost prev = subs@;
                    match self.subst_type(&fields[i]) {
                        Ok(s) => {
                            subs.push(s);
                            proof {
                                assert(subs@.drop_last() =~= prev);
                                assert(types_view(subs@)
                                    == types_view(prev).push(s.type_view()));
                            }
                        }
                        Err(e) => {
                            proof {
                                assert(spec_subst_type(self@, fieldsv[i as int]) is Err);
                                lemma_subst_types_prefix_err(self@, fieldsv, i as int + 1);
                            }
                            return Err(e);
                        }
                    }
                }
                proof {
                    assert(fieldsv.take(n as int) =~= fieldsv);
                }
                Ok(StructDef::Declared(subs))
            }
        }
    }
}

} // verus!
