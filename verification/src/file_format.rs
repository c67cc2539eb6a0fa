//! The slice of a compiled module's file format that resolution reads.
//!
//! A module declares functions and struct types and refers to functions and
//! structs of other modules through *handles*: symbolic, by-name references
//! that resolution must turn into concrete definitions.  Signature tokens
//! are the serialized, possibly generic, possibly nested type expressions
//! attached to struct fields.

use vstd::prelude::*;
use crate::errors::VMStatus;
use crate::ids::ModuleId;

verus! {

broadcast use vstd::seq::group_seq_axioms, vstd::std_specs::vec::group_vec_axioms;

/// A symbolic reference to a function, possibly of another module:
/// the defining module's id and the function's name.
#[derive(Clone, Copy, PartialEq, Eq, Structural, Debug)]
pub struct FunctionHandle {
    pub module: ModuleId,
    pub name: u64,
}

/// A symbolic reference to a struct type, possibly of another module:
/// the defining module's id, the struct's name, and the number of generic
/// type parameters the struct is declared with.
#[derive(Clone, Copy, PartialEq, Eq, Structural, Debug)]
pub struct StructHandle {
    pub module: ModuleId,
    pub name: u64,
    pub type_formals: u16,
}

/// A function defined by the module itself, identified by name.
#[derive(Clone, Copy, PartialEq, Eq, Structural, Debug)]
pub struct FunctionDefinition {
    pub name: u64,
}

/// A serialized type expression: a primitive, a generic type parameter, a
/// struct instantiation (handle plus type arguments), or a reference type
/// wrapping an inner token.
#[derive(Debug)]
pub enum SignatureToken {
    Bool,
    U64,
    String,
    ByteArray,
    Address,
    TypeParameter(u16),
    Struct(u16, Vec<SignatureToken>),
    Reference(Box<SignatureToken>),
    MutableReference(Box<SignatureToken>),
}

/// The mathematical value of a `SignatureToken`: the same tree with
/// sequences in place of vectors.
pub enum TokenV {
    Bool,
    U64,
    String,
    ByteArray,
    Address,
    TypeParameter(u16),
    Struct(u16, Seq<TokenV>),
    Reference(Box<TokenV>),
    MutableReference(Box<TokenV>),
}

impl SignatureToken {
    /// The mathematical value of the token.
    pub open spec fn token_view(&self) -> TokenV
        decreases self,
    {
        match self {
            SignatureToken::Bool => TokenV::Bool,
            SignatureToken::U64 => TokenV::U64,
            SignatureToken::String => TokenV::String,
            SignatureToken::ByteArray => TokenV::ByteArray,
            SignatureToken::Address => TokenV::Address,
            SignatureToken::TypeParameter(idx) => TokenV::TypeParameter(*idx),
            SignatureToken::Struct(sh, args) => TokenV::Struct(*sh, tokens_view(args@)),
            SignatureToken::Reference(inner) => TokenV::Reference(Box::new(inner.token_view())),
            SignatureToken::MutableReference(inner) => {
                TokenV::MutableReference(Box::new(inner.token_view()))
            }
        }
    }
}

/// The mathematical values of a list of tokens, in order.
pub open spec fn tokens_view(args: Seq<SignatureToken>) -> Seq<TokenV>
    decreases args,
{
    if args.len() == 0 {
        Seq::empty()
    } else {
        tokens_view(args.drop_last()).push(args.last().token_view())
    }
}

/// `tokens_view` maps each token of the list to its value, keeping the order.
pub proof fn lemma_tokens_view(args: Seq<SignatureToken>)
    ensures
        tokens_view(args).len() == args.len(),
        forall|i: int| 0 <= i < args.len()
            ==> #[trigger] tokens_view(args)[i] == args[i].token_view(),
    decreases args.len(),
{
    if args.len() > 0 {
        lemma_tokens_view(args.drop_last());
    }
}

impl View for SignatureToken {
    type V = TokenV;

    open spec fn view(&self) -> TokenV {
        self.token_view()
    }
}

impl SignatureToken {
    /// A structurally identical copy of the token.
    #[verifier::loop_isolation(false)]
    pub fn duplicate(&self) -> (r: SignatureToken)
        ensures
            r@ == self@,
        decreases self,
    {
        match self {
            SignatureToken::Bool => SignatureToken::Bool,
            SignatureToken::U64 => SignatureToken::U64,
            SignatureToken::String => SignatureToken::String,
            SignatureToken::ByteArray => SignatureToken::ByteArray,
            SignatureToken::Address => SignatureToken::Address,
            SignatureToken::TypeParameter(idx) => SignatureToken::TypeParameter(*idx),
            SignatureToken::Struct(sh, args) => {
                let mut copies: Vec<SignatureToken> = Vec::new();
                let n = args.len();
                for i in 0..n
                    invariant
                        copies@.len() == i,
                        n == args@.len(),
                        forall|j: int| 0 <= j < i
                            ==> #[trigger] copies@[j].token_view() == args@[j].token_view(),
                {
                    proof {
                        assert(decreases_to!(*self => *args));
                        assert(decreases_to!(*args => args@[i as int]));
                    }
                    copies.push(args[i].duplicate());
                }
                proof {
                    lemma_tokens_view(copies@);
                    lemma_tokens_view(args@);
                    assert(tokens_view(copies@) =~= tokens_view(args@));
                }
                SignatureToken::Struct(*sh, copies)
            }
            SignatureToken::Reference(inner) => {
                SignatureToken::Reference(Box::new(inner.duplicate()))
            }
            SignatureToken::MutableReference(inner) => {
                SignatureToken::MutableReference(Box::new(inner.duplicate()))
            }
        }
    }
}

/// A copy of a vector of plain values.
#[verifier::loop_isolation(false)]
pub fn copy_vec<T: Copy>(v: &Vec<T>) -> (r: Vec<T>)
    ensures
        r@ == v@,
{
    let mut r: Vec<T> = Vec::new();
    let n = v.len();
    for i in 0..n
        invariant
            r@ == v@.take(i as int),
    {
        r.push(v[i]);
        proof {
            assert(r@ =~= v@.take(i as int + 1));
        }
    }
    proof {
        assert(v@.take(n as int) =~= v@);
    }
    r
}

/// Copies of a list of tokens, in order.
#[verifier::loop_isolation(false)]
pub fn duplicate_tokens(v: &Vec<SignatureToken>) -> (r: Vec<SignatureToken>)
    ensures
        tokens_view(r@) == tokens_view(v@),
{
    let mut r: Vec<SignatureToken> = Vec::new();
    let n = v.len();
    for i in 0..n
        invariant
            r@.len() == i,
            forall|j: int| 0 <= j < i
                ==> #[trigger] r@[j].token_view() == v@[j].token_view(),
    {
        r.push(v[i].duplicate());
    }
    proof {
        lemma_tokens_view(r@);
        lemma_tokens_view(v@);
        assert(tokens_view(r@) =~= tokens_view(v@));
    }
    r
}

/// How a struct definition gives its shape: a closed set of fields, each
/// with a signature token, or a declaration that the type is native (built
/// in, field-free from the module's point of view).
#[derive(Debug)]
pub enum StructFieldInformation {
    Native,
    Declared(Vec<SignatureToken>),
}

/// A struct defined by the module itself: the handle it answers to (an
/// index into the module's struct-handle table) plus its field information.
#[derive(Debug)]
pub struct StructDefinition {
    pub struct_handle: u16,
    pub field_information: StructFieldInformation,
}

/// The mathematical value of a `StructDefinition`.
pub struct StructDefinitionV {
    pub struct_handle: u16,
    pub native: bool,
    pub fields: Seq<TokenV>,
}

impl View for StructDefinition {
    type V = StructDefinitionV;

    open spec fn view(&self) -> StructDefinitionV {
        match self.field_information {
            StructFieldInformation::Native => StructDefinitionV {
                struct_handle: self.struct_handle,
                native: true,
                fields: Seq::empty(),
            },
            StructFieldInformation::Declared(fields) => StructDefinitionV {
                struct_handle: self.struct_handle,
                native: false,
                fields: tokens_view(fields@),
            },
        }
    }
}

impl StructDefinition {
    /// A structurally identical copy of the definition.
    pub fn duplicate(&self) -> (r: StructDefinition)
        ensures
            r@ == self@,
    {
        match &self.field_information {
            StructFieldInformation::Native => StructDefinition {
                struct_handle: self.struct_handle,
                field_information: StructFieldInformation::Native,
            },
            StructFieldInformation::Declared(fields) => StructDefinition {
                struct_handle: self.struct_handle,
                field_information: StructFieldInformation::Declared(duplicate_tokens(fields)),
            },
        }
    }
}

/// Copies of a list of struct definitions, in order.
#[verifier::loop_isolation(false)]
pub fn duplicate_struct_defs(v: &Vec<StructDefinition>) -> (r: Vec<StructDefinition>)
    ensures
        r@.len() == v@.len(),
        forall|j: int| 0 <= j < v@.len() ==> #[trigger] r@[j]@ == v@[j]@,
{
    let mut r: Vec<StructDefinition> = Vec::new();
    let n = v.len();
    for i in 0..n
        invariant
            r@.len() == i,
            forall|j: int| 0 <= j < i ==> #[trigger] r@[j]@ == v@[j]@,
    {
        r.push(v[i].duplicate());
    }
    r
}

impl VerifiedModule {
    /// A structurally identical copy of the module.
    pub fn duplicate(&self) -> (r: VerifiedModule)
        ensures
            r@ == self@,
    {
        let r = VerifiedModule {
            self_id: self.self_id,
            function_handles: copy_vec(&self.function_handles),
            struct_handles: copy_vec(&self.struct_handles),
            function_defs: copy_vec(&self.function_defs),
            struct_defs: duplicate_struct_defs(&self.struct_defs),
        };
        proof {
            assert(Seq::new(r.struct_defs@.len(), |i: int| r.struct_defs@[i]@)
                =~= Seq::new(self.struct_defs@.len(), |i: int| self.struct_defs@[i]@));
        }
        r
    }
}

/// What the external bytecode checker found for a module: a clean pass, or
/// rejection with the list of structural and type errors it produced.
#[derive(Debug)]
pub enum VerificationFinding {
    Passes,
    Rejected(Vec<VMStatus>),
}

/// A compiled module as fetched from chain state: its own id, its handle
/// tables, its definitions, and the bytecode checker's finding for it.
/// Resolution never consumes a compiled module directly; it goes through
/// [`VerifiedModule::new`] first.
#[derive(Debug)]
pub struct CompiledModule {
    pub self_id: ModuleId,
    pub function_handles: Vec<FunctionHandle>,
    pub struct_handles: Vec<StructHandle>,
    pub function_defs: Vec<FunctionDefinition>,
    pub struct_defs: Vec<StructDefinition>,
    pub finding: VerificationFinding,
}

/// The mathematical value of a fetched module: its tables and definitions
/// together with the checker's finding (`None` for a clean pass).
pub struct CompiledModuleV {
    pub module: ModuleV,
    pub rejected: Option<Seq<VMStatus>>,
}

impl View for CompiledModule {
    type V = CompiledModuleV;

    open spec fn view(&self) -> CompiledModuleV {
        CompiledModuleV {
            module: spec_verified_view(*self),
            rejected: match self.finding {
                VerificationFinding::Passes => None,
                VerificationFinding::Rejected(errors) => Some(errors@),
            },
        }
    }
}

impl CompiledModule {
    /// A structurally identical copy of the fetched module.
    pub fn duplicate(&self) -> (r: CompiledModule)
        ensures
            r@ == self@,
    {
        let r = CompiledModule {
            self_id: self.self_id,
            function_handles: copy_vec(&self.function_handles),
            struct_handles: copy_vec(&self.struct_handles),
            function_defs: copy_vec(&self.function_defs),
            struct_defs: duplicate_struct_defs(&self.struct_defs),
            finding: match &self.finding {
                VerificationFinding::Passes => VerificationFinding::Passes,
                VerificationFinding::Rejected(errors) => {
                    VerificationFinding::Rejected(copy_vec(errors))
                }
            },
        };
        proof {
            assert(Seq::new(r.struct_defs@.len(), |i: int| r.struct_defs@[i]@)
                =~= Seq::new(self.struct_defs@.len(), |i: int| self.struct_defs@[i]@));
        }
        r
    }
}

/// The mathematical value of a module's tables and definitions.
pub struct ModuleV {
    pub self_id: ModuleId,
    pub function_handles: Seq<FunctionHandle>,
    pub struct_handles: Seq<StructHandle>,
    pub function_defs: Seq<FunctionDefinition>,
    pub struct_defs: Seq<StructDefinitionV>,
}

/// A module that passed the bytecode checker.  Only verified modules enter
/// a cache or take part in resolution.
#[derive(Debug)]
pub struct VerifiedModule {
    pub self_id: ModuleId,
    pub function_handles: Vec<FunctionHandle>,
    pub struct_handles: Vec<StructHandle>,
    pub function_defs: Vec<FunctionDefinition>,
    pub struct_defs: Vec<StructDefinition>,
}

impl View for VerifiedModule {
    type V = ModuleV;

    open spec fn view(&self) -> ModuleV {
        ModuleV {
            self_id: self.self_id,
            function_handles: self.function_handles@,
            struct_handles: self.struct_handles@,
            function_defs: self.function_defs@,
            struct_defs: Seq::new(self.struct_defs@.len(), |i: int| self.struct_defs@[i]@),
        }
    }
}

impl VerifiedModule {
    /// Runs a fetched module through the bytecode checker's finding.
    /// Succeeds exactly when the finding is a clean pass; otherwise hands
    /// back the checker's error list untouched, for the caller to apply its
    /// reporting policy to.
    pub fn new(module: CompiledModule) -> (r: Result<VerifiedModule, Vec<VMStatus>>)
        ensures
            (module.finding matches VerificationFinding::Passes) ==> (r matches Ok(m)
                && m@ == spec_verified_view(module)),
            (module.finding matches VerificationFinding::Rejected(errors) ==>
                (r matches Err(e) && e@ == errors@)),
    {
        match module.finding {
            VerificationFinding::Passes => Ok(VerifiedModule {
                self_id: module.self_id,
                function_handles: module.function_handles,
                struct_handles: module.struct_handles,
                function_defs: module.function_defs,
                struct_defs: module.struct_defs,
            }),
            VerificationFinding::Rejected(errors) => Err(errors),
        }
    }

    pub fn self_id(&self) -> (r: ModuleId)
        ensures
            r == self@.self_id,
    {
        self.self_id
    }
}

/// The tables and definitions a compiled module would present once verified.
pub open spec fn spec_verified_view(module: CompiledModule) -> ModuleV {
    ModuleV {
        self_id: module.self_id,
        function_handles: module.function_handles@,
        struct_handles: module.struct_handles@,
        function_defs: module.function_defs@,
        struct_defs: Seq::new(module.struct_defs@.len(), |i: int| module.struct_defs@[i]@),
    }
}

} // verus!
