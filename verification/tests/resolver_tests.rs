//! Exercises the recursive resolver: memoization, unknown-dependency
//! propagation, generic substitution, native dispatch and gas exhaustion.

use code_cache::errors::StatusCode;
use code_cache::fetcher::{FakeFetcher, NullFetcher};
use code_cache::file_format::{
    CompiledModule, FunctionDefinition, SignatureToken, StructDefinition,
    StructFieldInformation, StructHandle, VerificationFinding, VerifiedModule,
};
use code_cache::gas_meter::GasMeter;
use code_cache::ids::ModuleId;
use code_cache::module_cache::{
    BlockModuleCache, ModuleCache, ParentCache, TransactionModuleCache, VMModuleCache,
};
use code_cache::natives::NativeRegistry;
use code_cache::types::{NativeStructType, StructDef, Type, TypeContext};

const ADDR: u64 = 7;
const NAME_A: u64 = 1;
const NAME_B: u64 = 2;
const STRUCT_S: u64 = 20;
const STRUCT_T: u64 = 21;

fn id_a() -> ModuleId {
    ModuleId::new(ADDR, NAME_A)
}

fn id_b() -> ModuleId {
    ModuleId::new(ADDR, NAME_B)
}

/// Module A declares struct `S { x: Bool, y: U64 }` and a handle for
/// struct `T` of module B.
fn module_a() -> CompiledModule {
    CompiledModule {
        self_id: id_a(),
        function_handles: vec![],
        struct_handles: vec![
            StructHandle { module: id_a(), name: STRUCT_S, type_formals: 0 },
            StructHandle { module: id_b(), name: STRUCT_T, type_formals: 0 },
        ],
        function_defs: vec![],
        struct_defs: vec![StructDefinition {
            struct_handle: 0,
            field_information: StructFieldInformation::Declared(vec![
                SignatureToken::Bool,
                SignatureToken::U64,
            ]),
        }],
        finding: VerificationFinding::Passes,
    }
}

/// Module B declares struct `T { z: U64 }`.
fn module_b() -> CompiledModule {
    CompiledModule {
        self_id: id_b(),
        function_handles: vec![],
        struct_handles: vec![StructHandle { module: id_b(), name: STRUCT_T, type_formals: 0 }],
        function_defs: vec![],
        struct_defs: vec![StructDefinition {
            struct_handle: 0,
            field_information: StructFieldInformation::Declared(vec![SignatureToken::U64]),
        }],
        finding: VerificationFinding::Passes,
    }
}

fn verified(m: CompiledModule) -> VerifiedModule {
    VerifiedModule::new(m).unwrap()
}

#[test]
fn test_struct_resolution_is_memoized() {
    let mut cache = VMModuleCache::new_from_module(verified(module_a())).unwrap();
    let natives = NativeRegistry::new();
    let mut fetcher = NullFetcher;

    let mut gas = GasMeter::new(100);
    let first = cache
        .resolve_struct_def_at(0, 0, &mut gas, &natives, &mut fetcher)
        .unwrap()
        .unwrap();
    let spent = 100 - gas.remaining;
    assert!(spent > 0, "the first resolution walks the struct and charges gas");

    let mut gas2 = GasMeter::new(100);
    let second = cache
        .resolve_struct_def_at(0, 0, &mut gas2, &natives, &mut fetcher)
        .unwrap()
        .unwrap();
    assert_eq!(gas2.remaining, 100, "a memo hit charges nothing");

    // Both calls return structurally equal shapes.
    match (&first, &second) {
        (StructDef::Declared(a), StructDef::Declared(b)) => {
            assert_eq!(a.len(), 2);
            assert_eq!(b.len(), 2);
            assert!(matches!(a[0], Type::Bool));
            assert!(matches!(a[1], Type::U64));
            assert!(matches!(b[0], Type::Bool));
            assert!(matches!(b[1], Type::U64));
        }
        _ => panic!("struct S resolves to a declared shape"),
    }
}

#[test]
fn test_unknown_dependency_propagates_without_caching() {
    // Module A's second field references struct T of the unpublished
    // module B.
    let mut a = module_a();
    a.struct_defs[0].field_information = StructFieldInformation::Declared(vec![
        SignatureToken::Bool,
        SignatureToken::Struct(1, vec![]),
    ]);
    let mut cache = VMModuleCache::new_from_module(verified(a)).unwrap();
    let natives = NativeRegistry::new();
    let mut fetcher = FakeFetcher::new();

    let mut gas = GasMeter::new(100);
    let r = cache.resolve_struct_def_at(0, 0, &mut gas, &natives, &mut fetcher).unwrap();
    assert_eq!(r.is_none(), true, "an absent dependency is unknown, not an error");
    assert!(cache.registry.modules[0].struct_def_memo[0].is_none(),
        "no partial shape is cached");

    // After B is published the identical call resolves.
    fetcher.publish(module_b());
    let mut gas2 = GasMeter::new(100);
    let r2 = cache.resolve_struct_def_at(0, 0, &mut gas2, &natives, &mut fetcher).unwrap();
    assert!(r2.is_some());
}

#[test]
fn test_generic_substitution_with_concrete_argument() {
    // Struct S<T0> { f: T0 }, instantiated with a 64-bit integer.
    let generic = CompiledModule {
        self_id: id_a(),
        function_handles: vec![],
        struct_handles: vec![StructHandle { module: id_a(), name: STRUCT_S, type_formals: 1 }],
        function_defs: vec![],
        struct_defs: vec![StructDefinition {
            struct_handle: 0,
            field_information: StructFieldInformation::Declared(vec![
                SignatureToken::TypeParameter(0),
            ]),
        }],
        finding: VerificationFinding::Passes,
    };
    let md = verified(generic);
    let mut cache = VMModuleCache::new_from_module(md.duplicate()).unwrap();
    let natives = NativeRegistry::new();
    let mut fetcher = NullFetcher;
    let mut gas = GasMeter::new(100);
    let ctx = TypeContext::new(vec![]);

    let token = SignatureToken::Struct(0, vec![SignatureToken::U64]);
    let t = cache
        .resolve_signature_token_with_fetcher(&md, &token, &ctx, &mut gas, &natives, &mut fetcher)
        .unwrap()
        .unwrap();
    match t {
        Type::Struct(StructDef::Declared(fields)) => {
            assert_eq!(fields.len(), 1);
            assert!(matches!(fields[0], Type::U64));
        }
        _ => panic!("the instantiation resolves to a declared struct"),
    }
}

#[test]
fn test_generic_substitution_with_unknown_argument() {
    // The same generic struct, instantiated with a struct of the
    // unpublished module B: the whole resolution is unknown.
    let generic = CompiledModule {
        self_id: id_a(),
        function_handles: vec![],
        struct_handles: vec![
            StructHandle { module: id_a(), name: STRUCT_S, type_formals: 1 },
            StructHandle { module: id_b(), name: STRUCT_T, type_formals: 0 },
        ],
        function_defs: vec![],
        struct_defs: vec![StructDefinition {
            struct_handle: 0,
            field_information: StructFieldInformation::Declared(vec![
                SignatureToken::TypeParameter(0),
            ]),
        }],
        finding: VerificationFinding::Passes,
    };
    let md = verified(generic);
    let mut cache = VMModuleCache::new_from_module(md.duplicate()).unwrap();
    let natives = NativeRegistry::new();
    let mut fetcher = NullFetcher;
    let mut gas = GasMeter::new(100);
    let ctx = TypeContext::new(vec![]);

    let token = SignatureToken::Struct(0, vec![SignatureToken::Struct(1, vec![])]);
    let t = cache
        .resolve_signature_token_with_fetcher(&md, &token, &ctx, &mut gas, &natives, &mut fetcher)
        .unwrap();
    assert!(t.is_none());
}

#[test]
fn test_native_struct_dispatch() {
    let mut native_module = module_a();
    native_module.struct_defs[0].field_information = StructFieldInformation::Native;
    let mut cache = VMModuleCache::new_from_module(verified(native_module)).unwrap();
    let mut fetcher = NullFetcher;

    // Absence from the registry is a linkage fault, not an unknown.
    let empty_natives = NativeRegistry::new();
    let mut gas = GasMeter::new(100);
    let fault = cache.resolve_struct_def_at(0, 0, &mut gas, &empty_natives, &mut fetcher);
    assert_eq!(fault.unwrap_err().major, StatusCode::LinkerError);

    // A registered descriptor resolves to the native shape.
    let mut natives = NativeRegistry::new();
    natives.register(id_a(), STRUCT_S, NativeStructType { tag: 42 });
    let mut gas2 = GasMeter::new(100);
    let r = cache
        .resolve_struct_def_at(0, 0, &mut gas2, &natives, &mut fetcher)
        .unwrap()
        .unwrap();
    match r {
        StructDef::Native(n) => assert_eq!(n.tag, 42),
        StructDef::Declared(_) => panic!("a native struct resolves to its descriptor"),
    }
}

#[test]
fn test_gas_exhaustion_aborts_resolution() {
    let mut cache = VMModuleCache::new_from_module(verified(module_a())).unwrap();
    let natives = NativeRegistry::new();
    let mut fetcher = NullFetcher;
    let mut gas = GasMeter::new(0);

    let r = cache.resolve_struct_def_at(0, 0, &mut gas, &natives, &mut fetcher);
    assert_eq!(r.unwrap_err().major, StatusCode::OutOfGas);
}

#[test]
fn test_reference_tokens_wrap_inner_type() {
    let md = verified(module_a());
    let mut cache = VMModuleCache::new_from_module(md.duplicate()).unwrap();
    let natives = NativeRegistry::new();
    let mut fetcher = NullFetcher;
    let mut gas = GasMeter::new(100);
    let ctx = TypeContext::new(vec![]);

    let token = SignatureToken::Reference(Box::new(SignatureToken::Address));
    let t = cache
        .resolve_signature_token_with_fetcher(&md, &token, &ctx, &mut gas, &natives, &mut fetcher)
        .unwrap()
        .unwrap();
    match t {
        Type::Reference(inner) => assert!(matches!(*inner, Type::Address)),
        _ => panic!("a reference token resolves to a reference type"),
    }

    let token = SignatureToken::MutableReference(Box::new(SignatureToken::ByteArray));
    let t = cache
        .resolve_signature_token_with_fetcher(&md, &token, &ctx, &mut gas, &natives, &mut fetcher)
        .unwrap()
        .unwrap();
    match t {
        Type::MutableReference(inner) => assert!(matches!(*inner, Type::ByteArray)),
        _ => panic!("a mutable-reference token resolves to a mutable reference"),
    }
}

#[test]
fn test_type_parameter_out_of_context_is_resolution_fault() {
    let ctx = TypeContext::new(vec![Type::U64]);
    assert!(ctx.get_type(0).is_ok());
    let r = ctx.get_type(1);
    assert_eq!(r.unwrap_err().major, StatusCode::TypeResolutionFailure);
}

#[test]
fn test_cross_module_struct_resolution() {
    // Module A's struct embeds struct T of module B, which the fetcher
    // supplies: the resolved shape inlines T's fields.
    let mut a = module_a();
    a.struct_defs[0].field_information =
        StructFieldInformation::Declared(vec![SignatureToken::Struct(1, vec![])]);
    let mut cache = VMModuleCache::new_from_module(verified(a)).unwrap();
    let natives = NativeRegistry::new();
    let mut fetcher = FakeFetcher::new();
    fetcher.publish(module_b());
    let mut gas = GasMeter::new(100);

    let r = cache
        .resolve_struct_def_at(0, 0, &mut gas, &natives, &mut fetcher)
        .unwrap()
        .unwrap();
    match r {
        StructDef::Declared(fields) => {
            assert_eq!(fields.len(), 1);
            match &fields[0] {
                Type::Struct(StructDef::Declared(inner)) => {
                    assert_eq!(inner.len(), 1);
                    assert!(matches!(inner[0], Type::U64));
                }
                _ => panic!("the field is the resolved shape of T"),
            }
        }
        StructDef::Native(_) => panic!("struct S is field-defined"),
    }
}

#[test]
fn test_identity_mapping_binds_each_position_to_itself() {
    let ctx = TypeContext::identity_mapping(3);
    for i in 0..3u16 {
        match ctx.get_type(i).unwrap() {
            Type::TypeVariable(j) => assert_eq!(j, i),
            _ => panic!("the identity context binds a position to itself"),
        }
    }
    assert!(ctx.get_type(3).is_err());
}

#[test]
fn test_loaded_module_name_tables() {
    let lm = code_cache::loaded_module::LoadedModule::new(verified(module_a()));
    assert_eq!(lm.struct_def_index(STRUCT_S), Some(0));
    assert_eq!(lm.struct_def_index(STRUCT_T), None);
    assert_eq!(lm.function_def_index(STRUCT_S), None);

    let lm_b = code_cache::loaded_module::LoadedModule::new(verified(module_b()));
    assert_eq!(lm_b.struct_def_index(STRUCT_T), Some(0));
}

#[test]
fn test_substitution_into_struct_shape() {
    // Substituting [Bool] into the shape whose sole field is parameter 0.
    let ctx = TypeContext::new(vec![Type::Bool]);
    let base = StructDef::Declared(vec![Type::TypeVariable(0)]);
    match ctx.subst_struct_def(&base).unwrap() {
        StructDef::Declared(fields) => {
            assert_eq!(fields.len(), 1);
            assert!(matches!(fields[0], Type::Bool));
        }
        StructDef::Native(_) => panic!("substitution keeps the shape declared"),
    }

    // A parameter outside the context is a resolution fault.
    let bad = StructDef::Declared(vec![Type::TypeVariable(5)]);
    let r = ctx.subst_struct_def(&bad);
    assert_eq!(r.unwrap_err().major, StatusCode::TypeResolutionFailure);
}

#[test]
fn test_transaction_struct_resolution_falls_through_to_parent() {
    // Module A, published in the transaction, has a struct whose field is
    // struct T of module B; only the parent's fetcher can supply B.
    let mut a = module_a();
    a.struct_defs[0].field_information =
        StructFieldInformation::Declared(vec![SignatureToken::Struct(1, vec![])]);
    let mut block = BlockModuleCache::new(VMModuleCache::new(), FakeFetcher::new());
    block.storage.publish(module_b());
    let mut txn = TransactionModuleCache::new(ParentCache::Block(block));
    txn.cache_module(verified(a));
    let h = txn.get_loaded_module(&id_a()).unwrap().unwrap();

    let natives = NativeRegistry::new();
    let mut gas = GasMeter::new(100);
    let r = txn.resolve_struct_def(h, 0, &mut gas, &natives).unwrap();
    assert!(r.is_some(), "a local unknown falls through to the parent's fetcher");
}
