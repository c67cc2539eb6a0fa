//! Exercises the caches end to end: fetch-once idempotence, verification
//! failure reporting, unknown-dependency handling, scope precedence,
//! reclamation, and the protocol guard of the transaction tier.

use code_cache::errors::StatusCode;
use code_cache::fetcher::{FakeFetcher, NullFetcher};
use code_cache::file_format::{
    CompiledModule, FunctionDefinition, FunctionHandle, VerificationFinding, VerifiedModule,
};
use code_cache::ids::ModuleId;
use code_cache::loaded_module::LoadedModule;
use code_cache::module_cache::{
    BlockModuleCache, ModuleCache, ModuleRef, ParentCache, TransactionModuleCache, VMModuleCache,
};

const ADDR: u64 = 77;
const NAME_A: u64 = 1;
const NAME_B: u64 = 2;
const FN_FOO: u64 = 10;
const FN_BAR: u64 = 11;

fn id_a() -> ModuleId {
    ModuleId::new(ADDR, NAME_A)
}

fn id_b() -> ModuleId {
    ModuleId::new(ADDR, NAME_B)
}

fn empty_module(id: ModuleId) -> CompiledModule {
    CompiledModule {
        self_id: id,
        function_handles: vec![],
        struct_handles: vec![],
        function_defs: vec![],
        struct_defs: vec![],
        finding: VerificationFinding::Passes,
    }
}

/// Module A declares function `foo` and a handle to function `bar` of
/// module B.
fn module_a() -> CompiledModule {
    CompiledModule {
        self_id: id_a(),
        function_handles: vec![FunctionHandle { module: id_b(), name: FN_BAR }],
        struct_handles: vec![],
        function_defs: vec![FunctionDefinition { name: FN_FOO }],
        struct_defs: vec![],
        finding: VerificationFinding::Passes,
    }
}

/// Module B declares function `bar`.
fn module_b() -> CompiledModule {
    CompiledModule {
        self_id: id_b(),
        function_handles: vec![],
        struct_handles: vec![],
        function_defs: vec![FunctionDefinition { name: FN_BAR }],
        struct_defs: vec![],
        finding: VerificationFinding::Passes,
    }
}

fn verified(m: CompiledModule) -> VerifiedModule {
    VerifiedModule::new(m).unwrap()
}

#[test]
fn test_module_resolution_is_idempotent_and_fetches_once() {
    let mut cache = VMModuleCache::new();
    let mut fetcher = FakeFetcher::new();
    fetcher.publish(module_a());

    let first = cache.get_loaded_module_with_fetcher(&id_a(), &mut fetcher).unwrap();
    let second = cache.get_loaded_module_with_fetcher(&id_a(), &mut fetcher).unwrap();
    assert_eq!(first, Some(0));
    assert_eq!(second, Some(0));
    assert_eq!(fetcher.fetch_count, 1);
}

#[test]
fn test_verification_failure_reports_first_error() {
    let mut cache = VMModuleCache::new();
    let mut fetcher = FakeFetcher::new();
    let mut bad = empty_module(id_a());
    bad.finding = VerificationFinding::Rejected(vec![
        code_cache::errors::VMStatus::new(StatusCode::LinkerError),
        code_cache::errors::VMStatus::new(StatusCode::OutOfGas),
    ]);
    fetcher.publish(bad);

    let r = cache.get_loaded_module_with_fetcher(&id_a(), &mut fetcher);
    assert_eq!(r.unwrap_err().major, StatusCode::LinkerError);
}

#[test]
fn test_inconsistent_verifier_report_is_invariant_violation() {
    let mut cache = VMModuleCache::new();
    let mut fetcher = FakeFetcher::new();
    let mut bad = empty_module(id_a());
    bad.finding = VerificationFinding::Rejected(vec![]);
    fetcher.publish(bad);

    let r = cache.get_loaded_module_with_fetcher(&id_a(), &mut fetcher);
    assert_eq!(r.unwrap_err().major, StatusCode::VerifierInvariantViolation);
}

#[test]
fn test_unknown_module_is_not_an_error_and_not_cached() {
    let mut cache = VMModuleCache::new();
    let mut fetcher = FakeFetcher::new();

    let miss = cache.get_loaded_module_with_fetcher(&id_b(), &mut fetcher).unwrap();
    assert_eq!(miss, None);

    fetcher.publish(module_b());
    let hit = cache.get_loaded_module_with_fetcher(&id_b(), &mut fetcher).unwrap();
    assert!(hit.is_some());
}

#[test]
fn test_resolve_function_ref_end_to_end() {
    // Module A's `foo` calls `bar` of module B; B starts unpublished.
    let mut block = BlockModuleCache::new(VMModuleCache::new(), FakeFetcher::new());
    block.storage.publish(module_a());
    let caller = match block.get_loaded_module(&id_a()).unwrap() {
        Some(h) => h,
        None => panic!("module A must resolve"),
    };

    // B unpublished: the call resolves to unknown, not an error.
    let unresolved = block.resolve_function_ref(caller, 0).unwrap();
    assert_eq!(unresolved, None);

    // After publishing B with `bar` defined, the identical call resolves.
    block.storage.publish(module_b());
    let fref = block.resolve_function_ref(caller, 0).unwrap().unwrap();
    let callee = block.get_loaded_module(&id_b()).unwrap().unwrap();
    assert_eq!(fref.module, callee);
    assert_eq!(fref.index, 0);
}

#[test]
fn test_missing_function_name_is_linkage_fault() {
    // B exists but defines no function named `bar`.
    let mut block = BlockModuleCache::new(VMModuleCache::new(), FakeFetcher::new());
    block.storage.publish(module_a());
    let mut b = module_b();
    b.function_defs = vec![FunctionDefinition { name: FN_FOO }];
    block.storage.publish(b);

    let caller = block.get_loaded_module(&id_a()).unwrap().unwrap();
    let r = block.resolve_function_ref(caller, 0);
    assert_eq!(r.unwrap_err().major, StatusCode::LinkerError);
}

#[test]
fn test_transaction_scope_precedence() {
    // The block fetcher supplies an empty module under B's id; the
    // transaction publishes its own version of B locally.
    let mut block = BlockModuleCache::new(VMModuleCache::new(), FakeFetcher::new());
    block.storage.publish(empty_module(id_b()));
    let mut txn = TransactionModuleCache::new(ParentCache::Block(block));

    txn.cache_module(verified(module_b()));
    let h = txn.get_loaded_module(&id_b()).unwrap().unwrap();
    assert!(h.local, "a locally published module must shadow the parent's");

    // The local version is the one with `bar`: resolving A's call to B
    // through the transaction finds it in the local arena.
    txn.cache_module(verified(module_a()));
    let caller = txn.get_loaded_module(&id_a()).unwrap().unwrap();
    let fref = txn.resolve_function_ref(caller, 0).unwrap().unwrap();
    assert!(fref.module.local);
}

#[test]
fn test_transaction_publication_invisible_to_parent() {
    let block = BlockModuleCache::new(VMModuleCache::new(), FakeFetcher::new());
    let mut txn = TransactionModuleCache::new(ParentCache::Block(block));
    txn.cache_module(verified(module_b()));

    let h = txn.get_loaded_module(&id_b()).unwrap().unwrap();
    assert!(h.local);
    // The parent saw nothing of the publication.
    match &txn.block_cache {
        ParentCache::Block(b) => assert_eq!(b.vm_cache.registry.modules.len(), 0),
        ParentCache::Vm(_) => panic!("parent must be the block tier"),
    }
}

#[test]
fn test_reclaim_guard_on_transaction_cache() {
    let block = BlockModuleCache::new(VMModuleCache::new(), FakeFetcher::new());
    let mut txn = TransactionModuleCache::new(ParentCache::Block(block));

    // Reclamation must fail deterministically, whatever the arguments.
    let empty_batch: Vec<LoadedModule> = vec![];
    assert_eq!(txn.reclaim_cached_module(empty_batch).unwrap_err().major,
        StatusCode::Unreachable);
    let batch = vec![LoadedModule::new(verified(module_b()))];
    assert_eq!(txn.reclaim_cached_module(batch).unwrap_err().major, StatusCode::Unreachable);
    assert_eq!(txn.local_cache.registry.modules.len(), 0);
}

#[test]
fn test_reclamation_promotes_into_vm_cache() {
    let mut vm = VMModuleCache::new();
    let batch = vec![
        LoadedModule::new(verified(module_a())),
        LoadedModule::new(verified(module_b())),
    ];
    assert!(vm.reclaim_cached_module(batch).is_ok());
    assert!(vm.get_loaded_module(&id_a()).unwrap().is_some());
    assert!(vm.get_loaded_module(&id_b()).unwrap().is_some());
}

#[test]
fn test_cache_module_keeps_first_version() {
    let mut vm = VMModuleCache::new();
    vm.cache_module(verified(module_b()));
    let mut other = module_b();
    other.function_defs = vec![];
    vm.cache_module(verified(other));
    assert_eq!(vm.registry.modules.len(), 1);
    // The first version, with `bar`, stays.
    let h = vm.get_loaded_module(&id_b()).unwrap().unwrap();
    assert_eq!(h, ModuleRef { local: false, index: 0 });
    assert_eq!(vm.registry.modules[0].module.function_defs.len(), 1);
}

#[test]
fn test_new_from_module_seeds_cache() {
    let cache = VMModuleCache::new_from_module(verified(module_a())).unwrap();
    assert_eq!(cache.registry.modules.len(), 1);
}

#[test]
fn test_block_cache_clear_empties_fetcher() {
    let mut block = BlockModuleCache::new(VMModuleCache::new(), FakeFetcher::new());
    block.storage.publish(module_a());
    block.clear();
    assert_eq!(block.get_loaded_module(&id_a()).unwrap(), None);
}

#[test]
fn test_null_fetcher_always_absent() {
    let mut cache = VMModuleCache::new();
    let mut fetcher = NullFetcher;
    let r = cache.get_loaded_module_with_fetcher(&id_a(), &mut fetcher).unwrap();
    assert_eq!(r, None);
}

#[test]
fn test_duplicate_function_names_resolve_to_first_definition() {
    // B defines `bar` twice; the name table answers with the first.
    let mut b = module_b();
    b.function_defs = vec![
        FunctionDefinition { name: FN_FOO },
        FunctionDefinition { name: FN_BAR },
        FunctionDefinition { name: FN_BAR },
    ];
    let mut block = BlockModuleCache::new(VMModuleCache::new(), FakeFetcher::new());
    block.storage.publish(module_a());
    block.storage.publish(b);

    let caller = block.get_loaded_module(&id_a()).unwrap().unwrap();
    let fref = block.resolve_function_ref(caller, 0).unwrap().unwrap();
    assert_eq!(fref.index, 1, "the first definition carrying the name wins");
}

#[test]
fn test_transaction_resolves_through_parent_fetcher() {
    // The callee module B is reachable only through the parent's fetcher.
    let mut block = BlockModuleCache::new(VMModuleCache::new(), FakeFetcher::new());
    block.storage.publish(module_b());
    let mut txn = TransactionModuleCache::new(ParentCache::Block(block));
    txn.cache_module(verified(module_a()));

    let caller = txn.get_loaded_module(&id_a()).unwrap().unwrap();
    let fref = txn.resolve_function_ref(caller, 0).unwrap().unwrap();
    assert!(!fref.module.local, "the callee comes through the parent's fetcher");
    assert_eq!(fref.index, 0);
}
