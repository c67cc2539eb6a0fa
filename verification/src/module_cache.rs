//! The multi-tier module cache and recursive resolver.
//!
//! [`VMModuleCache`] is the single-scope cache: an identifier-to-module map
//! over one arena that fetches, verifies, wraps and inserts on a miss and
//! hands back the existing reference on a hit.  [`BlockModuleCache`] wraps
//! it with a fetcher bound to one block's state view, and
//! [`TransactionModuleCache`] adds a short-lived local arena for modules
//! published by an in-flight transaction, consulted before the parent.
//! All three tiers implement the shared five-operation [`ModuleCache`]
//! contract.
//!
//! Absence ("unknown dependency") travels as `Ok(None)` through every
//! recursion level and is never cached, so a module published later is
//! found by the next call.  Genuine faults abort resolution as `Err`.

use vstd::prelude::*;
use crate::errors::{StatusCode, VMResult, VMStatus};
use crate::fetcher::{ModuleFetcher, NullFetcher};
use crate::file_format::{
    CompiledModuleV, SignatureToken, StructFieldInformation, TokenV, VerifiedModule,
};
use crate::gas_meter::GasMeter;
use crate::ids::ModuleId;
use crate::loaded_module::{
    has_fn_named, has_struct_named, is_first_fn_named, is_first_struct_named, memo_view,
    module_wf, LoadedModule, LoadedModuleV,
};
use crate::natives::NativeRegistry;
use crate::registry::{lemma_get_in_range, registry_extends, ModuleRegistry};
use crate::file_format::{lemma_tokens_view, tokens_view};
use crate::types::{
    lemma_types_view, spec_subst_def, types_view, StructDef, StructDefV, Type, TypeContext,
    TypeV,
};

verus! {

broadcast use vstd::seq::group_seq_axioms, vstd::std_specs::vec::group_vec_axioms;

/// A stable handle to a loaded module: which arena of the answering cache
/// tier owns it (the tier's own short-lived arena, or the one it shares
/// with its parent scope) and the module's index there.  A handle stays
/// valid, and keeps denoting the same module, for the life of the arena.
#[derive(Clone, Copy, PartialEq, Eq, Structural, Debug)]
pub struct ModuleRef {
    pub local: bool,
    pub index: usize,
}

/// A resolved function handle: the owning module plus the index of the
/// function definition inside it.  Grants no ownership.
#[derive(Clone, Copy, PartialEq, Eq, Structural, Debug)]
pub struct FunctionRef {
    pub module: ModuleRef,
    pub index: usize,
}

impl FunctionRef {
    pub fn new(module: ModuleRef, index: usize) -> (r: FunctionRef)
        ensures
            r.module == module,
            r.index == index,
    {
        FunctionRef { module, index }
    }
}

/// The single-scope module cache: an internally growing map from module id
/// to loaded module, over one append-only arena.
#[derive(Debug)]
pub struct VMModuleCache {
    pub registry: ModuleRegistry,
}

impl VMModuleCache {
    /// Well-formedness of the cache: its registry's.
    pub open spec fn wf(&self) -> bool {
        self.registry.wf()
    }

    /// The arena index cached for `id`, if any.
    pub open spec fn spec_get(&self, id: ModuleId) -> Option<usize> {
        self.registry.spec_get(id)
    }

    /// How many modules the arena holds.
    pub open spec fn count(&self) -> nat {
        self.registry.count()
    }

    /// The mathematical value of the module at arena index `j`.
    pub open spec fn module_view(&self, j: int) -> LoadedModuleV {
        self.registry.module_view(j)
    }

    /// An empty cache over a fresh arena.
    pub fn new() -> (r: VMModuleCache)
        ensures
            r.wf(),
            r.count() == 0,
            forall|id: ModuleId| #[trigger] r.spec_get(id) is None,
    {
        VMModuleCache { registry: ModuleRegistry::new() }
    }

    /// A cache seeded with one already-verified module.
    pub fn new_from_module(module: VerifiedModule) -> (r: VMResult<VMModuleCache>)
        requires
            module_wf(module@),
        ensures
            r matches Ok(c) && c.wf() && c.count() == 1
                && c.spec_get(module@.self_id) == Some(0usize)
                && c.module_view(0).module == module@,
    {
        let mut cache = VMModuleCache::new();
        let id = module.self_id();
        let loaded = LoadedModule::new(module);
        cache.registry.or_insert(id, loaded);
        Ok(cache)
    }

    /// Resolves `id` to a loaded module.  A registry hit returns the
    /// existing handle and touches nothing, the fetcher included.  On a
    /// miss the fetcher is asked once: absence resolves to `Ok(None)` and
    /// is not recorded, so a later publication is seen by the next call; a
    /// fetched module is run through the bytecode checker's finding, a
    /// rejection surfacing the first reported error (or the checker's own
    /// invariant violation if it rejected with an empty list), and a clean
    /// module is wrapped and inserted into the arena.
    pub fn get_loaded_module_with_fetcher<F: ModuleFetcher>(
        &mut self,
        id: &ModuleId,
        fetcher: &mut F,
    ) -> (r: VMResult<Option<usize>>)
        requires
            old(self).wf(),
            old(fetcher).inv(),
        ensures
            final(self).wf(),
            final(fetcher).inv(),
            registry_extends(old(self).registry, final(self).registry),
            forall|x: ModuleId| final(fetcher).response(x) == old(fetcher).response(x),
            forall|x: ModuleId| old(self).spec_get(x) is None
                && old(fetcher).response(x) is None ==> final(self).spec_get(x) is None,
            (r matches Ok(o) ==> (o matches Some(j) ==> j < final(self).count()
                && final(self).spec_get(*id) == Some(j))),
            (old(self).spec_get(*id) matches Some(j) ==> r == Ok::<_, VMStatus>(Some(j))
                && *final(self) == *old(self) && *final(fetcher) == *old(fetcher)),
            old(self).spec_get(*id) is None ==> match old(fetcher).response(*id) {
                None => r == Ok::<Option<usize>, VMStatus>(None)
                    && final(self).registry == old(self).registry,
                Some(mv) => match mv.rejected {
                    Some(errors) => (r matches Err(e)
                        && e == (if errors.len() == 0 {
                            VMStatus { major: StatusCode::VerifierInvariantViolation }
                        } else {
                            errors[0]
                        })
                        && final(self).registry == old(self).registry),
                    None => (r matches Ok(o) && o matches Some(j)
                        && j == old(self).count()
                        && final(self).count() == old(self).count() + 1
                        && final(self).spec_get(*id) == Some(j)
                        && final(self).module_view(j as int).module == mv.module
                        && final(self).module_view(j as int).memo.len()
                            == mv.module.struct_defs.len()
                        && (forall|i: int| 0 <= i < mv.module.struct_defs.len()
                            ==> final(self).module_view(j as int).memo[i] is None)
                        && (forall|x: ModuleId| x != *id
                            ==> #[trigger] final(self).spec_get(x) == old(self).spec_get(x))),
                },
            },
    {
        match self.registry.get(id) {
            Some(j) => {
                proof {
                    lemma_get_in_range(self.registry, *id);
                }
                Ok(Some(j))
            }
            None => {
                let compiled = match fetcher.get_module(id) {
                    Some(m) => m,
                    None => {
                        return Ok(None);
                    }
                };
                let verified = match VerifiedModule::new(compiled) {
                    Ok(m) => m,
                    Err(errors) => {
                        if errors.len() == 0 {
                            return Err(VMStatus::new(StatusCode::VerifierInvariantViolation));
                        } else {
                            return Err(errors[0]);
                        }
                    }
                };
                let loaded = LoadedModule::new(verified);
                let j = self.registry.or_insert(*id, loaded);
                Ok(Some(j))
            }
        }
    }

    /// Resolves a function-handle index of the module at arena index
    /// `caller` into a function reference, resolving the callee module
    /// through the cache (and `fetcher`) first.  An unknown callee module
    /// is `Ok(None)`; a callee module that exists but does not define the
    /// named function is a linkage fault.
    pub fn resolve_function_ref_with_fetcher<F: ModuleFetcher>(
        &mut self,
        caller: usize,
        idx: usize,
        fetcher: &mut F,
    ) -> (r: VMResult<Option<FunctionRef>>)
        requires
            old(self).wf(),
            old(fetcher).inv(),
            caller < old(self).count(),
            idx < old(self).module_view(caller as int).module.function_handles.len(),
        ensures
            final(self).wf(),
            final(fetcher).inv(),
            registry_extends(old(self).registry, final(self).registry),
            forall|x: ModuleId| final(fetcher).response(x) == old(fetcher).response(x),
            forall|x: ModuleId| old(self).spec_get(x) is None
                && old(fetcher).response(x) is None ==> final(self).spec_get(x) is None,
            (r matches Ok(o) ==> (o matches Some(f) ==> {
                let fh = old(self).module_view(
                    caller as int).module.function_handles[idx as int];
                &&& !f.module.local
                &&& f.module.index < final(self).count()
                &&& final(self).spec_get(fh.module) == Some(f.module.index)
                &&& is_first_fn_named(final(self).module_view(f.module.index as int).module,
                    f.index as int, fh.name)
            })),
            (r matches Ok(o) ==> (o is None ==> {
                let fh = old(self).module_view(
                    caller as int).module.function_handles[idx as int];
                final(self).spec_get(fh.module) is None
            })),
            ({
                let fh = old(self).module_view(
                    caller as int).module.function_handles[idx as int];
                &&& (old(self).spec_get(fh.module) is Some
                    ==> *final(self) == *old(self) && *final(fetcher) == *old(fetcher))
                &&& (old(self).spec_get(fh.module) matches Some(j) ==> {
                    let m = old(self).module_view(j as int).module;
                    &&& (has_fn_named(m, fh.name) ==> (r matches Ok(o) && o matches Some(f)
                        && f.module == ModuleRef { local: false, index: j }))
                    &&& (!has_fn_named(m, fh.name) ==> (r matches Err(e)
                        && e.major == StatusCode::LinkerError))
                })
                &&& (old(self).spec_get(fh.module) is None
                    ==> match old(fetcher).response(fh.module) {
                    None => r == Ok::<Option<FunctionRef>, VMStatus>(None),
                    Some(mv) => match mv.rejected {
                        Some(errors) => (r matches Err(e)
                            && e == (if errors.len() == 0 {
                                VMStatus { major: StatusCode::VerifierInvariantViolation }
                            } else {
                                errors[0]
                            })
                            && final(self).spec_get(fh.module) is None),
                        None => {
                            &&& final(self).module_view(
                                old(self).count() as int).module == mv.module
                            &&& final(self).spec_get(fh.module)
                                == Some(old(self).count() as usize)
                            &&& (has_fn_named(mv.module, fh.name) ==> (r matches Ok(o)
                                && o matches Some(f)
                                && f.module == ModuleRef {
                                    local: false,
                                    index: old(self).count() as usize,
                                }))
                            &&& (!has_fn_named(mv.module, fh.name) ==> (r matches Err(e)
                                && e.major == StatusCode::LinkerError))
                        }
                    },
                })
            }),
    {
        let function_handle = self.registry.module_at(caller).module.function_handles[idx];
        let callee_name = function_handle.name;
        let callee_module_id = function_handle.module;

        match self.get_loaded_module_with_fetcher(&callee_module_id, fetcher) {
            Ok(Some(j)) => {
                match self.registry.module_at(j).function_def_index(callee_name) {
                    Some(callee_func_idx) => Ok(Some(FunctionRef::new(
                        ModuleRef { local: false, index: j },
                        callee_func_idx,
                    ))),
                    None => Err(VMStatus::new(StatusCode::LinkerError)),
                }
            }
            Ok(None) => Ok(None),
            Err(errors) => Err(errors),
        }
    }


    /// Resolves a struct token: the type arguments first, in declaration
    /// order, into a fresh context (short-circuiting to unknown), then the
    /// struct handle, then the substitution of the fresh context into the
    /// base shape.  Called with the step's gas already charged.
    #[verifier::loop_isolation(false)]
    #[verifier::rlimit(100)]
    #[verifier::spinoff_prover]
    fn resolve_struct_token_with_fetcher<F: ModuleFetcher>(
        &mut self,
        md: &VerifiedModule,
        sh_idx: u16,
        type_args: &Vec<SignatureToken>,
        type_context: &TypeContext,
        gas_meter: &mut GasMeter,
        natives: &NativeRegistry,
        fetcher: &mut F,
    ) -> (r: VMResult<Option<Type>>)
        requires
            old(self).wf(),
            old(fetcher).inv(),
            module_wf(md@),
        ensures
            final(self).wf(),
            final(fetcher).inv(),
            registry_extends(old(self).registry, final(self).registry),
            forall|x: ModuleId| final(fetcher).response(x) == old(fetcher).response(x),
            forall|x: ModuleId| old(self).spec_get(x) is None
                && old(fetcher).response(x) is None ==> final(self).spec_get(x) is None,
            final(gas_meter).remaining <= old(gas_meter).remaining,
            (r matches Ok(o) ==> (o matches Some(t)
                ==> t.type_view() matches TypeV::Struct(_))),
            (old(gas_meter).remaining >= 1 ==> (tokens_view(type_args@).len() == 0
                && sh_idx < md@.struct_handles.len()
                && old(self).spec_get(md@.struct_handles[sh_idx as int].module) is None
                && old(fetcher).response(md@.struct_handles[sh_idx as int].module) is None
                ==> r == Ok::<Option<Type>, VMStatus>(None)
                    && *final(self) == *old(self)
                    && final(gas_meter).remaining == old(gas_meter).remaining - 1)),
            (old(gas_meter).remaining >= 2 ==> (tokens_view(type_args@).len() >= 1
                ==> (tokens_view(type_args@)[0] matches TokenV::Struct(sh2, args2)
                ==> (args2.len() == 0 && sh2 < md@.struct_handles.len()
                    && old(self).spec_get(md@.struct_handles[sh2 as int].module) is None
                    && old(fetcher).response(
                        md@.struct_handles[sh2 as int].module) is None
                    ==> r == Ok::<Option<Type>, VMStatus>(None)
                        && *final(self) == *old(self))))),
            (tokens_all_flat(tokens_view(type_args@))
                && old(gas_meter).remaining >= 1 + flat_costs(tokens_view(type_args@))
                && sh_idx < md@.struct_handles.len()
                && old(self).spec_get(md@.struct_handles[sh_idx as int].module) is Some
                ==> {
                let j = old(self).spec_get(
                    md@.struct_handles[sh_idx as int].module)->Some_0;
                let name = md@.struct_handles[sh_idx as int].name;
                spec_resolve_flats(type_context@, tokens_view(type_args@)) matches Ok(ts)
                    ==> (forall|s: int| is_first_struct_named(
                        old(self).module_view(j as int).module, s, name)
                        ==> (old(self).module_view(j as int).memo[s] matches Some(dv)
                        ==> match spec_subst_def(ts, dv) {
                            Ok(sub) => (r matches Ok(o) && o matches Some(t)
                                && t.type_view() == TypeV::Struct(sub)),
                            Err(e) => r == Err::<Option<Type>, VMStatus>(e),
                        }))
            }),
        decreases gas_meter.remaining, 3int,
    {

        let ghost entry_gas = gas_meter.remaining;
        let ghost argsv = tokens_view(type_args@);
        let ghost flat_run = tokens_all_flat(argsv)
            && old(gas_meter).remaining >= 1 + flat_costs(argsv);
        let ghost first_absent = argsv.len() >= 1
            && (argsv[0] matches TokenV::Struct(sh2, args2)
                && args2.len() == 0 && sh2 < md@.struct_handles.len()
                && old(self).spec_get(md@.struct_handles[sh2 as int].module) is None
                && old(fetcher).response(
                    md@.struct_handles[sh2 as int].module) is None)
            && old(gas_meter).remaining >= 2;
        proof {
            lemma_tokens_view(type_args@);
        }
        let mut resolved_args: Vec<Type> = Vec::new();
        let n = type_args.len();
        for i in 0..n
            invariant
                self.wf(),
                fetcher.inv(),
                registry_extends(old(self).registry, self.registry),
                forall|x: ModuleId| fetcher.response(x) == old(fetcher).response(x),
                gas_meter.remaining <= entry_gas,
                forall|x: ModuleId| old(self).spec_get(x) is None
                    && old(fetcher).response(x) is None ==> self.spec_get(x) is None,
                i == 0 ==> *self == *old(self) && *fetcher == *old(fetcher)
                    && gas_meter.remaining == entry_gas,
                argsv == tokens_view(type_args@),
                first_absent ==> i == 0,
                flat_run ==> {
                    &&& spec_resolve_flats(type_context@, argsv.take(i as int))
                        == Ok::<_, VMStatus>(types_view(resolved_args@))
                    &&& gas_meter.remaining
                        == entry_gas - flat_costs(argsv.take(i as int))
                    &&& *self == *old(self)
                    &&& *fetcher == *old(fetcher)
                },
        {
            proof {
                lemma_tokens_view(type_args@);
                if flat_run {
                    lemma_flat_costs_split(argsv, i as int);
                    assert(argsv.skip(i as int).first() == argsv[i as int]);
                    assert(argsv.skip(i as int).drop_first()
                        =~= argsv.skip(i as int + 1));
                    lemma_flat_costs_split(argsv, i as int + 1);
                    lemma_resolve_flats_extend(type_context@, argsv, i as int);
                }
            }
            let resolved_type = self.resolve_signature_token_with_fetcher(
                md,
                &type_args[i],
                type_context,
                gas_meter,
                natives,
                fetcher,
            );
            let ghost prev_args = resolved_args@;
            match resolved_type {
                Ok(Some(t)) => {
                    resolved_args.push(t);
                    proof {
                        if flat_run {
                            lemma_types_view(prev_args);
                            assert(resolved_args@.drop_last() =~= prev_args);
                            assert(types_view(resolved_args@)
                                == types_view(prev_args).push(t.type_view()));
                        }
                    }
                }
                Ok(None) => {
                    proof {
                        if flat_run {
                            assert(spec_resolve_flat(type_context@,
                                argsv[i as int]) is Ok ==> false);
                        }
                    }
                    return Ok(None);
                }
                Err(e) => {
                    proof {
                        if flat_run {
                            lemma_resolve_flats_prefix_err(type_context@, argsv,
                                i as int + 1);
                        }
                    }
                    return Err(e);
                }
            }
        }
        let ctx = TypeContext::new(resolved_args);
        proof {
            if flat_run {
                assert(argsv.take(n as int) =~= argsv);
            }
        }
        match self.resolve_struct_handle_with_fetcher(md, sh_idx, gas_meter, natives, fetcher) {
            Ok(Some(def)) => match ctx.subst_struct_def(&def) {
                Ok(substituted) => Ok(Some(Type::Struct(substituted))),
                Err(e) => Err(e),
            },
            Ok(None) => Ok(None),
            Err(e) => Err(e),
        }
                }

    /// Resolves a struct-handle index of `md` into a struct shape:
    /// resolves the defining module through the cache, looks the struct's
    /// name up in its table (a linkage fault if missing), and resolves its
    /// definition recursively against that module's memo.
    pub fn resolve_struct_handle_with_fetcher<F: ModuleFetcher>(
        &mut self,
        md: &VerifiedModule,
        sh_idx: u16,
        gas_meter: &mut GasMeter,
        natives: &NativeRegistry,
        fetcher: &mut F,
    ) -> (r: VMResult<Option<StructDef>>)
        requires
            old(self).wf(),
            old(fetcher).inv(),
            module_wf(md@),
        ensures
            final(self).wf(),
            final(fetcher).inv(),
            registry_extends(old(self).registry, final(self).registry),
            forall|x: ModuleId| final(fetcher).response(x) == old(fetcher).response(x),
            forall|x: ModuleId| old(self).spec_get(x) is None
                && old(fetcher).response(x) is None ==> final(self).spec_get(x) is None,
            final(gas_meter).remaining <= old(gas_meter).remaining,
            old(gas_meter).remaining == 0 ==> (r matches Err(e)
                && e.major == StatusCode::OutOfGas),
            (old(gas_meter).remaining >= 1 && sh_idx >= md@.struct_handles.len()
                ==> (r matches Err(e)
                    && e.major == StatusCode::VerifierInvariantViolation)),
            (old(gas_meter).remaining >= 1 && sh_idx < md@.struct_handles.len() ==> {
                let handle = md@.struct_handles[sh_idx as int];
                &&& (old(self).spec_get(handle.module) is None
                    && old(fetcher).response(handle.module) is None
                    ==> r == Ok::<Option<StructDef>, VMStatus>(None)
                        && *final(self) == *old(self)
                        && final(gas_meter).remaining == old(gas_meter).remaining - 1)
                &&& (old(self).spec_get(handle.module) matches Some(j)
                    && !has_struct_named(old(self).module_view(j as int).module, handle.name)
                    ==> (r matches Err(e) && e.major == StatusCode::LinkerError))
                &&& (old(self).spec_get(handle.module) is None
                    ==> (old(fetcher).response(handle.module) matches Some(mv)
                    ==> (mv.rejected is None && !has_struct_named(mv.module, handle.name)
                    ==> (r matches Err(e) && e.major == StatusCode::LinkerError))))
                &&& (old(self).spec_get(handle.module) is None
                    ==> (old(fetcher).response(handle.module) matches Some(mv)
                    ==> (mv.rejected matches Some(errors)
                    ==> (r matches Err(e)
                        && e == (if errors.len() == 0 {
                            VMStatus { major: StatusCode::VerifierInvariantViolation }
                        } else {
                            errors[0]
                        })))))
                &&& (old(self).spec_get(handle.module) is None
                    ==> (old(fetcher).response(handle.module) matches Some(mv)
                    ==> (mv.rejected is None
                    ==> (forall|s: int| is_first_struct_named(mv.module, s, handle.name)
                        ==> (r matches Ok(o) ==> (o matches Some(d)
                            ==> final(self).module_view(
                                old(self).count() as int).memo[s]
                                == Some(d.def_view())))))))
                &&& (old(self).spec_get(handle.module) matches Some(j)
                    ==> (forall|s: int| is_first_struct_named(
                        old(self).module_view(j as int).module, s, handle.name) ==> {
                    &&& (old(self).module_view(j as int).memo[s] matches Some(dv)
                        ==> (r matches Ok(o) && o matches Some(d) && d.def_view() == dv
                            && *final(self) == *old(self) && *final(fetcher) == *old(fetcher)
                            && final(gas_meter).remaining
                                == old(gas_meter).remaining - 1))
                    &&& (r matches Ok(o) ==> (o matches Some(d)
                        ==> final(self).module_view(j as int).memo[s]
                            == Some(d.def_view())))
                }))
            }),
        decreases gas_meter.remaining, 2int,
    {
        match gas_meter.charge(1) {
            Ok(_) => {}
            Err(e) => {
                return Err(e);
            }
        }
        if (sh_idx as usize) >= md.struct_handles.len() {
            return Err(VMStatus::new(StatusCode::VerifierInvariantViolation));
        }
        let struct_handle = md.struct_handles[sh_idx as usize];
        let struct_name = struct_handle.name;
        let struct_def_module_id = struct_handle.module;
        match self.get_loaded_module_with_fetcher(&struct_def_module_id, fetcher) {
            Ok(Some(j)) => {
                proof {
                    assert(self.registry.modules@[j as int].wf());
                }
                let struct_def_idx = match self.registry.module_at(j).struct_def_index(
                    struct_name,
                ) {
                    Some(sidx) => sidx,
                    None => {
                        return Err(VMStatus::new(StatusCode::LinkerError));
                    }
                };
                self.resolve_struct_def_at(j, struct_def_idx, gas_meter, natives, fetcher)
            }
            Ok(None) => Ok(None),
            Err(errors) => Err(errors),
        }
    }

    /// Resolves a signature token of `md` into a concrete type: the
    /// stateless fragment is pinned exactly by [`spec_resolve_flat`].
    /// Primitives resolve immediately; a type parameter is looked up in
    /// `type_context`; a struct token first resolves its type arguments in
    /// declaration order into a fresh context (short-circuiting to
    /// `Ok(None)` if any is unknown), then resolves the struct handle and
    /// substitutes the fresh context into the base shape; references
    /// resolve their inner token and wrap it.  Every step charges the gas
    /// meter first and aborts the whole chain on exhaustion.
    #[verifier::loop_isolation(false)]
    pub fn resolve_signature_token_with_fetcher<F: ModuleFetcher>(
        &mut self,
        md: &VerifiedModule,
        tok: &SignatureToken,
        type_context: &TypeContext,
        gas_meter: &mut GasMeter,
        natives: &NativeRegistry,
        fetcher: &mut F,
    ) -> (r: VMResult<Option<Type>>)
        requires
            old(self).wf(),
            old(fetcher).inv(),
            module_wf(md@),
        ensures
            final(self).wf(),
            final(fetcher).inv(),
            registry_extends(old(self).registry, final(self).registry),
            forall|x: ModuleId| final(fetcher).response(x) == old(fetcher).response(x),
            forall|x: ModuleId| old(self).spec_get(x) is None
                && old(fetcher).response(x) is None ==> final(self).spec_get(x) is None,
            final(gas_meter).remaining <= old(gas_meter).remaining,
            old(gas_meter).remaining == 0 ==> (r matches Err(e)
                && e.major == StatusCode::OutOfGas),
            old(gas_meter).remaining >= 1 ==> {
                &&& tok@ == TokenV::Bool ==> (r matches Ok(o) && o matches Some(t)
                    && t.type_view() == TypeV::Bool && *final(self) == *old(self))
                &&& tok@ == TokenV::U64 ==> (r matches Ok(o) && o matches Some(t)
                    && t.type_view() == TypeV::U64 && *final(self) == *old(self))
                &&& tok@ == TokenV::String ==> (r matches Ok(o) && o matches Some(t)
                    && t.type_view() == TypeV::String && *final(self) == *old(self))
                &&& tok@ == TokenV::ByteArray ==> (r matches Ok(o) && o matches Some(t)
                    && t.type_view() == TypeV::ByteArray && *final(self) == *old(self))
                &&& tok@ == TokenV::Address ==> (r matches Ok(o) && o matches Some(t)
                    && t.type_view() == TypeV::Address && *final(self) == *old(self))
                &&& (tok@ matches TokenV::TypeParameter(i) ==> *final(self) == *old(self)
                    && (i < type_context@.len() ==> (r matches Ok(o) && o matches Some(t)
                        && t.type_view() == type_context@[i as int]))
                    && (i >= type_context@.len() ==> (r matches Err(e)
                        && e.major == StatusCode::TypeResolutionFailure)))
            },
            (r matches Ok(o) ==> (o matches Some(t) ==> {
                &&& (tok@ matches TokenV::Reference(inner)
                    ==> t.type_view() matches TypeV::Reference(_))
                &&& (tok@ matches TokenV::MutableReference(inner)
                    ==> t.type_view() matches TypeV::MutableReference(_))
                &&& (tok@ matches TokenV::Struct(sh, args)
                    ==> t.type_view() matches TypeV::Struct(_))
            })),
            (old(gas_meter).remaining >= 2 ==> (tok@ matches TokenV::Struct(sh, args)
                ==> (args.len() == 0 && sh < md@.struct_handles.len()
                    && old(self).spec_get(md@.struct_handles[sh as int].module) is None
                    && old(fetcher).response(md@.struct_handles[sh as int].module) is None
                    ==> r == Ok::<Option<Type>, VMStatus>(None)
                        && *final(self) == *old(self)
                        && final(gas_meter).remaining
                            == old(gas_meter).remaining - 2))),
            (token_is_flat(tok@) && old(gas_meter).remaining >= flat_cost(tok@) ==> {
                &&& *final(self) == *old(self)
                &&& *final(fetcher) == *old(fetcher)
                &&& final(gas_meter).remaining
                    == old(gas_meter).remaining - flat_cost(tok@)
                &&& (spec_resolve_flat(type_context@, tok@) matches Ok(tv)
                    ==> (r matches Ok(o) && o matches Some(t) && t.type_view() == tv))
                &&& (spec_resolve_flat(type_context@, tok@) matches Err(e)
                    ==> r == Err::<Option<Type>, VMStatus>(e))
            }),
            (old(gas_meter).remaining >= 3 ==> (tok@ matches TokenV::Struct(sh, args)
                ==> (args.len() >= 1 ==> (args[0] matches TokenV::Struct(sh2, args2)
                    ==> (args2.len() == 0 && sh2 < md@.struct_handles.len()
                        && old(self).spec_get(
                            md@.struct_handles[sh2 as int].module) is None
                        && old(fetcher).response(
                            md@.struct_handles[sh2 as int].module) is None
                        ==> r == Ok::<Option<Type>, VMStatus>(None)
                            && *final(self) == *old(self)))))),
            (tok@ matches TokenV::Struct(sh, args) ==> (tokens_all_flat(args)
                && old(gas_meter).remaining >= 2 + flat_costs(args)
                && sh < md@.struct_handles.len()
                && old(self).spec_get(md@.struct_handles[sh as int].module) is Some ==> {
                let j = old(self).spec_get(md@.struct_handles[sh as int].module)->Some_0;
                let name = md@.struct_handles[sh as int].name;
                spec_resolve_flats(type_context@, args) matches Ok(ts)
                    ==> (forall|s: int| is_first_struct_named(
                        old(self).module_view(j as int).module, s, name)
                        ==> (old(self).module_view(j as int).memo[s] matches Some(dv)
                        ==> match spec_subst_def(ts, dv) {
                            Ok(sub) => (r matches Ok(o) && o matches Some(t)
                                && t.type_view() == TypeV::Struct(sub)),
                            Err(e) => r == Err::<Option<Type>, VMStatus>(e),
                        }))
            })),
        decreases gas_meter.remaining, 2int,
    {
        match gas_meter.charge(1) {
            Ok(_) => {}
            Err(e) => {
                return Err(e);
            }
        }
        match tok {
            SignatureToken::Bool => Ok(Some(Type::Bool)),
            SignatureToken::U64 => Ok(Some(Type::U64)),
            SignatureToken::String => Ok(Some(Type::String)),
            SignatureToken::ByteArray => Ok(Some(Type::ByteArray)),
            SignatureToken::Address => Ok(Some(Type::Address)),
            SignatureToken::TypeParameter(idx) => match type_context.get_type(*idx) {
                Ok(t) => Ok(Some(t)),
                Err(e) => Err(e),
            },
            SignatureToken::Struct(sh_idx, type_args) => {
                self.resolve_struct_token_with_fetcher(
                    md,
                    *sh_idx,
                    type_args,
                    type_context,
                    gas_meter,
                    natives,
                    fetcher,
                )
            }
            SignatureToken::Reference(sub_tok) => {
                match self.resolve_signature_token_with_fetcher(
                    md,
                    sub_tok,
                    type_context,
                    gas_meter,
                    natives,
                    fetcher,
                ) {
                    Ok(Some(t)) => Ok(Some(Type::Reference(Box::new(t)))),
                    Ok(None) => Ok(None),
                    Err(e) => Err(e),
                }
            }
            SignatureToken::MutableReference(sub_tok) => {
                match self.resolve_signature_token_with_fetcher(
                    md,
                    sub_tok,
                    type_context,
                    gas_meter,
                    natives,
                    fetcher,
                ) {
                    Ok(Some(t)) => Ok(Some(Type::MutableReference(Box::new(t)))),
                    Ok(None) => Ok(None),
                    Err(e) => Err(e),
                }
            }
        }
    }

    /// Resolves struct-definition index `idx` of `md` against the memo
    /// snapshot `memo`.  A filled memo slot is returned at once: no
    /// re-walk, no re-charge, nothing touched.  Otherwise the meter is
    /// charged, an identity context of the struct's own arity is built,
    /// and either the native registry is asked (absence there is a linkage
    /// fault) or every field token is resolved in declaration order; if
    /// any field is unknown the whole struct is unknown and nothing is
    /// recorded.  A fully resolved shape is written into the memo slot.
    #[verifier::loop_isolation(false)]
    pub fn resolve_struct_def_with_fetcher<F: ModuleFetcher>(
        &mut self,
        md: &VerifiedModule,
        memo: &mut Vec<Option<StructDef>>,
        idx: usize,
        gas_meter: &mut GasMeter,
        natives: &NativeRegistry,
        fetcher: &mut F,
    ) -> (r: VMResult<Option<StructDef>>)
        requires
            old(self).wf(),
            old(fetcher).inv(),
            module_wf(md@),
            idx < md@.struct_defs.len(),
            old(memo)@.len() == md@.struct_defs.len(),
        ensures
            final(self).wf(),
            final(fetcher).inv(),
            registry_extends(old(self).registry, final(self).registry),
            forall|x: ModuleId| final(fetcher).response(x) == old(fetcher).response(x),
            forall|x: ModuleId| old(self).spec_get(x) is None
                && old(fetcher).response(x) is None ==> final(self).spec_get(x) is None,
            final(gas_meter).remaining <= old(gas_meter).remaining,
            final(memo)@.len() == old(memo)@.len(),
            (memo_view(old(memo)@)[idx as int] matches Some(dv) ==> (r matches Ok(o)
                && o matches Some(d) && d.def_view() == dv
                && *final(self) == *old(self) && *final(memo) == *old(memo)
                && *final(gas_meter) == *old(gas_meter) && *final(fetcher) == *old(fetcher))),
            (r matches Ok(o) ==> (o matches Some(d)
                ==> memo_view(final(memo)@)[idx as int] == Some(d.def_view()))),
            (r matches Ok(o) ==> (o is None ==> *final(memo) == *old(memo))),
            (r is Err ==> *final(memo) == *old(memo)),
            forall|i: int| 0 <= i < old(memo)@.len() && memo_view(old(memo)@)[i] is Some
                ==> memo_view(final(memo)@)[i] == memo_view(old(memo)@)[i],
            (memo_view(old(memo)@)[idx as int] is None && old(gas_meter).remaining == 0
                ==> (r matches Err(e) && e.major == StatusCode::OutOfGas)),
            (memo_view(old(memo)@)[idx as int] is None && old(gas_meter).remaining >= 1
                && md@.struct_defs[idx as int].native ==> {
                let handle = md@.struct_handles[
                    md@.struct_defs[idx as int].struct_handle as int];
                &&& (natives.spec_lookup(handle.module, handle.name) matches Some(desc)
                    ==> (r matches Ok(o) && o matches Some(d)
                        && d.def_view() == StructDefV::Native(desc)
                        && *final(self) == *old(self) && *final(fetcher) == *old(fetcher)
                        && final(gas_meter).remaining == old(gas_meter).remaining - 1))
                &&& (natives.spec_lookup(handle.module, handle.name) is None
                    ==> (r matches Err(e) && e.major == StatusCode::LinkerError
                        && *final(self) == *old(self) && *final(fetcher) == *old(fetcher)))
            }),
            (memo_view(old(memo)@)[idx as int] is None
                && !md@.struct_defs[idx as int].native ==> (r matches Ok(o)
                ==> (o matches Some(d) ==> (d.def_view() matches StructDefV::Declared(ts)
                    && ts.len() == md@.struct_defs[idx as int].fields.len())))),
            (memo_view(old(memo)@)[idx as int] is None && old(gas_meter).remaining >= 3
                && !md@.struct_defs[idx as int].native
                && md@.struct_defs[idx as int].fields.len() >= 1 ==> {
                let field = md@.struct_defs[idx as int].fields[0];
                field matches TokenV::Struct(sh, args) ==> (args.len() == 0
                    && sh < md@.struct_handles.len()
                    && old(self).spec_get(md@.struct_handles[sh as int].module) is None
                    && old(fetcher).response(md@.struct_handles[sh as int].module) is None
                    ==> r == Ok::<Option<StructDef>, VMStatus>(None)
                        && *final(memo) == *old(memo) && *final(self) == *old(self)
                        && final(gas_meter).remaining == old(gas_meter).remaining - 3)
            }),
            (memo_view(old(memo)@)[idx as int] is None
                && !md@.struct_defs[idx as int].native
                && tokens_all_flat(md@.struct_defs[idx as int].fields)
                && old(gas_meter).remaining
                    >= 1 + flat_costs(md@.struct_defs[idx as int].fields) ==> {
                let arity = md@.struct_handles[
                    md@.struct_defs[idx as int].struct_handle as int].type_formals as int;
                match spec_resolve_flats(spec_identity_context(arity),
                    md@.struct_defs[idx as int].fields) {
                    Ok(ts) => (r matches Ok(o) && o matches Some(d)
                        && d.def_view() == StructDefV::Declared(ts)
                        && memo_view(final(memo)@)[idx as int]
                            == Some(StructDefV::Declared(ts))
                        && *final(self) == *old(self) && *final(fetcher) == *old(fetcher)),
                    Err(e) => r == Err::<Option<StructDef>, VMStatus>(e)
                        && *final(self) == *old(self) && *final(fetcher) == *old(fetcher)
                        && *final(memo) == *old(memo),
                }
            }),
        decreases gas_meter.remaining, 0int,
    {
        match &memo[idx] {
            Some(def) => {
                return Ok(Some(def.duplicate()));
            }
            None => {}
        }
        match gas_meter.charge(1) {
            Ok(_) => {}
            Err(e) => {
                return Err(e);
            }
        }
        let ghost entry_gas = gas_meter.remaining;
        let struct_def = &md.struct_defs[idx];
        proof {
            assert(md@.struct_defs[idx as int] == md.struct_defs@[idx as int]@);
            assert(struct_def.struct_handle == struct_def@.struct_handle);
            assert(struct_def@.struct_handle < md@.struct_handles.len());
        }
        let struct_handle = md.struct_handles[struct_def.struct_handle as usize];
        let type_context = TypeContext::identity_mapping(struct_handle.type_formals);
        match &struct_def.field_information {
            StructFieldInformation::Native => {
                match natives.lookup(&struct_handle.module, struct_handle.name) {
                    Some(native) => {
                        let def = StructDef::Native(native);
                        memo.set(idx, Some(StructDef::Native(native)));
                        proof {
                            assert(memo_view(memo@)[idx as int] == Some(def.def_view()));
                        }
                        Ok(Some(def))
                    }
                    None => Err(VMStatus::new(StatusCode::LinkerError)),
                }
            }
            StructFieldInformation::Declared(fields) => {
                let mut field_types: Vec<Type> = Vec::new();
                let n = fields.len();
                let ghost fieldsv = tokens_view(fields@);
                let ghost identity = type_context@;
                let ghost flat_run = tokens_all_flat(fieldsv)
                    && old(gas_meter).remaining >= 1 + flat_costs(fieldsv);
                proof {
                    lemma_tokens_view(fields@);
                    assert(identity =~= spec_identity_context(
                        struct_handle.type_formals as int));
                }
                for i in 0..n
                    invariant
                        self.wf(),
                        fetcher.inv(),
                        registry_extends(old(self).registry, self.registry),
                        forall|x: ModuleId| fetcher.response(x) == old(fetcher).response(x),
                        gas_meter.remaining <= entry_gas,
                        forall|x: ModuleId| old(self).spec_get(x) is None
                            && old(fetcher).response(x) is None ==> self.spec_get(x) is None,
                        field_types@.len() == i,
                        i == 0 ==> *self == *old(self) && *fetcher == *old(fetcher)
                            && gas_meter.remaining == entry_gas,
                        *memo == *old(memo),
                        (md@.struct_defs[idx as int].fields.len() >= 1
                            && (md@.struct_defs[idx as int].fields[0] matches
                                TokenV::Struct(sh, args) && args.len() == 0
                                && sh < md@.struct_handles.len()
                                && old(self).spec_get(
                                    md@.struct_handles[sh as int].module) is None
                                && old(fetcher).response(
                                    md@.struct_handles[sh as int].module) is None)
                            && entry_gas >= 2) ==> i == 0,
                        fieldsv == tokens_view(fields@),
                        identity == type_context@,
                        flat_run ==> {
                            &&& spec_resolve_flats(identity, fieldsv.take(i as int))
                                == Ok::<_, VMStatus>(types_view(field_types@))
                            &&& gas_meter.remaining
                                == entry_gas - flat_costs(fieldsv.take(i as int))
                            &&& *self == *old(self)
                            &&& *fetcher == *old(fetcher)
                        },
                {
                    proof {
                        lemma_tokens_view(fields@);
                        if flat_run {
                            lemma_flat_costs_split(fieldsv, i as int);
                            assert(fieldsv.skip(i as int).first() == fieldsv[i as int]);
                            assert(fieldsv.skip(i as int).drop_first()
                                =~= fieldsv.skip(i as int + 1));
                            lemma_flat_costs_split(fieldsv, i as int + 1);
                            lemma_resolve_flats_extend(identity, fieldsv, i as int);
                        }
                    }
                    let ty = self.resolve_signature_token_with_fetcher(
                        md,
                        &fields[i],
                        &type_context,
                        gas_meter,
                        natives,
                        fetcher,
                    );
                    let ghost prev_types = field_types@;
                    match ty {
                        Ok(Some(t)) => {
                            field_types.push(t);
                            proof {
                                if flat_run {
                                    lemma_types_view(prev_types);
                                    assert(field_types@.drop_last() =~= prev_types);
                                    assert(types_view(field_types@)
                                        == types_view(prev_types).push(t.type_view()));
                                }
                            }
                        }
                        Ok(None) => {
                            proof {
                                if flat_run {
                                    assert(spec_resolve_flat(identity,
                                        fieldsv[i as int]) is Ok ==> false);
                                }
                            }
                            return Ok(None);
                        }
                        Err(e) => {
                            proof {
                                if flat_run {
                                    lemma_resolve_flats_prefix_err(identity, fieldsv,
                                        i as int + 1);
                                }
                            }
                            return Err(e);
                        }
                    }
                }
                let def = StructDef::new(field_types);
                let dup = def.duplicate();
                memo.set(idx, Some(dup));
                proof {
                    assert(memo_view(memo@)[idx as int] == Some(def.def_view()));
                    lemma_types_view(field_types@);
                    lemma_tokens_view(fields@);
                    assert(md@.struct_defs[idx as int].fields =~= tokens_view(fields@));
                    if flat_run {
                        assert(fieldsv.take(n as int) =~= fieldsv);
                    }
                }
                Ok(Some(def))
            }
        }
    }

    /// Resolves struct-definition index `idx` of the module at arena
    /// index `module`, against that module's own memo.  A filled memo slot
    /// is handed back with nothing re-walked, re-charged or touched;
    /// otherwise the shape is resolved recursively and recorded.
    pub fn resolve_struct_def_at<F: ModuleFetcher>(
        &mut self,
        module: usize,
        idx: usize,
        gas_meter: &mut GasMeter,
        natives: &NativeRegistry,
        fetcher: &mut F,
    ) -> (r: VMResult<Option<StructDef>>)
        requires
            old(self).wf(),
            old(fetcher).inv(),
            module < old(self).count(),
            idx < old(self).module_view(module as int).memo.len(),
        ensures
            final(self).wf(),
            final(fetcher).inv(),
            registry_extends(old(self).registry, final(self).registry),
            forall|x: ModuleId| final(fetcher).response(x) == old(fetcher).response(x),
            forall|x: ModuleId| old(self).spec_get(x) is None
                && old(fetcher).response(x) is None ==> final(self).spec_get(x) is None,
            final(gas_meter).remaining <= old(gas_meter).remaining,
            (old(self).module_view(module as int).memo[idx as int] matches Some(dv)
                ==> (r matches Ok(o) && o matches Some(d) && d.def_view() == dv
                    && *final(self) == *old(self) && *final(gas_meter) == *old(gas_meter)
                    && *final(fetcher) == *old(fetcher))),
            (r matches Ok(o) ==> (o matches Some(d)
                ==> final(self).module_view(module as int).memo[idx as int]
                    == Some(d.def_view()))),
            (old(self).module_view(module as int).memo[idx as int] is None
                && old(gas_meter).remaining == 0
                ==> (r matches Err(e) && e.major == StatusCode::OutOfGas)),
            (old(self).module_view(module as int).memo[idx as int] is None
                && old(gas_meter).remaining >= 1
                && old(self).module_view(module as int).module.struct_defs[
                    idx as int].native ==> {
                let m = old(self).module_view(module as int).module;
                let handle = m.struct_handles[m.struct_defs[idx as int].struct_handle as int];
                &&& (natives.spec_lookup(handle.module, handle.name) matches Some(desc)
                    ==> (r matches Ok(o) && o matches Some(d)
                        && d.def_view() == StructDefV::Native(desc)
                        && final(gas_meter).remaining == old(gas_meter).remaining - 1))
                &&& (natives.spec_lookup(handle.module, handle.name) is None
                    ==> (r matches Err(e) && e.major == StatusCode::LinkerError
                        && *final(self) == *old(self) && *final(fetcher) == *old(fetcher)))
            }),
            (old(self).module_view(module as int).memo[idx as int] is None
                && old(gas_meter).remaining >= 3
                && !old(self).module_view(module as int).module.struct_defs[
                    idx as int].native
                && old(self).module_view(module as int).module.struct_defs[
                    idx as int].fields.len() >= 1 ==> {
                let m = old(self).module_view(module as int).module;
                m.struct_defs[idx as int].fields[0] matches TokenV::Struct(sh, args)
                    ==> (args.len() == 0 && sh < m.struct_handles.len()
                        && old(self).spec_get(m.struct_handles[sh as int].module) is None
                        && old(fetcher).response(m.struct_handles[sh as int].module) is None
                        ==> r == Ok::<Option<StructDef>, VMStatus>(None)
                            && final(self).module_view(
                                module as int).memo[idx as int] is None
                            && *final(self) == *old(self)
                            && final(gas_meter).remaining
                                == old(gas_meter).remaining - 3)
            }),
            (old(self).module_view(module as int).memo[idx as int] is None
                && !old(self).module_view(module as int).module.struct_defs[
                    idx as int].native
                && tokens_all_flat(old(self).module_view(
                    module as int).module.struct_defs[idx as int].fields)
                && old(gas_meter).remaining >= 1 + flat_costs(old(self).module_view(
                    module as int).module.struct_defs[idx as int].fields) ==> {
                let m = old(self).module_view(module as int).module;
                let arity = m.struct_handles[
                    m.struct_defs[idx as int].struct_handle as int].type_formals as int;
                match spec_resolve_flats(spec_identity_context(arity),
                    m.struct_defs[idx as int].fields) {
                    Ok(ts) => (r matches Ok(o) && o matches Some(d)
                        && d.def_view() == StructDefV::Declared(ts)),
                    Err(e) => r == Err::<Option<StructDef>, VMStatus>(e),
                }
            }),
        decreases gas_meter.remaining, 1int,
    {
        proof {
            assert(self.registry.modules@[module as int].wf());
        }
        let (md, mut memo) = self.registry.module_at(module).snapshot();
        let r = self.resolve_struct_def_with_fetcher(
            &md,
            &mut memo,
            idx,
            gas_meter,
            natives,
            fetcher,
        );
        self.registry.absorb_memo(module, &memo);
        proof {
            let m = old(self).module_view(module as int).module;
            if old(self).module_view(module as int).memo[idx as int] is None
                && old(gas_meter).remaining >= 3
                && !m.struct_defs[idx as int].native
                && m.struct_defs[idx as int].fields.len() >= 1 {
                match m.struct_defs[idx as int].fields[0] {
                    TokenV::Struct(sh, args) => {
                        if args.len() == 0 && sh < m.struct_handles.len()
                            && old(self).spec_get(m.struct_handles[sh as int].module) is None
                            && old(fetcher).response(
                                m.struct_handles[sh as int].module) is None {
                            assert(r == Ok::<Option<StructDef>, VMStatus>(None));
                            assert(memo_view(memo@)[idx as int] is None);
                            assert(self.module_view(module as int).memo[idx as int] is None);
                        }
                    }
                    _ => {}
                }
            }
        }
        match r {
            Ok(Some(d)) => {
                proof {
                    assert(self.module_view(module as int).memo[idx as int] is Some);
                }
                match self.registry.module_at(module).cached_struct_def_at(idx) {
                    Some(recorded) => Ok(Some(recorded)),
                    None => Ok(Some(d)),
                }
            }
            other => other,
        }
    }
}

/// A token that mentions no struct: its resolution consults neither the
/// cache, the fetcher nor the native registry.
pub open spec fn token_is_flat(t: TokenV) -> bool
    decreases t,
{
    match t {
        TokenV::Struct(sh, args) => false,
        TokenV::Reference(inner) => token_is_flat(*inner),
        TokenV::MutableReference(inner) => token_is_flat(*inner),
        _ => true,
    }
}

/// The gas a flat token's resolution charges: one unit per recursive step.
pub open spec fn flat_cost(t: TokenV) -> nat
    decreases t,
{
    match t {
        TokenV::Reference(inner) => 1 + flat_cost(*inner),
        TokenV::MutableReference(inner) => 1 + flat_cost(*inner),
        _ => 1,
    }
}

/// What resolving a flat token yields: the matching primitive, the
/// context's binding for a type parameter (a resolution fault outside the
/// context), and a reference or mutable reference wrapping its inner
/// token's resolution.  Only meaningful under [`token_is_flat`].
pub open spec fn spec_resolve_flat(ctx: Seq<TypeV>, t: TokenV) -> Result<TypeV, VMStatus>
    decreases t,
{
    match t {
        TokenV::Bool => Ok(TypeV::Bool),
        TokenV::U64 => Ok(TypeV::U64),
        TokenV::String => Ok(TypeV::String),
        TokenV::ByteArray => Ok(TypeV::ByteArray),
        TokenV::Address => Ok(TypeV::Address),
        TokenV::TypeParameter(i) => if i < ctx.len() {
            Ok(ctx[i as int])
        } else {
            Err(VMStatus { major: StatusCode::TypeResolutionFailure })
        },
        TokenV::Struct(sh, args) => Err(VMStatus { major: StatusCode::TypeResolutionFailure }),
        TokenV::Reference(inner) => match spec_resolve_flat(ctx, *inner) {
            Ok(tv) => Ok(TypeV::Reference(Box::new(tv))),
            Err(e) => Err(e),
        },
        TokenV::MutableReference(inner) => match spec_resolve_flat(ctx, *inner) {
            Ok(tv) => Ok(TypeV::MutableReference(Box::new(tv))),
            Err(e) => Err(e),
        },
    }
}

/// Every token of the list is flat.
pub open spec fn tokens_all_flat(args: Seq<TokenV>) -> bool {
    forall|i: int| 0 <= i < args.len() ==> token_is_flat(#[trigger] args[i])
}

/// The gas resolving the whole list charges.
pub open spec fn flat_costs(args: Seq<TokenV>) -> nat
    decreases args,
{
    if args.len() == 0 {
        0
    } else {
        flat_cost(args.first()) + flat_costs(args.drop_first())
    }
}

/// Resolving flat tokens in order, stopping at the first fault.
pub open spec fn spec_resolve_flats(ctx: Seq<TypeV>, args: Seq<TokenV>) -> Result<
    Seq<TypeV>,
    VMStatus,
>
    decreases args,
{
    if args.len() == 0 {
        Ok(Seq::empty())
    } else {
        match spec_resolve_flat(ctx, args.first()) {
            Err(e) => Err(e),
            Ok(t) => match spec_resolve_flats(ctx, args.drop_first()) {
                Err(e) => Err(e),
                Ok(rest) => Ok(seq![t] + rest),
            },
        }
    }
}

/// The list's cost splits at any position.
pub proof fn lemma_flat_costs_split(args: Seq<TokenV>, i: int)
    requires
        0 <= i <= args.len(),
    ensures
        flat_costs(args) == flat_costs(args.take(i)) + flat_costs(args.skip(i)),
    decreases i,
{
    if i == 0 {
        assert(args.take(0).len() == 0);
        assert(args.skip(0) =~= args);
    } else {
        assert(args.take(i).first() == args.first());
        assert(args.take(i).drop_first() =~= args.drop_first().take(i - 1));
        assert(args.skip(i) =~= args.drop_first().skip(i - 1));
        lemma_flat_costs_split(args.drop_first(), i - 1);
    }
}

/// Extending an all-good prefix by one element extends its resolution,
/// and a faulting element makes the whole prefix fault with its error.
pub proof fn lemma_resolve_flats_extend(ctx: Seq<TypeV>, args: Seq<TokenV>, i: int)
    requires
        0 <= i < args.len(),
    ensures
        (spec_resolve_flats(ctx, args.take(i)) matches Ok(p) ==> {
            &&& spec_resolve_flat(ctx, args[i]) matches Ok(t)
                ==> spec_resolve_flats(ctx, args.take(i + 1)) == Ok::<_, VMStatus>(p.push(t))
            &&& spec_resolve_flat(ctx, args[i]) matches Err(e)
                ==> spec_resolve_flats(ctx, args.take(i + 1)) == Err::<Seq<TypeV>, _>(e)
        }),
    decreases i,
{
    if i == 0 {
        assert(args.take(0).len() == 0);
        assert(args.take(1).first() == args[0]);
        assert(args.take(1).drop_first() =~= args.take(0));
        if spec_resolve_flat(ctx, args[0]) is Ok {
            let t = spec_resolve_flat(ctx, args[0])->Ok_0;
            assert(seq![t] + Seq::<TypeV>::empty() =~= Seq::<TypeV>::empty().push(t));
        }
    } else {
        lemma_resolve_flats_extend(ctx, args.drop_first(), i - 1);
        assert(args.take(i).first() == args[0]);
        assert(args.take(i).drop_first() =~= args.drop_first().take(i - 1));
        assert(args.take(i + 1).first() == args[0]);
        assert(args.take(i + 1).drop_first() =~= args.drop_first().take(i));
        assert(args.drop_first()[i - 1] == args[i]);
        if spec_resolve_flat(ctx, args[0]) is Ok
            && spec_resolve_flats(ctx, args.drop_first().take(i - 1)) is Ok
            && spec_resolve_flat(ctx, args[i]) is Ok {
            let h = spec_resolve_flat(ctx, args[0])->Ok_0;
            let q = spec_resolve_flats(ctx, args.drop_first().take(i - 1))->Ok_0;
            let t = spec_resolve_flat(ctx, args[i])->Ok_0;
            assert(seq![h] + q.push(t) =~= (seq![h] + q).push(t));
        }
    }
}

/// A fault in a prefix of the list is the fault of the whole list.
pub proof fn lemma_resolve_flats_prefix_err(ctx: Seq<TypeV>, args: Seq<TokenV>, k: int)
    requires
        0 <= k <= args.len(),
        spec_resolve_flats(ctx, args.take(k)) is Err,
    ensures
        spec_resolve_flats(ctx, args) == spec_resolve_flats(ctx, args.take(k)),
    decreases k,
{
    assert(k > 0);
    assert(args.take(k).first() == args.first());
    assert(args.take(k).drop_first() =~= args.drop_first().take(k - 1));
    if spec_resolve_flat(ctx, args.first()) is Ok {
        lemma_resolve_flats_prefix_err(ctx, args.drop_first(), k - 1);
    }
}

/// The identity substitution of the given arity, at spec level.
pub open spec fn spec_identity_context(arity: int) -> Seq<TypeV> {
    Seq::new(arity as nat, |i: int| TypeV::TypeVariable(i as u16))
}

/// The five-operation contract every cache tier implements, so that the
/// surrounding executor can be handed any tier polymorphically: resolve a
/// function handle, resolve a struct definition, look a module up, publish
/// an already-verified module, and reclaim modules from a shorter-lived
/// scope.
pub trait ModuleCache: Sized {
    /// The tier's invariant.
    spec fn inv(&self) -> bool;

    /// Whether reclamation is a legal operation on this tier.
    spec fn reclaim_allowed(&self) -> bool;

    /// The handle the tier as a whole has cached for `id`, if any,
    /// without consulting any fetcher.
    spec fn cached(&self, id: ModuleId) -> Option<ModuleRef>;

    /// The handle the tier's own publication target holds for `id`: where
    /// `cache_module` writes.  Coincides with `cached` except on the
    /// transaction tier, which publishes locally but reads through to its
    /// parent.
    spec fn local_lookup(&self, id: ModuleId) -> Option<ModuleRef>;

    /// Whether `h` denotes a module in one of the tier's arenas.
    spec fn valid_ref(&self, h: ModuleRef) -> bool;

    /// The module denoted by a valid handle.
    spec fn module_at(&self, h: ModuleRef) -> LoadedModuleV;

    /// What the tier's fetch path would answer for an uncached `id`:
    /// nothing for the bare single-scope cache, its storage's response for
    /// the block tier, and the parent's answer for the transaction tier.
    spec fn fetch_response(&self, id: ModuleId) -> Option<CompiledModuleV>;

    /// Whether `h` points into the arena this tier publishes to: always,
    /// except on the transaction tier, whose non-local handles denote its
    /// parent's shared arena.
    spec fn local_ref(&self, h: ModuleRef) -> bool;

    /// Handles stay valid and keep denoting the same module, and memo
    /// slots, once filled, keep their shape.
    open spec fn refs_preserved(pre: Self, post: Self) -> bool {
        forall|h: ModuleRef| #[trigger] pre.valid_ref(h) ==> post.valid_ref(h)
            && post.module_at(h).module == pre.module_at(h).module
            && post.module_at(h).memo.len() == pre.module_at(h).memo.len()
            && (forall|i: int| 0 <= i < pre.module_at(h).memo.len()
                && pre.module_at(h).memo[i] is Some
                ==> post.module_at(h).memo[i] == pre.module_at(h).memo[i])
    }

    /// The shape every resolution operation preserves: handles and memo
    /// contents as in `refs_preserved`, and a cached id stays cached
    /// under the same handle.
    open spec fn preserved(pre: Self, post: Self) -> bool {
        &&& Self::refs_preserved(pre, post)
        &&& forall|x: ModuleId| #[trigger] pre.cached(x) is Some
            ==> post.cached(x) == pre.cached(x)
    }

    /// Resolves `id` to a loaded module, fetching on a miss where the
    /// tier has a fetcher.  A hit changes nothing; an absent module is
    /// `Ok(None)` and is never recorded.
    fn get_loaded_module(&mut self, id: &ModuleId) -> (r: VMResult<Option<ModuleRef>>)
        requires
            old(self).inv(),
        ensures
            final(self).inv(),
            Self::preserved(*old(self), *final(self)),
            (old(self).cached(*id) matches Some(h) ==> (r == Ok::<_, VMStatus>(Some(h))
                && *final(self) == *old(self))),
            (r matches Ok(o) ==> (o matches Some(h) ==> final(self).valid_ref(h)
                && final(self).cached(*id) == Some(h))),
            (r matches Ok(o) ==> (o is None ==> final(self).cached(*id) is None)),
            (old(self).cached(*id) is None ==> match old(self).fetch_response(*id) {
                None => r == Ok::<Option<ModuleRef>, VMStatus>(None)
                    && (forall|h: ModuleRef| #[trigger] final(self).valid_ref(h)
                        == old(self).valid_ref(h))
                    && (forall|h: ModuleRef| old(self).valid_ref(h)
                        ==> #[trigger] final(self).module_at(h)
                            == old(self).module_at(h))
                    && (forall|x: ModuleId| #[trigger] final(self).cached(x)
                        == old(self).cached(x)),
                Some(mv) => match mv.rejected {
                    Some(errors) => (r matches Err(e)
                        && e == (if errors.len() == 0 {
                            VMStatus { major: StatusCode::VerifierInvariantViolation }
                        } else {
                            errors[0]
                        })),
                    None => (r matches Ok(o) && o matches Some(h)
                        && final(self).cached(*id) == Some(h)
                        && final(self).module_at(h).module == mv.module
                        && final(self).module_at(h).memo.len()
                            == mv.module.struct_defs.len()
                        && (forall|i: int| 0 <= i < mv.module.struct_defs.len()
                            ==> final(self).module_at(h).memo[i] is None)),
                },
            });

    /// Publishes an already-verified module into the tier's own scope,
    /// without a fetch round-trip.  An id already published there keeps
    /// its existing module.
    fn cache_module(&mut self, module: VerifiedModule)
        requires
            old(self).inv(),
            module_wf(module@),
        ensures
            final(self).inv(),
            Self::refs_preserved(*old(self), *final(self)),
            (old(self).local_lookup(module@.self_id) is Some ==> *final(self) == *old(self)),
            (old(self).local_lookup(module@.self_id) is None
                ==> (final(self).local_lookup(module@.self_id) matches Some(h)
                    && final(self).cached(module@.self_id) == Some(h)
                    && final(self).valid_ref(h)
                    && final(self).module_at(h).module == module@
                    && final(self).module_at(h).memo.len() == module@.struct_defs.len()
                    && (forall|i: int| 0 <= i < module@.struct_defs.len()
                        ==> final(self).module_at(h).memo[i] is None))),
            forall|x: ModuleId| x != module@.self_id
                ==> #[trigger] final(self).cached(x) == old(self).cached(x),
            forall|h: ModuleRef| !old(self).local_ref(h)
                ==> #[trigger] final(self).valid_ref(h) == old(self).valid_ref(h),
            forall|h: ModuleRef| !old(self).local_ref(h) && old(self).valid_ref(h)
                ==> #[trigger] final(self).module_at(h) == old(self).module_at(h),
            forall|id2: ModuleId| #[trigger] final(self).fetch_response(id2)
                == old(self).fetch_response(id2);

    /// Resolves a function-handle index of the module behind `caller`
    /// into a function reference: reads the callee's module id and name
    /// off the handle, resolves the callee module, and looks the name up
    /// in its table.  An unknown callee module is `Ok(None)`; a present
    /// module without the name is a linkage fault.
    fn resolve_function_ref(&mut self, caller: ModuleRef, idx: usize) -> (r: VMResult<
        Option<FunctionRef>,
    >)
        requires
            old(self).inv(),
            old(self).valid_ref(caller),
            idx < old(self).module_at(caller).module.function_handles.len(),
        ensures
            final(self).inv(),
            Self::preserved(*old(self), *final(self)),
            (r matches Ok(o) ==> (o matches Some(f) ==> final(self).valid_ref(f.module)
                && final(self).cached(old(self).module_at(
                    caller).module.function_handles[idx as int].module) == Some(f.module)
                && is_first_fn_named(final(self).module_at(f.module).module, f.index as int,
                    old(self).module_at(caller).module.function_handles[idx as int].name))),
            (r matches Ok(o) ==> (o is None ==> final(self).cached(old(self).module_at(
                caller).module.function_handles[idx as int].module) is None)),
            (final(self).cached(old(self).module_at(
                caller).module.function_handles[idx as int].module) matches Some(h) ==> {
                let fh = old(self).module_at(caller).module.function_handles[idx as int];
                &&& (has_fn_named(final(self).module_at(h).module, fh.name)
                    ==> (r matches Ok(o) && o matches Some(f) && f.module == h))
                &&& (!has_fn_named(final(self).module_at(h).module, fh.name)
                    ==> (r matches Err(e) && e.major == StatusCode::LinkerError))
            }),
            ({
                let fh = old(self).module_at(caller).module.function_handles[idx as int];
                old(self).cached(fh.module) is None
                    ==> match old(self).fetch_response(fh.module) {
                    None => r == Ok::<Option<FunctionRef>, VMStatus>(None),
                    Some(mv) => match mv.rejected {
                        Some(errors) => (r matches Err(e)
                            && e == (if errors.len() == 0 {
                                VMStatus { major: StatusCode::VerifierInvariantViolation }
                            } else {
                                errors[0]
                            })),
                        None => {
                            &&& (has_fn_named(mv.module, fh.name) ==> (r matches Ok(o)
                                && o matches Some(f)
                                && final(self).cached(fh.module) == Some(f.module)))
                            &&& (!has_fn_named(mv.module, fh.name) ==> (r matches Err(e)
                                && e.major == StatusCode::LinkerError))
                        }
                    },
                }
            });

    /// Resolves struct-definition index `idx` of the module behind
    /// `module` into its shape, recursively, charging `gas_meter` at each
    /// step.  A filled memo slot is returned as it stands, with nothing
    /// changed and nothing charged; a freshly resolved shape leaves the
    /// slot filled.
    fn resolve_struct_def(
        &mut self,
        module: ModuleRef,
        idx: usize,
        gas_meter: &mut GasMeter,
        natives: &NativeRegistry,
    ) -> (r: VMResult<Option<StructDef>>)
        requires
            old(self).inv(),
            old(self).valid_ref(module),
            idx < old(self).module_at(module).memo.len(),
        ensures
            final(self).inv(),
            Self::preserved(*old(self), *final(self)),
            final(gas_meter).remaining <= old(gas_meter).remaining,
            (old(self).module_at(module).memo[idx as int] matches Some(dv)
                ==> (r matches Ok(o) && o matches Some(d) && d.def_view() == dv
                    && *final(self) == *old(self) && *final(gas_meter) == *old(gas_meter))),
            (r matches Ok(o) ==> (o matches Some(d)
                ==> final(self).module_at(module).memo[idx as int] == Some(d.def_view()))),
            (old(self).module_at(module).memo[idx as int] is None
                && old(gas_meter).remaining >= 1
                && old(self).module_at(module).module.struct_defs[idx as int].native ==> {
                let m = old(self).module_at(module).module;
                let handle = m.struct_handles[m.struct_defs[idx as int].struct_handle as int];
                &&& (natives.spec_lookup(handle.module, handle.name) matches Some(desc)
                    ==> (r matches Ok(o) && o matches Some(d)
                        && d.def_view() == StructDefV::Native(desc)
                        && final(gas_meter).remaining == old(gas_meter).remaining - 1))
                &&& (natives.spec_lookup(handle.module, handle.name) is None
                    ==> (r matches Err(e) && e.major == StatusCode::LinkerError
                        && *final(self) == *old(self)))
            }),
            (old(self).module_at(module).memo[idx as int] is None
                && old(gas_meter).remaining == 0
                ==> (r matches Err(e) && e.major == StatusCode::OutOfGas)),
            (old(self).module_at(module).memo[idx as int] is None
                && !old(self).module_at(module).module.struct_defs[idx as int].native
                && tokens_all_flat(old(self).module_at(
                    module).module.struct_defs[idx as int].fields)
                && old(gas_meter).remaining >= 1 + flat_costs(old(self).module_at(
                    module).module.struct_defs[idx as int].fields) ==> {
                let m = old(self).module_at(module).module;
                let arity = m.struct_handles[
                    m.struct_defs[idx as int].struct_handle as int].type_formals as int;
                match spec_resolve_flats(spec_identity_context(arity),
                    m.struct_defs[idx as int].fields) {
                    Ok(ts) => (r matches Ok(o) && o matches Some(d)
                        && d.def_view() == StructDefV::Declared(ts)),
                    Err(e) => r == Err::<Option<StructDef>, VMStatus>(e),
                }
            }),
            (old(self).module_at(module).memo[idx as int] is None
                && old(gas_meter).remaining >= 6
                && !old(self).module_at(module).module.struct_defs[idx as int].native
                && old(self).module_at(module).module.struct_defs[
                    idx as int].fields.len() >= 1 ==> {
                let m = old(self).module_at(module).module;
                m.struct_defs[idx as int].fields[0] matches TokenV::Struct(sh, args)
                    ==> (args.len() == 0 && sh < m.struct_handles.len()
                        && old(self).cached(m.struct_handles[sh as int].module) is None
                        && old(self).fetch_response(
                            m.struct_handles[sh as int].module) is None
                        ==> r == Ok::<Option<StructDef>, VMStatus>(None))
            });

    /// Promotes a batch of modules resolved in a shorter-lived scope into
    /// this tier's arena.  Legal only in the promotion direction: a tier
    /// that does not allow reclamation fails deterministically and
    /// changes nothing.
    fn reclaim_cached_module(&mut self, batch: Vec<LoadedModule>) -> (r: VMResult<()>)
        requires
            old(self).inv(),
            forall|i: int| 0 <= i < batch@.len() ==> (#[trigger] batch@[i]).wf(),
        ensures
            final(self).inv(),
            Self::preserved(*old(self), *final(self)),
            !old(self).reclaim_allowed() ==> (r is Err && *final(self) == *old(self)),
            old(self).reclaim_allowed() ==> (r is Ok && forall|i: int| 0 <= i < batch@.len()
                ==> final(self).cached((#[trigger] batch@[i])@.module.self_id) is Some),
            old(self).reclaim_allowed() ==> (forall|i: int| 0 <= i < batch@.len()
                && old(self).cached(batch@[i]@.module.self_id) is None
                && (forall|k: int| 0 <= k < i
                    ==> batch@[k]@.module.self_id != batch@[i]@.module.self_id)
                ==> (final(self).cached(#[trigger] batch@[i]@.module.self_id) matches Some(h)
                    && final(self).valid_ref(h)
                    && final(self).module_at(h) == batch@[i]@)),
            old(self).reclaim_allowed() ==> (forall|x: ModuleId| old(self).cached(x) is None
                && (forall|k: int| 0 <= k < batch@.len()
                    ==> batch@[k]@.module.self_id != x)
                ==> #[trigger] final(self).cached(x) is None);
}

impl ModuleCache for VMModuleCache {
    open spec fn inv(&self) -> bool {
        self.wf()
    }

    open spec fn reclaim_allowed(&self) -> bool {
        true
    }

    open spec fn cached(&self, id: ModuleId) -> Option<ModuleRef> {
        match self.spec_get(id) {
            Some(j) => Some(ModuleRef { local: false, index: j }),
            None => None,
        }
    }

    open spec fn local_lookup(&self, id: ModuleId) -> Option<ModuleRef> {
        self.cached(id)
    }

    open spec fn valid_ref(&self, h: ModuleRef) -> bool {
        !h.local && h.index < self.count()
    }

    open spec fn module_at(&self, h: ModuleRef) -> LoadedModuleV {
        self.module_view(h.index as int)
    }

    open spec fn fetch_response(&self, id: ModuleId) -> Option<CompiledModuleV> {
        None
    }

    open spec fn local_ref(&self, h: ModuleRef) -> bool {
        true
    }

    /// Without a fetcher of its own, the single-scope cache resolves only
    /// what is already in its arena.
    fn get_loaded_module(&mut self, id: &ModuleId) -> (r: VMResult<Option<ModuleRef>>) {
        match self.registry.get(id) {
            Some(j) => {
                proof {
                    lemma_get_in_range(self.registry, *id);
                }
                Ok(Some(ModuleRef { local: false, index: j }))
            }
            None => Ok(None),
        }
    }

    fn cache_module(&mut self, module: VerifiedModule) {
        let module_id = module.self_id();
        let loaded = LoadedModule::new(module);
        self.registry.or_insert(module_id, loaded);
    }

    fn resolve_function_ref(&mut self, caller: ModuleRef, idx: usize) -> (r: VMResult<
        Option<FunctionRef>,
    >) {
        let ghost fh = old(self).module_view(
            caller.index as int).module.function_handles[idx as int];
        let mut fetcher = NullFetcher;
        let r = self.resolve_function_ref_with_fetcher(caller.index, idx, &mut fetcher);
        proof {
            if self.cached(fh.module) is Some {
                let h = self.cached(fh.module)->Some_0;
                assert(old(self).spec_get(fh.module) is Some);
                let j = old(self).spec_get(fh.module)->Some_0;
                assert(*self == *old(self));
                assert(h == ModuleRef { local: false, index: j });
                if has_fn_named(self.module_at(h).module, fh.name) {
                    assert(r matches Ok(o) && o matches Some(f) && f.module == h);
                } else {
                    assert(r matches Err(e) && e.major == StatusCode::LinkerError);
                }
            }
        }
        r
    }

    fn resolve_struct_def(
        &mut self,
        module: ModuleRef,
        idx: usize,
        gas_meter: &mut GasMeter,
        natives: &NativeRegistry,
    ) -> (r: VMResult<Option<StructDef>>) {
        let mut fetcher = NullFetcher;
        self.resolve_struct_def_at(module.index, idx, gas_meter, natives, &mut fetcher)
    }

    fn reclaim_cached_module(&mut self, batch: Vec<LoadedModule>) -> (r: VMResult<()>) {
        let ghost batchv = batch@;
        self.registry.reclaim(batch);
        proof {
            assert forall|i: int| 0 <= i < batchv.len()
                implies self.registry.spec_get(#[trigger] batchv[i]@.module.self_id) is Some
                    && self.registry.spec_get(batchv[i]@.module.self_id)->Some_0
                        < self.registry.count() by {
                lemma_get_in_range(self.registry, batchv[i]@.module.self_id);
            }
        }
        Ok(())
    }
}

/// The block-scope cache: the shared single-scope cache together with a
/// fetcher bound to the current block's state view.  Every operation
/// delegates to the single-scope cache's fetcher-parameterized variants,
/// injecting its own fetcher, so each block substitutes a different state
/// view without changing the long-lived cache's fetch strategy.
#[derive(Debug)]
pub struct BlockModuleCache<F: ModuleFetcher> {
    pub vm_cache: VMModuleCache,
    pub storage: F,
}

impl<F: ModuleFetcher> BlockModuleCache<F> {
    /// A block-scope cache over `vm_cache`, fetching through
    /// `module_fetcher`.
    pub fn new(vm_cache: VMModuleCache, module_fetcher: F) -> (r: BlockModuleCache<F>)
        ensures
            r.vm_cache == vm_cache,
            r.storage == module_fetcher,
    {
        BlockModuleCache { vm_cache, storage: module_fetcher }
    }
}

impl BlockModuleCache<crate::fetcher::FakeFetcher> {
    /// Empties the fake fetcher's table: afterwards only already-cached
    /// modules resolve.
    pub fn clear(&mut self)
        requires
            old(self).inv(),
        ensures
            final(self).inv(),
            final(self).vm_cache == old(self).vm_cache,
            forall|x: ModuleId| #[trigger] final(self).storage.response(x) is None,
    {
        self.storage.clear();
    }
}

impl<F: ModuleFetcher> ModuleCache for BlockModuleCache<F> {
    open spec fn inv(&self) -> bool {
        self.vm_cache.wf() && self.storage.inv()
    }

    open spec fn reclaim_allowed(&self) -> bool {
        true
    }

    open spec fn cached(&self, id: ModuleId) -> Option<ModuleRef> {
        match self.vm_cache.spec_get(id) {
            Some(j) => Some(ModuleRef { local: false, index: j }),
            None => None,
        }
    }

    open spec fn local_lookup(&self, id: ModuleId) -> Option<ModuleRef> {
        self.cached(id)
    }

    open spec fn valid_ref(&self, h: ModuleRef) -> bool {
        !h.local && h.index < self.vm_cache.count()
    }

    open spec fn module_at(&self, h: ModuleRef) -> LoadedModuleV {
        self.vm_cache.module_view(h.index as int)
    }

    open spec fn fetch_response(&self, id: ModuleId) -> Option<CompiledModuleV> {
        self.storage.response(id)
    }

    open spec fn local_ref(&self, h: ModuleRef) -> bool {
        true
    }

    fn get_loaded_module(&mut self, id: &ModuleId) -> (r: VMResult<Option<ModuleRef>>) {
        match self.vm_cache.get_loaded_module_with_fetcher(id, &mut self.storage) {
            Ok(Some(j)) => Ok(Some(ModuleRef { local: false, index: j })),
            Ok(None) => Ok(None),
            Err(e) => Err(e),
        }
    }

    fn cache_module(&mut self, module: VerifiedModule) {
        let module_id = module.self_id();
        let loaded = LoadedModule::new(module);
        self.vm_cache.registry.or_insert(module_id, loaded);
    }

    fn resolve_function_ref(&mut self, caller: ModuleRef, idx: usize) -> (r: VMResult<
        Option<FunctionRef>,
    >) {
        let ghost fh = old(self).module_at(caller).module.function_handles[idx as int];
        let r = self.vm_cache.resolve_function_ref_with_fetcher(
            caller.index,
            idx,
            &mut self.storage,
        );
        proof {
            if self.cached(fh.module) is Some {
                let h = self.cached(fh.module)->Some_0;
                if old(self).vm_cache.spec_get(fh.module) is Some {
                    let j = old(self).vm_cache.spec_get(fh.module)->Some_0;
                    assert(h == ModuleRef { local: false, index: j });
                    if has_fn_named(self.module_at(h).module, fh.name) {
                        assert(r matches Ok(o) && o matches Some(f) && f.module == h);
                    } else {
                        assert(r matches Err(e) && e.major == StatusCode::LinkerError);
                    }
                } else {
                    match old(self).storage.response(fh.module) {
                        Some(mv) => {
                            if mv.rejected is None {
                                assert(old(self).vm_cache.registry.modules.len()
                                    == old(self).vm_cache.count());
                                assert(self.vm_cache.spec_get(fh.module)
                                    == Some(old(self).vm_cache.count() as usize));
                                assert(h == ModuleRef {
                                    local: false,
                                    index: old(self).vm_cache.count() as usize,
                                });
                                assert(self.module_at(h).module == mv.module);
                                if has_fn_named(self.module_at(h).module, fh.name) {
                                    assert(r matches Ok(o) && o matches Some(f)
                                        && f.module == h);
                                } else {
                                    assert(r matches Err(e)
                                        && e.major == StatusCode::LinkerError);
                                }
                            }
                        }
                        None => {}
                    }
                }
            }
        }
        r
    }

    fn resolve_struct_def(
        &mut self,
        module: ModuleRef,
        idx: usize,
        gas_meter: &mut GasMeter,
        natives: &NativeRegistry,
    ) -> (r: VMResult<Option<StructDef>>) {
        self.vm_cache.resolve_struct_def_at(
            module.index,
            idx,
            gas_meter,
            natives,
            &mut self.storage,
        )
    }

    fn reclaim_cached_module(&mut self, batch: Vec<LoadedModule>) -> (r: VMResult<()>) {
        let ghost batchv = batch@;
        self.vm_cache.registry.reclaim(batch);
        proof {
            assert forall|i: int| 0 <= i < batchv.len()
                implies self.vm_cache.registry.spec_get(
                    #[trigger] batchv[i]@.module.self_id) is Some
                    && self.vm_cache.registry.spec_get(batchv[i]@.module.self_id)->Some_0
                        < self.vm_cache.registry.count() by {
                lemma_get_in_range(self.vm_cache.registry, batchv[i]@.module.self_id);
            }
        }
        Ok(())
    }
}

/// The parent a transaction-scope cache reads through to: the long-lived
/// single-scope cache itself, or a block-scope cache over it.
#[derive(Debug)]
pub enum ParentCache<F: ModuleFetcher> {
    Vm(VMModuleCache),
    Block(BlockModuleCache<F>),
}

/// What every operation of a parent cache preserves: the shared arena only
/// grows, so handles stay valid, modules stay what they were (memo fill
/// aside), and cached ids stay cached.
pub open spec fn parent_preserved<F: ModuleFetcher>(
    pre: ParentCache<F>,
    post: ParentCache<F>,
) -> bool {
    &&& registry_extends(pre.vm().registry, post.vm().registry)
    &&& forall|x: ModuleId| #[trigger] pre.cached(x) is Some
        ==> post.cached(x) == pre.cached(x)
}

impl<F: ModuleFetcher> ParentCache<F> {
    /// The single-scope cache behind this parent.
    pub open spec fn vm(&self) -> VMModuleCache {
        match self {
            ParentCache::Vm(c) => *c,
            ParentCache::Block(b) => b.vm_cache,
        }
    }

    /// The parent's invariant.
    pub open spec fn inv(&self) -> bool {
        match self {
            ParentCache::Vm(c) => c.wf(),
            ParentCache::Block(b) => b.vm_cache.wf() && b.storage.inv(),
        }
    }

    /// The handle the parent has cached for `id`.
    pub open spec fn cached(&self, id: ModuleId) -> Option<ModuleRef> {
        match self.vm().spec_get(id) {
            Some(j) => Some(ModuleRef { local: false, index: j }),
            None => None,
        }
    }

    /// Whether `h` denotes a module of the parent's arena.
    pub open spec fn valid_ref(&self, h: ModuleRef) -> bool {
        !h.local && h.index < self.vm().count()
    }

    /// The module denoted by a valid handle.
    pub open spec fn module_at(&self, h: ModuleRef) -> LoadedModuleV {
        self.vm().module_view(h.index as int)
    }

    /// What the parent's fetch path would answer for an uncached `id`.
    pub open spec fn fetch_response(&self, id: ModuleId) -> Option<CompiledModuleV> {
        match self {
            ParentCache::Vm(c) => None,
            ParentCache::Block(b) => b.storage.response(id),
        }
    }

    /// Resolves `id` through the parent, fetching where it has a fetcher.
    fn get_parent_module(&mut self, id: &ModuleId) -> (r: VMResult<Option<ModuleRef>>)
        requires
            old(self).inv(),
        ensures
            final(self).inv(),
            parent_preserved(*old(self), *final(self)),
            (old(self).cached(*id) matches Some(h) ==> (r == Ok::<_, VMStatus>(Some(h))
                && *final(self) == *old(self))),
            (r matches Ok(o) ==> (o matches Some(h) ==> final(self).valid_ref(h)
                && final(self).cached(*id) == Some(h))),
            (r matches Ok(o) ==> (o is None ==> final(self).cached(*id) is None)),
            (r is Err ==> final(self).cached(*id) is None),
            (old(self).cached(*id) is None ==> match old(self).fetch_response(*id) {
                None => r == Ok::<Option<ModuleRef>, VMStatus>(None)
                    && (forall|h: ModuleRef| #[trigger] final(self).valid_ref(h)
                        == old(self).valid_ref(h))
                    && (forall|h: ModuleRef| old(self).valid_ref(h)
                        ==> #[trigger] final(self).module_at(h)
                            == old(self).module_at(h))
                    && (forall|x: ModuleId| #[trigger] final(self).cached(x)
                        == old(self).cached(x)),
                Some(mv) => match mv.rejected {
                    Some(errors) => (r matches Err(e)
                        && e == (if errors.len() == 0 {
                            VMStatus { major: StatusCode::VerifierInvariantViolation }
                        } else {
                            errors[0]
                        })),
                    None => (r matches Ok(o) && o matches Some(h)
                        && final(self).cached(*id) == Some(h)
                        && final(self).module_at(h).module == mv.module
                        && final(self).module_at(h).memo.len()
                            == mv.module.struct_defs.len()
                        && (forall|i: int| 0 <= i < mv.module.struct_defs.len()
                            ==> final(self).module_at(h).memo[i] is None)),
                },
            }),
    {
        match self {
            ParentCache::Vm(c) => {
                match c.registry.get(id) {
                    Some(j) => {
                        proof {
                            lemma_get_in_range(c.registry, *id);
                        }
                        Ok(Some(ModuleRef { local: false, index: j }))
                    }
                    None => Ok(None),
                }
            }
            ParentCache::Block(b) => {
                match b.vm_cache.get_loaded_module_with_fetcher(id, &mut b.storage) {
                    Ok(Some(j)) => Ok(Some(ModuleRef { local: false, index: j })),
                    Ok(None) => Ok(None),
                    Err(e) => Err(e),
                }
            }
        }
    }

    /// The module behind a valid handle, borrowed from the parent's arena.
    fn module_ref_at(&self, h: ModuleRef) -> (r: &LoadedModule)
        requires
            self.inv(),
            self.valid_ref(h),
        ensures
            r@ == self.module_at(h),
            r.wf(),
    {
        let r = match self {
            ParentCache::Vm(c) => c.registry.module_at(h.index),
            ParentCache::Block(b) => b.vm_cache.registry.module_at(h.index),
        };
        proof {
            assert(self.vm().registry.modules@[h.index as int].wf());
        }
        r
    }

    /// Resolves a struct definition of an explicitly supplied module
    /// against the supplied memo snapshot, using the parent's own arena
    /// and fetcher for dependencies.
    fn resolve_struct_def_in(
        &mut self,
        md: &VerifiedModule,
        memo: &mut Vec<Option<StructDef>>,
        idx: usize,
        gas_meter: &mut GasMeter,
        natives: &NativeRegistry,
    ) -> (r: VMResult<Option<StructDef>>)
        requires
            old(self).inv(),
            module_wf(md@),
            idx < md@.struct_defs.len(),
            old(memo)@.len() == md@.struct_defs.len(),
        ensures
            final(self).inv(),
            parent_preserved(*old(self), *final(self)),
            final(gas_meter).remaining <= old(gas_meter).remaining,
            final(memo)@.len() == old(memo)@.len(),
            (memo_view(old(memo)@)[idx as int] matches Some(dv) ==> (r matches Ok(o)
                && o matches Some(d) && d.def_view() == dv
                && *final(self) == *old(self) && *final(memo) == *old(memo)
                && *final(gas_meter) == *old(gas_meter))),
            (r matches Ok(o) ==> (o matches Some(d)
                ==> memo_view(final(memo)@)[idx as int] == Some(d.def_view()))),
            (r matches Ok(o) ==> (o is None ==> *final(memo) == *old(memo))),
            (r is Err ==> *final(memo) == *old(memo)),
            forall|i: int| 0 <= i < old(memo)@.len() && memo_view(old(memo)@)[i] is Some
                ==> memo_view(final(memo)@)[i] == memo_view(old(memo)@)[i],
            (memo_view(old(memo)@)[idx as int] is None && old(gas_meter).remaining == 0
                ==> (r matches Err(e) && e.major == StatusCode::OutOfGas)),
            (memo_view(old(memo)@)[idx as int] is None
                && !md@.struct_defs[idx as int].native
                && tokens_all_flat(md@.struct_defs[idx as int].fields)
                && old(gas_meter).remaining
                    >= 1 + flat_costs(md@.struct_defs[idx as int].fields) ==> {
                let arity = md@.struct_handles[
                    md@.struct_defs[idx as int].struct_handle as int].type_formals as int;
                match spec_resolve_flats(spec_identity_context(arity),
                    md@.struct_defs[idx as int].fields) {
                    Ok(ts) => (r matches Ok(o) && o matches Some(d)
                        && d.def_view() == StructDefV::Declared(ts)
                        && memo_view(final(memo)@)[idx as int]
                            == Some(StructDefV::Declared(ts))
                        && *final(self) == *old(self)),
                    Err(e) => r == Err::<Option<StructDef>, VMStatus>(e)
                        && *final(self) == *old(self) && *final(memo) == *old(memo),
                }
            }),
            (memo_view(old(memo)@)[idx as int] is None && old(gas_meter).remaining >= 3
                && !md@.struct_defs[idx as int].native
                && md@.struct_defs[idx as int].fields.len() >= 1 ==> {
                let field = md@.struct_defs[idx as int].fields[0];
                field matches TokenV::Struct(sh, args) ==> (args.len() == 0
                    && sh < md@.struct_handles.len()
                    && old(self).cached(md@.struct_handles[sh as int].module) is None
                    && old(self).fetch_response(
                        md@.struct_handles[sh as int].module) is None
                    ==> r == Ok::<Option<StructDef>, VMStatus>(None)
                        && *final(memo) == *old(memo)
                        && final(gas_meter).remaining
                            == old(gas_meter).remaining - 3)
            }),
    {
        match self {
            ParentCache::Vm(c) => {
                let mut fetcher = NullFetcher;
                c.resolve_struct_def_with_fetcher(md, memo, idx, gas_meter, natives, &mut fetcher)
            }
            ParentCache::Block(b) => {
                b.vm_cache.resolve_struct_def_with_fetcher(
                    md,
                    memo,
                    idx,
                    gas_meter,
                    natives,
                    &mut b.storage,
                )
            }
        }
    }

    /// Merges a memo snapshot back into the module behind `h`.
    fn absorb_at_parent(&mut self, h: ModuleRef, memo: &Vec<Option<StructDef>>)
        requires
            old(self).inv(),
            old(self).valid_ref(h),
            memo@.len() == old(self).module_at(h).memo.len(),
        ensures
            final(self).inv(),
            parent_preserved(*old(self), *final(self)),
            final(self).vm().count() == old(self).vm().count(),
            forall|i: int| 0 <= i < memo@.len()
                ==> final(self).module_at(h).memo[i] == (
                    if old(self).module_at(h).memo[i] is Some {
                        old(self).module_at(h).memo[i]
                    } else {
                        memo_view(memo@)[i]
                    }),
            (forall|i: int| 0 <= i < memo@.len()
                ==> old(self).module_at(h).memo[i] is Some
                    || memo_view(memo@)[i] is None) ==> *final(self) == *old(self),
    {
        match self {
            ParentCache::Vm(c) => c.registry.absorb_memo(h.index, memo),
            ParentCache::Block(b) => b.vm_cache.registry.absorb_memo(h.index, memo),
        }
    }
}

/// The transaction-scope cache: a private short-lived arena for modules
/// published by the in-flight transaction, in front of a parent cache of
/// either other kind.  Resolution looks locally first, so a module
/// published earlier in the same transaction is visible at once and
/// shadows anything the parent could supply under the same id;
/// publication writes only to the local arena, invisible outside the
/// transaction until an explicit commit promotes it.  If the transaction
/// aborts, the local arena is dropped whole.
#[derive(Debug)]
pub struct TransactionModuleCache<F: ModuleFetcher> {
    pub block_cache: ParentCache<F>,
    pub local_cache: VMModuleCache,
}

impl<F: ModuleFetcher> TransactionModuleCache<F> {
    /// A transaction-scope cache over `block_cache`, with a fresh local
    /// arena.
    pub fn new(block_cache: ParentCache<F>) -> (r: TransactionModuleCache<F>)
        ensures
            r.block_cache == block_cache,
            r.local_cache.count() == 0,
            forall|id: ModuleId| #[trigger] r.local_cache.spec_get(id) is None,
            r.local_cache.wf(),
    {
        TransactionModuleCache { block_cache, local_cache: VMModuleCache::new() }
    }
}

impl<F: ModuleFetcher> ModuleCache for TransactionModuleCache<F> {
    open spec fn inv(&self) -> bool {
        self.local_cache.wf() && self.block_cache.inv()
    }

    /// Promotion runs strictly from shorter-lived scopes to longer-lived
    /// ones; nothing is ever reclaimed *into* a transaction scope.
    open spec fn reclaim_allowed(&self) -> bool {
        false
    }

    open spec fn cached(&self, id: ModuleId) -> Option<ModuleRef> {
        match self.local_cache.spec_get(id) {
            Some(j) => Some(ModuleRef { local: true, index: j }),
            None => self.block_cache.cached(id),
        }
    }

    open spec fn local_lookup(&self, id: ModuleId) -> Option<ModuleRef> {
        match self.local_cache.spec_get(id) {
            Some(j) => Some(ModuleRef { local: true, index: j }),
            None => None,
        }
    }

    open spec fn valid_ref(&self, h: ModuleRef) -> bool {
        if h.local {
            h.index < self.local_cache.count()
        } else {
            self.block_cache.valid_ref(h)
        }
    }

    open spec fn module_at(&self, h: ModuleRef) -> LoadedModuleV {
        if h.local {
            self.local_cache.module_view(h.index as int)
        } else {
            self.block_cache.module_at(h)
        }
    }

    open spec fn fetch_response(&self, id: ModuleId) -> Option<CompiledModuleV> {
        self.block_cache.fetch_response(id)
    }

    open spec fn local_ref(&self, h: ModuleRef) -> bool {
        h.local
    }

    /// Checks the local cache first, so modules published earlier in this
    /// transaction win; falls through to the parent on a local miss.
    fn get_loaded_module(&mut self, id: &ModuleId) -> (r: VMResult<Option<ModuleRef>>) {
        match self.local_cache.registry.get(id) {
            Some(j) => {
                proof {
                    lemma_get_in_range(self.local_cache.registry, *id);
                }
                Ok(Some(ModuleRef { local: true, index: j }))
            }
            None => self.block_cache.get_parent_module(id),
        }
    }

    /// Publication during a transaction goes to the local arena only, and
    /// is never visible outside the transaction until an explicit commit.
    fn cache_module(&mut self, module: VerifiedModule) {
        let module_id = module.self_id();
        let loaded = LoadedModule::new(module);
        self.local_cache.registry.or_insert(module_id, loaded);
    }

    fn resolve_function_ref(&mut self, caller: ModuleRef, idx: usize) -> (r: VMResult<
        Option<FunctionRef>,
    >) {
        let function_handle = if caller.local {
            self.local_cache.registry.module_at(caller.index).module.function_handles[idx]
        } else {
            self.block_cache.module_ref_at(caller).module.function_handles[idx]
        };
        let callee_name = function_handle.name;
        let callee_module_id = function_handle.module;
        match self.local_cache.registry.get(&callee_module_id) {
            Some(j) => {
                proof {
                    lemma_get_in_range(self.local_cache.registry, callee_module_id);
                    assert(self.local_cache.registry.modules@[j as int].wf());
                }
                match self.local_cache.registry.module_at(j).function_def_index(callee_name) {
                    Some(fi) => Ok(Some(FunctionRef::new(
                        ModuleRef { local: true, index: j },
                        fi,
                    ))),
                    None => Err(VMStatus::new(StatusCode::LinkerError)),
                }
            }
            None => {
                match self.block_cache.get_parent_module(&callee_module_id) {
                    Ok(Some(h)) => {
                        match self.block_cache.module_ref_at(h).function_def_index(
                            callee_name,
                        ) {
                            Some(fi) => Ok(Some(FunctionRef::new(h, fi))),
                            None => Err(VMStatus::new(StatusCode::LinkerError)),
                        }
                    }
                    Ok(None) => Ok(None),
                    Err(e) => Err(e),
                }
            }
        }
    }

    /// Tries resolution against the local cache first (its dependencies
    /// come from the local arena only); an unknown there falls through to
    /// the parent and its fetcher.  The module's memo snapshot travels
    /// through both passes and is merged back into the owning arena.
    fn resolve_struct_def(
        &mut self,
        module: ModuleRef,
        idx: usize,
        gas_meter: &mut GasMeter,
        natives: &NativeRegistry,
    ) -> (r: VMResult<Option<StructDef>>) {
        let (md, mut memo) = if module.local {
            proof {
                assert(self.local_cache.registry.modules@[module.index as int].wf());
            }
            self.local_cache.registry.module_at(module.index).snapshot()
        } else {
            self.block_cache.module_ref_at(module).snapshot()
        };
        let mut null_fetcher = NullFetcher;
        let first = self.local_cache.resolve_struct_def_with_fetcher(
            &md,
            &mut memo,
            idx,
            gas_meter,
            natives,
            &mut null_fetcher,
        );
        let outcome = match first {
            Ok(None) => self.block_cache.resolve_struct_def_in(
                &md,
                &mut memo,
                idx,
                gas_meter,
                natives,
            ),
            other => other,
        };
        if module.local {
            self.local_cache.registry.absorb_memo(module.index, &memo);
        } else {
            self.block_cache.absorb_at_parent(module, &memo);
        }
        match outcome {
            Ok(Some(d)) => {
                proof {
                    assert(self.module_at(module).memo[idx as int] is Some);
                }
                let recorded = if module.local {
                    self.local_cache.registry.module_at(module.index).cached_struct_def_at(idx)
                } else {
                    self.block_cache.module_ref_at(module).cached_struct_def_at(idx)
                };
                match recorded {
                    Some(rec) => Ok(Some(rec)),
                    None => Ok(Some(d)),
                }
            }
            other => other,
        }
    }

    /// The protocol guard: reclamation is never legal here, and fails the
    /// same way for every argument, changing nothing.
    fn reclaim_cached_module(&mut self, batch: Vec<LoadedModule>) -> (r: VMResult<()>) {
        Err(VMStatus::new(StatusCode::Unreachable))
    }
}

/// Scope precedence: whenever the transaction's own arena holds a module
/// for an id, the tier as a whole answers with that local handle — never
/// with anything its parent could supply under the same id.
pub proof fn lemma_local_publication_shadows_parent<F: ModuleFetcher>(
    cache: TransactionModuleCache<F>,
    id: ModuleId,
)
    requires
        cache.local_lookup(id) is Some,
    ensures
        cache.cached(id) == cache.local_lookup(id),
        cache.cached(id)->Some_0.local,
{
}

/// The reclamation guard: reclamation is never a legal operation on a
/// transaction-scope cache, whatever its state and whatever the batch, so
/// by the contract of `reclaim_cached_module` every invocation on one
/// fails deterministically and changes nothing.
pub proof fn lemma_transaction_reclaim_guard<F: ModuleFetcher>(
    cache: TransactionModuleCache<F>,
)
    ensures
        !cache.reclaim_allowed(),
{
}

} // verus!
