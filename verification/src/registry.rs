//! The objects of each module of the generated code, and the binding of an
//! operation to the module that its response leads to.

use vstd::prelude::*;
use crate::apis::{join, joined};
use crate::collector::{
    bind_to_first, blind_module_names, blind_result, first_2xx, is_requirement, BlindTarget, PathOperation,
};
use crate::definitions::{known_of, spec_build, PaperClipError};
use crate::object::Parameter;
use crate::definitions::{views, DefaultEmitter, Schema};
use crate::models::HttpMethod;
use crate::modules::{added_all, module_pairs, ModuleTree};
use crate::mount::{keys_sorted, lemma_slot_insert, lemma_sorted_keys_distinct, path_slot};
use crate::object::{paths_sorted, seq_less, ApiObject, OpRequirement};
use crate::requirements::{
    bound_path, keys_distinct, lemma_seq_less_irreflexive, lemma_seq_less_transitive, lemma_seq_to_map_dom,
    lemma_seq_to_map_index, lemma_seq_to_map_insert, lemma_seq_to_map_update, seq_to_map,
};

verus! {

/// Objects a module can bind operations to: at least one, the first with
/// its paths ordered.
pub open spec fn bindable(objects: Seq<ApiObject>) -> bool {
    objects.len() > 0 && paths_sorted(objects[0].paths@)
}

/// What binding an operation blindly (see `DefModules::bind_blindly`) does
/// to the modules and the module tree, and whether it binds (`r`).
pub open spec fn blindly_bound(
    before: Map<Seq<char>, Seq<ApiObject>>,
    after: Map<Seq<char>, Seq<ApiObject>>,
    tree_before: Map<Seq<char>, Map<Seq<char>, bool>>,
    tree_after: Map<Seq<char>, Map<Seq<char>, bool>>,
    emitter: DefaultEmitter,
    path: Seq<char>,
    meth: HttpMethod,
    target: BlindTarget,
    response: Schema,
    req: OpRequirement,
    r: bool,
) -> bool {
    match blind_module_names(emitter, target, response) {
        None => !r && after =~= before && tree_after =~= tree_before,
        Some(ns) => {
            let m = joined(ns, "/"@);
            let made = target == BlindTarget::Miscellaneous && !before.dom().contains(m);
            &&& r == (made || before.dom().contains(m))
            &&& made ==> tree_after =~= added_all(tree_before, module_pairs(ns))
            &&& !made ==> tree_after =~= tree_before
            &&& made ==> after[m].len() == 1 && after[m][0].name@ == "Miscellaneous"@ && after[m][0].spec_paths()
                == Map::<Seq<char>, crate::requirements::PathOpsView>::empty().insert(
                path,
                bound_path(Map::empty(), path, meth, req),
            )
            &&& r && !made ==> bound_first(before[m], after[m], path, meth, req)
            &&& after.dom() =~= (if r {
                before.dom().insert(m)
            } else {
                before.dom()
            })
            &&& forall|k: Seq<char>| k != m && #[trigger] before.dom().contains(k) ==> after[k] == before[k]
        },
    }
}

/// What binding an operation to the module of its body's schema (see
/// `DefModules::bind_schema`) does to the modules, and its result `r`.
pub open spec fn schema_bound(
    before: Map<Seq<char>, Seq<ApiObject>>,
    after: Map<Seq<char>, Seq<ApiObject>>,
    emitter: DefaultEmitter,
    module: Seq<char>,
    path: Seq<char>,
    meth: HttpMethod,
    op: PathOperation,
    params: Seq<Parameter>,
    r: Result<bool, PaperClipError>,
) -> bool {
    &&& !before.dom().contains(module) ==> r == Ok::<bool, PaperClipError>(false) && after =~= before
    &&& before.dom().contains(module) ==> r != Ok::<bool, PaperClipError>(false)
    &&& r is Err ==> after =~= before
    &&& r is Err ==> (first_2xx(op.responses@) matches Some(s) && spec_build(emitter, s, false, Seq::empty()) is Err)
    &&& r == Ok::<bool, PaperClipError>(true) ==> {
        &&& after.dom() =~= before.dom()
        &&& forall|m: Seq<char>| m != module && #[trigger] before.dom().contains(m) ==> after[m] == before[m]
        &&& after[module].len() == before[module].len()
        &&& exists|q: OpRequirement| {
            &&& is_requirement(q, op, params, true, false, match first_2xx(op.responses@) {
                Some(s) => Some(known_of(spec_build(emitter, s, false, Seq::empty())->Ok_0)),
                None => None,
            })
            &&& after[module][0].spec_paths() == before[module][0].spec_paths().insert(
                path,
                bound_path(before[module][0].spec_paths(), path, meth, q),
            )
        }
    }
}

/// The entries of the registry, by module path.
pub open spec fn module_entries(s: Seq<(String, Vec<ApiObject>)>) -> Seq<(Seq<char>, Seq<ApiObject>)> {
    Seq::new(s.len(), |i: int| (s[i].0@, s[i].1@))
}

/// Whether `after` is `before` with the operation bound to its first object
/// (its other objects as they were).
pub open spec fn bound_first(before: Seq<ApiObject>, after: Seq<ApiObject>, path: Seq<char>, meth: HttpMethod, req: OpRequirement) -> bool {
    &&& after.len() == before.len()
    &&& paths_sorted(after[0].paths@)
    &&& after[0].spec_paths() == before[0].spec_paths().insert(path, bound_path(before[0].spec_paths(), path, meth, req))
    &&& after[0].name == before[0].name
    &&& after[0].fields == before[0].fields
    &&& forall|i: int| 0 < i < after.len() ==> after[i] == before[i]
}

/// The objects of each module, by the module's relative path (its names
/// joined by `/`).
#[derive(Debug)]
pub struct DefModules {
    entries: Vec<(String, Vec<ApiObject>)>,
}

impl DefModules {
    /// The objects of each module.
    pub closed spec fn spec_modules(self) -> Map<Seq<char>, Seq<ApiObject>> {
        seq_to_map(module_entries(self.entries@))
    }

    /// The modules in order of their paths, each with its objects.
    pub closed spec fn spec_entries(self) -> Seq<(Seq<char>, Seq<ApiObject>)> {
        module_entries(self.entries@)
    }

    /// The objects of each module are the map of the entries.
    pub proof fn lemma_entries(self)
        ensures
            self.spec_modules() == seq_to_map(self.spec_entries()),
    {
    }

    /// The modules in order of their paths, each with its objects.
    pub fn entries(&self) -> (r: &Vec<(String, Vec<ApiObject>)>)
        ensures
            module_entries(r@) == self.spec_entries(),
    {
        &self.entries
    }

    /// Modules are held ordered by path, each with objects to bind to.
    pub closed spec fn wf(self) -> bool {
        &&& keys_sorted(self.entries@)
        &&& forall|i: int| 0 <= i < self.entries@.len() ==> bindable((#[trigger] self.entries@[i]).1@)
    }

    /// Every module has objects to bind to.
    pub proof fn lemma_bindable(self)
        requires
            self.wf(),
        ensures
            forall|m: Seq<char>| #[trigger] self.spec_modules().dom().contains(m) ==> bindable(self.spec_modules()[m]),
    {
        let es = module_entries(self.entries@);
        self.lemma_keys_distinct();
        assert forall|m: Seq<char>| #[trigger] self.spec_modules().dom().contains(m) implies bindable(
            self.spec_modules()[m],
        ) by {
            lemma_seq_to_map_dom(es, m);
            let i = choose|i: int| 0 <= i < es.len() && (#[trigger] es[i]).0 == m;
            lemma_seq_to_map_index(es, i);
            assert(bindable(self.entries@[i].1@));
        }
    }

    /// The module paths are distinct.
    proof fn lemma_keys_distinct(self)
        requires
            keys_sorted(self.entries@),
        ensures
            keys_distinct(module_entries(self.entries@)),
    {
        let es = module_entries(self.entries@);
        lemma_sorted_keys_distinct(self.entries@);
        assert forall|a: int, b: int| 0 <= a < b < es.len() implies (#[trigger] es[a]).0 != (#[trigger] es[b]).0 by {
            assert(self.entries@[a].0@ != self.entries@[b].0@);
        }
    }

    /// No module.
    pub fn new() -> (r: Self)
        ensures
            r.wf(),
            r.spec_modules() == Map::<Seq<char>, Seq<ApiObject>>::empty(),
    {
        let r = DefModules { entries: Vec::new() };
        assert(module_entries(r.entries@) =~= Seq::<(Seq<char>, Seq<ApiObject>)>::empty());
        r
    }

    /// Whether the module has objects.
    pub fn contains(&self, module: &str) -> (r: bool)
        requires
            self.wf(),
        ensures
            r == self.spec_modules().dom().contains(module@),
    {
        let (i, found) = path_slot(&self.entries, module);
        let ghost es = module_entries(self.entries@);
        proof {
            self.lemma_keys_distinct();
            if found {
                lemma_seq_to_map_index(es, i as int);
            } else {
                assert forall|j: int| 0 <= j < es.len() implies (#[trigger] es[j]).0 != module@ by {
                    lemma_seq_less_irreflexive(module@);
                    if j > i {
                        assert(seq_less(self.entries@[i as int].0@, self.entries@[j].0@));
                        lemma_seq_less_transitive(module@, self.entries@[i as int].0@, self.entries@[j].0@);
                    }
                }
                lemma_seq_to_map_dom(es, module@);
            }
        }
        found
    }

    /// The objects of the module, if it has some.
    pub fn get(&self, module: &str) -> (r: Option<&Vec<ApiObject>>)
        requires
            self.wf(),
        ensures
            r is Some <==> self.spec_modules().dom().contains(module@),
            r matches Some(v) ==> v@ == self.spec_modules()[module@],
    {
        let (i, found) = path_slot(&self.entries, module);
        let ghost es = module_entries(self.entries@);
        proof {
            self.lemma_keys_distinct();
            if found {
                lemma_seq_to_map_index(es, i as int);
            } else {
                assert forall|j: int| 0 <= j < es.len() implies (#[trigger] es[j]).0 != module@ by {
                    lemma_seq_less_irreflexive(module@);
                    if j > i {
                        assert(seq_less(self.entries@[i as int].0@, self.entries@[j].0@));
                        lemma_seq_less_transitive(module@, self.entries@[i as int].0@, self.entries@[j].0@);
                    }
                }
                lemma_seq_to_map_dom(es, module@);
            }
        }
        if found {
            Some(&self.entries[i].1)
        } else {
            None
        }
    }

    /// Sets the objects of a module, in place of any it had.
    pub fn insert(&mut self, module: String, objects: Vec<ApiObject>)
        requires
            old(self).wf(),
            bindable(objects@),
        ensures
            final(self).wf(),
            final(self).spec_modules() == old(self).spec_modules().insert(module@, objects@),
    {
        let (i, found) = path_slot(&self.entries, module.as_str());
        let ghost es = module_entries(self.entries@);
        let ghost ov = objects@;
        proof {
            self.lemma_keys_distinct();
        }
        if found {
            let _ = self.entries.remove(i);
            self.entries.insert(i, (module, objects));
            proof {
                assert(self.entries@ =~= old(self).entries@.update(i as int, self.entries@[i as int]));
                assert(module_entries(self.entries@) =~= es.update(i as int, (es[i as int].0, ov)));
                lemma_seq_to_map_update(es, i as int, ov);
                assert forall|a: int, b: int| 0 <= a < b < self.entries@.len() implies seq_less(
                    (#[trigger] self.entries@[a]).0@,
                    (#[trigger] self.entries@[b]).0@,
                ) by {
                    assert(self.entries@[a].0@ == old(self).entries@[a].0@);
                    assert(self.entries@[b].0@ == old(self).entries@[b].0@);
                }
                assert forall|k: int| 0 <= k < self.entries@.len() implies bindable((#[trigger] self.entries@[k]).1@) by {
                    if k != i {
                        assert(self.entries@[k] == old(self).entries@[k]);
                    }
                }
            }
        } else {
            let ghost e = (module, objects);
            proof {
                lemma_slot_insert(self.entries@, i as int, e);
                assert forall|j: int| 0 <= j < es.len() implies (#[trigger] es[j]).0 != module@ by {
                    assert(es[j].0 == self.entries@[j].0@);
                }
                lemma_seq_to_map_insert(es, i as int, module@, ov);
            }
            self.entries.insert(i, (module, objects));
            proof {
                assert(module_entries(self.entries@) =~= es.insert(i as int, (module@, ov)));
                assert forall|k: int| 0 <= k < self.entries@.len() implies bindable((#[trigger] self.entries@[k]).1@) by {
                    if k < i {
                        assert(self.entries@[k] == old(self).entries@[k]);
                    } else if k > i {
                        assert(self.entries@[k] == old(self).entries@[k - 1]);
                    }
                }
            }
        }
    }

    /// Binds an operation to the first object of a module; false, with
    /// nothing changed, when the module has no objects.
    pub fn bind_first(&mut self, module: &str, path: &str, meth: HttpMethod, req: OpRequirement) -> (r: bool)
        requires
            old(self).wf(),
        ensures
            final(self).wf(),
            r == old(self).spec_modules().dom().contains(module@),
            !r ==> final(self).spec_modules() == old(self).spec_modules(),
            r ==> final(self).spec_modules().dom() == old(self).spec_modules().dom(),
            r ==> forall|m: Seq<char>| m != module@ && #[trigger] old(self).spec_modules().dom().contains(m)
                ==> final(self).spec_modules()[m] == old(self).spec_modules()[m],
            r ==> bound_first(old(self).spec_modules()[module@], final(self).spec_modules()[module@], path@, meth, req),
    {
        let (i, found) = path_slot(&self.entries, module);
        let ghost es = module_entries(self.entries@);
        proof {
            self.lemma_keys_distinct();
        }
        if !found {
            proof {
                assert forall|j: int| 0 <= j < es.len() implies (#[trigger] es[j]).0 != module@ by {
                    lemma_seq_less_irreflexive(module@);
                    if j > i {
                        assert(seq_less(self.entries@[i as int].0@, self.entries@[j].0@));
                        lemma_seq_less_transitive(module@, self.entries@[i as int].0@, self.entries@[j].0@);
                    }
                }
                lemma_seq_to_map_dom(es, module@);
            }
            return false;
        }
        proof {
            lemma_seq_to_map_index(es, i as int);
            assert(bindable(self.entries@[i as int].1@));
        }
        let (key, mut objects) = self.entries.remove(i);
        let ghost before = objects@;
        bind_to_first(&mut objects, path, meth, req);
        let ghost after = objects@;
        self.entries.insert(i, (key, objects));
        proof {
            assert(self.entries@ =~= old(self).entries@.update(i as int, self.entries@[i as int]));
            assert(module_entries(self.entries@) =~= es.update(i as int, (es[i as int].0, after)));
            lemma_seq_to_map_update(es, i as int, after);
            assert forall|a: int, b: int| 0 <= a < b < self.entries@.len() implies seq_less(
                (#[trigger] self.entries@[a]).0@,
                (#[trigger] self.entries@[b]).0@,
            ) by {
                assert(self.entries@[a].0@ == old(self).entries@[a].0@);
                assert(self.entries@[b].0@ == old(self).entries@[b].0@);
            }
            assert forall|k: int| 0 <= k < self.entries@.len() implies bindable((#[trigger] self.entries@[k]).1@) by {
                if k != i {
                    assert(self.entries@[k] == old(self).entries@[k]);
                }
            }
        }
        true
    }

    /// Binds an operation, with the requirement and target that its
    /// response gave, to the module that target leads to: the miscellaneous
    /// module is made (recorded in the tree, with its object) when it is not
    /// there yet; false, with nothing changed, when the module has no name
    /// or no objects.
    pub fn bind_blindly(
        &mut self,
        tree: &mut ModuleTree,
        emitter: &DefaultEmitter,
        path: &str,
        meth: HttpMethod,
        target: BlindTarget,
        response: &Schema,
        req: OpRequirement,
    ) -> (r: bool)
        requires
            old(self).wf(),
            old(tree).wf(),
        ensures
            final(self).wf(),
            final(tree).wf(),
            blindly_bound(
                old(self).spec_modules(),
                final(self).spec_modules(),
                old(tree).spec_modules(),
                final(tree).spec_modules(),
                *emitter,
                path@,
                meth,
                target,
                *response,
                req,
                r,
            ),
    {
        let names = match emitter.blind_module(target, response) {
            Some(ns) => ns,
            None => return false,
        };
        let module = join(&names, "/");
        let is_misc = match target {
            BlindTarget::Miscellaneous => true,
            _ => false,
        };
        if is_misc && !self.contains(module.as_str()) {
            let mut objects: Vec<ApiObject> = Vec::new();
            objects.push(emitter.unknown_op_object());
            proof {
                assert(names@.len() > 0);
            }
            let res = tree.add_objects_to_path(&mut objects, &names);
            proof {
                assert(res is Ok);
                assert(objects@[0].paths@.len() == 0);
                assert(objects@[0].spec_paths() =~= Map::<Seq<char>, crate::requirements::PathOpsView>::empty());
            }
            let ghost made = objects@;
            let ghost m = module@;
            let key = module.clone();
            let ghost before = self.spec_modules();
            self.insert(module, objects);
            let ghost mid = self.spec_modules();
            let bound = self.bind_first(key.as_str(), path, meth, req);
            proof {
                assert(mid[m] == made);
                assert(mid.dom() == before.dom().insert(m));
                assert(made.len() == 1);
                assert(made[0].name@ == "Miscellaneous"@);
                assert forall|k: Seq<char>| k != m && #[trigger] before.dom().contains(k) implies self.spec_modules()[k]
                    == before[k] by {
                    assert(mid[k] == before[k]);
                    assert(mid.dom().contains(k));
                }
            }
            return bound;
        }
        self.bind_first(module.as_str(), path, meth, req)
    }
}

impl DefModules {
    /// Binds an operation whose body is an object of the module to that
    /// module (see `bind_schema_to_operation`); false, with nothing changed,
    /// when the module has no objects.
    pub fn bind_schema(
        &mut self,
        emitter: &DefaultEmitter,
        module: &str,
        path: &str,
        meth: HttpMethod,
        op: &PathOperation,
        params: Vec<Parameter>,
    ) -> (r: Result<bool, PaperClipError>)
        requires
            old(self).wf(),
        ensures
            final(self).wf(),
            schema_bound(
                old(self).spec_modules(),
                final(self).spec_modules(),
                *emitter,
                module@,
                path@,
                meth,
                *op,
                params@,
                r,
            ),
    {
        let (i, found) = path_slot(&self.entries, module);
        let ghost es = module_entries(self.entries@);
        proof {
            self.lemma_keys_distinct();
        }
        if !found {
            proof {
                assert forall|j: int| 0 <= j < es.len() implies (#[trigger] es[j]).0 != module@ by {
                    lemma_seq_less_irreflexive(module@);
                    if j > i {
                        assert(seq_less(self.entries@[i as int].0@, self.entries@[j].0@));
                        lemma_seq_less_transitive(module@, self.entries@[i as int].0@, self.entries@[j].0@);
                    }
                }
                lemma_seq_to_map_dom(es, module@);
            }
            return Ok(false);
        }
        proof {
            lemma_seq_to_map_index(es, i as int);
            assert(bindable(self.entries@[i as int].1@));
        }
        let (key, mut objects) = self.entries.remove(i);
        let ghost before = objects@;
        let ghost pv = params@;
        let res = emitter.bind_schema_to_operation(&mut objects, path, meth, op, params);
        let ghost after = objects@;
        self.entries.insert(i, (key, objects));
        proof {
            assert(self.entries@ =~= old(self).entries@.update(i as int, self.entries@[i as int]));
            assert(module_entries(self.entries@) =~= es.update(i as int, (es[i as int].0, after)));
            lemma_seq_to_map_update(es, i as int, after);
            assert forall|a: int, b: int| 0 <= a < b < self.entries@.len() implies seq_less(
                (#[trigger] self.entries@[a]).0@,
                (#[trigger] self.entries@[b]).0@,
            ) by {
                assert(self.entries@[a].0@ == old(self).entries@[a].0@);
                assert(self.entries@[b].0@ == old(self).entries@[b].0@);
            }
            assert forall|k: int| 0 <= k < self.entries@.len() implies bindable((#[trigger] self.entries@[k]).1@) by {
                if k != i {
                    assert(self.entries@[k] == old(self).entries@[k]);
                }
            }
            if res is Err {
                assert(self.spec_modules() =~= old(self).spec_modules());
            } else {
                assert(old(self).spec_modules()[module@] == before);
                assert(self.spec_modules()[module@] == after);
                assert(self.spec_modules().dom() =~= old(self).spec_modules().dom());
                let q = choose|q: OpRequirement| {
                    &&& is_requirement(q, *op, pv, true, false, match first_2xx(op.responses@) {
                        Some(s) => Some(known_of(spec_build(*emitter, s, false, Seq::empty())->Ok_0)),
                        None => None,
                    })
                    &&& after[0].spec_paths() == before[0].spec_paths().insert(
                        path@,
                        bound_path(before[0].spec_paths(), path@, meth, q),
                    )
                };
                assert(self.spec_modules()[module@][0].spec_paths() == old(self).spec_modules()[module@][0].spec_paths().insert(
                    path@,
                    bound_path(old(self).spec_modules()[module@][0].spec_paths(), path@, meth, q),
                ));
            }
        }
        match res {
            Ok(()) => Ok(true),
            Err(e) => Err(e),
        }
    }
}

/// What became of an operation when it was bound.
#[derive(Debug, Clone, Copy, PartialEq, Eq)]
pub enum Binding {
    /// Bound to the object of its body's schema.
    ToBody,
    /// Its body's schema is in a module without objects.
    UnregisteredBody,
    /// It has no response schema to bind it by.
    Unbound,
    /// Bound to the object its response leads to.
    ToResponse,
    /// Its response leads to a module without objects.
    UnknownResponse,
}

impl DefModules {
    /// Binds an operation of a path with the given parameters: to the
    /// object of its body's schema when it has one (`body` is the module of
    /// that schema), else blindly, by the schema of its response.
    pub fn bind_operation(
        &mut self,
        tree: &mut ModuleTree,
        emitter: &DefaultEmitter,
        path: &str,
        meth: HttpMethod,
        op: &PathOperation,
        params: Vec<Parameter>,
        body: Option<String>,
    ) -> (r: Result<Binding, PaperClipError>)
        requires
            old(self).wf(),
            old(tree).wf(),
        ensures
            final(self).wf(),
            final(tree).wf(),
            match body {
                Some(m) => {
                    &&& final(tree).spec_modules() == old(tree).spec_modules()
                    &&& exists|rs: Result<bool, PaperClipError>|
                        schema_bound(
                            old(self).spec_modules(),
                            final(self).spec_modules(),
                            *emitter,
                            m@,
                            path@,
                            meth,
                            *op,
                            params@,
                            rs,
                        ) && r == match rs {
                            Ok(true) => Ok::<Binding, PaperClipError>(Binding::ToBody),
                            Ok(false) => Ok::<Binding, PaperClipError>(Binding::UnregisteredBody),
                            Err(e) => Err::<Binding, PaperClipError>(e),
                        }
                },
                None => exists|br: Result<Option<(BlindTarget, OpRequirement)>, PaperClipError>|
                    blind_result(*emitter, *op, params@, br) && match br {
                        Err(e) => r == Err::<Binding, PaperClipError>(e) && final(self).spec_modules() == old(
                            self,
                        ).spec_modules() && final(tree).spec_modules() == old(tree).spec_modules(),
                        Ok(None) => r == Ok::<Binding, PaperClipError>(Binding::Unbound) && final(self).spec_modules()
                            == old(self).spec_modules() && final(tree).spec_modules() == old(tree).spec_modules(),
                        Ok(Some((t, q))) => exists|ok: bool|
                            blindly_bound(
                                old(self).spec_modules(),
                                final(self).spec_modules(),
                                old(tree).spec_modules(),
                                final(tree).spec_modules(),
                                *emitter,
                                path@,
                                meth,
                                t,
                                first_2xx(op.responses@)->0,
                                q,
                                ok,
                            ) && r == Ok::<Binding, PaperClipError>(
                                if ok {
                                    Binding::ToResponse
                                } else {
                                    Binding::UnknownResponse
                                },
                            ),
                    },
            },
    {
        match body {
            Some(m) => {
                let rs = self.bind_schema(emitter, m.as_str(), path, meth, op, params);
                match rs {
                    Ok(true) => Ok(Binding::ToBody),
                    Ok(false) => Ok(Binding::UnregisteredBody),
                    Err(e) => Err(e),
                }
            },
            None => {
                let br = emitter.blind_requirement(op, params);
                match br {
                    Err(e) => Err(e),
                    Ok(None) => Ok(Binding::Unbound),
                    Ok(Some((t, q))) => {
                        let response = match crate::collector::get_2xx_response_schema(op) {
                            Some(s) => s,
                            None => {
                                return Ok(Binding::Unbound);
                            },
                        };
                        let ok = self.bind_blindly(tree, emitter, path, meth, t, response, q);
                        if ok {
                            Ok(Binding::ToResponse)
                        } else {
                            Ok(Binding::UnknownResponse)
                        }
                    },
                }
            },
        }
    }
}

} // verus!
