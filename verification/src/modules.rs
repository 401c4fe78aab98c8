//! The module tree of the generated code: the modules that each module
//! declares, the declarations written for them, and the path recorded in
//! the objects of a module.

use vstd::prelude::*;
use crate::apis::{join, joined, string_views};
use crate::definitions::PaperClipError;
use crate::mount::{keys_sorted, lemma_slot_insert, lemma_sorted_keys_distinct, path_slot, reversed};
use crate::object::ApiObject;
use crate::object::seq_less;
use crate::requirements::{
    keys_distinct, lemma_seq_less_irreflexive, lemma_seq_less_transitive, lemma_seq_to_map_dom,
    lemma_seq_to_map_index, lemma_seq_to_map_insert, lemma_seq_to_map_update, seq_to_map,
};
use crate::text::push_str;

verus! {

/// The children of a module as entries: the name of each, and whether it is
/// a leaf module (a file) rather than a directory.
pub open spec fn kids_view(v: Seq<(String, bool)>) -> Seq<(Seq<char>, bool)> {
    Seq::new(v.len(), |i: int| (v[i].0@, v[i].1))
}

/// The children of a module with `name` added, unless it has a child of that
/// name already (which then stays as it is).
pub open spec fn with_child(kids: Map<Seq<char>, bool>, name: Seq<char>, is_final: bool) -> Map<Seq<char>, bool> {
    if kids.dom().contains(name) {
        kids
    } else {
        kids.insert(name, is_final)
    }
}

/// The tree with the child `name` added to module `parent`.
pub open spec fn added(
    m: Map<Seq<char>, Map<Seq<char>, bool>>,
    parent: Seq<char>,
    name: Seq<char>,
    is_final: bool,
) -> Map<Seq<char>, Map<Seq<char>, bool>> {
    m.insert(
        parent,
        with_child(
            if m.dom().contains(parent) {
                m[parent]
            } else {
                Map::empty()
            },
            name,
            is_final,
        ),
    )
}

/// The tree with each parent and child pair added, in order.
pub open spec fn added_all(
    m: Map<Seq<char>, Map<Seq<char>, bool>>,
    pairs: Seq<(Seq<char>, Seq<char>, bool)>,
) -> Map<Seq<char>, Map<Seq<char>, bool>>
    decreases pairs.len(),
{
    if pairs.len() == 0 {
        m
    } else {
        let p = pairs.last();
        added(added_all(m, pairs.drop_last()), p.0, p.1, p.2)
    }
}

/// The parent and child pairs of a module at the relative path `rel`, from
/// the module itself (a leaf) up to the root: each ancestor is the child of
/// the one above it, the root being the empty path.
pub open spec fn module_pairs(rel: Seq<Seq<char>>) -> Seq<(Seq<char>, Seq<char>, bool)> {
    Seq::new(
        rel.len(),
        |i: int| (joined(rel.take(rel.len() - 1 - i), "/"@), rel[rel.len() - 1 - i], i == 0),
    )
}

/// The modules of the generated code, by the relative path of each module
/// that declares others (`/` between names, empty for the root).
#[derive(Debug)]
pub struct ModuleTree {
    parents: Vec<(String, Vec<(String, bool)>)>,
}

/// The entries of the tree: each parent with its children.
pub open spec fn tree_entries(p: Seq<(String, Vec<(String, bool)>)>) -> Seq<(Seq<char>, Seq<(Seq<char>, bool)>)> {
    Seq::new(p.len(), |i: int| (p[i].0@, kids_view(p[i].1@)))
}

/// The map of the entries of a tree.
pub open spec fn tree_map(es: Seq<(Seq<char>, Seq<(Seq<char>, bool)>)>) -> Map<Seq<char>, Map<Seq<char>, bool>> {
    seq_to_map(Seq::new(es.len(), |i: int| (es[i].0, seq_to_map(es[i].1))))
}

/// Entries strictly ordered by name.
pub open spec fn names_sorted<X>(s: Seq<(Seq<char>, X)>) -> bool {
    forall|i: int, j: int| 0 <= i < j < s.len() ==> seq_less((#[trigger] s[i]).0, (#[trigger] s[j]).0)
}

impl ModuleTree {
    /// The children of each module that has some.
    pub closed spec fn spec_modules(self) -> Map<Seq<char>, Map<Seq<char>, bool>> {
        tree_map(self.spec_entries())
    }

    /// The parents in order of their paths, each with its children in order
    /// of their names.
    pub closed spec fn spec_entries(self) -> Seq<(Seq<char>, Seq<(Seq<char>, bool)>)> {
        tree_entries(self.parents@)
    }

    /// Parents and children are held ordered by name.
    pub closed spec fn wf(self) -> bool {
        &&& keys_sorted(self.parents@)
        &&& forall|i: int| 0 <= i < self.parents@.len() ==> keys_sorted((#[trigger] self.parents@[i]).1@)
    }

    /// The entries are ordered, and the tree is their map.
    pub proof fn lemma_entries(self)
        requires
            self.wf(),
        ensures
            names_sorted(self.spec_entries()),
            forall|i: int| 0 <= i < self.spec_entries().len() ==> names_sorted(#[trigger] self.spec_entries()[i].1),
            self.spec_modules() == tree_map(self.spec_entries()),
    {
        assert forall|i: int| 0 <= i < self.spec_entries().len() implies names_sorted(
            #[trigger] self.spec_entries()[i].1,
        ) by {
            assert(keys_sorted(self.parents@[i].1@));
        }
    }

    /// A tree without modules.
    pub fn new() -> (r: Self)
        ensures
            r.wf(),
            r.spec_modules() == Map::<Seq<char>, Map<Seq<char>, bool>>::empty(),
    {
        let r = ModuleTree { parents: Vec::new() };
        assert(Seq::new(
            r.spec_entries().len(),
            |i: int| (r.spec_entries()[i].0, seq_to_map(r.spec_entries()[i].1)),
        ) =~= Seq::<(Seq<char>, Map<Seq<char>, bool>)>::empty());
        r
    }
}

/// A sorted list of children with `name` added unless it is there.
fn add_kid(kids: &mut Vec<(String, bool)>, name: &str, is_final: bool)
    requires
        keys_sorted(old(kids)@),
    ensures
        keys_sorted(final(kids)@),
        seq_to_map(kids_view(final(kids)@)) == with_child(seq_to_map(kids_view(old(kids)@)), name@, is_final),
{
    let (j, found) = path_slot(kids, name);
    let ghost kv = kids_view(kids@);
    proof {
        lemma_sorted_keys_distinct(kids@);
        assert(keys_distinct(kv)) by {
            assert forall|a: int, b: int| 0 <= a < b < kv.len() implies (#[trigger] kv[a]).0 != (#[trigger] kv[b]).0 by {
                assert(kids@[a].0@ != kids@[b].0@);
            }
        }
    }
    if found {
        proof {
            lemma_seq_to_map_index(kv, j as int);
        }
    } else {
        let mut n = String::new();
        push_str(&mut n, name);
        let ghost e = (n, is_final);
        proof {
            lemma_slot_insert(kids@, j as int, e);
            assert forall|k: int| 0 <= k < kv.len() implies (#[trigger] kv[k]).0 != name@ by {
                assert(kv[k].0 == kids@[k].0@);
            }
            lemma_seq_to_map_dom(kv, name@);
            lemma_seq_to_map_insert(kv, j as int, name@, is_final);
        }
        kids.insert(j, (n, is_final));
        proof {
            assert(kids_view(kids@) =~= kv.insert(j as int, (name@, is_final)));
        }
    }
}

impl ModuleTree {
    /// Records `name` as a child of module `parent`; a child of that name
    /// that is there already stays as it is.
    pub fn add_child(&mut self, parent: &str, name: &str, is_final: bool)
        requires
            old(self).wf(),
        ensures
            final(self).wf(),
            final(self).spec_modules() == added(old(self).spec_modules(), parent@, name@, is_final),
    {
        let (i, found) = path_slot(&self.parents, parent);
        let ghost es = self.spec_entries();
        let ghost ms = Seq::new(es.len(), |k: int| (es[k].0, seq_to_map(es[k].1)));
        proof {
            lemma_sorted_keys_distinct(self.parents@);
            assert(keys_distinct(ms)) by {
                assert forall|a: int, b: int| 0 <= a < b < ms.len() implies (#[trigger] ms[a]).0 != (#[trigger] ms[b]).0 by {
                    assert(self.parents@[a].0@ != self.parents@[b].0@);
                }
            }
        }
        if found {
            proof {
                lemma_seq_to_map_index(ms, i as int);
                assert(keys_sorted(self.parents@[i as int].1@));
            }
            let (key, mut kids) = self.parents.remove(i);
            add_kid(&mut kids, name, is_final);
            let ghost after = seq_to_map(kids_view(kids@));
            self.parents.insert(i, (key, kids));
            proof {
                assert(self.parents@ =~= old(self).parents@.update(i as int, self.parents@[i as int]));
                let ms2 = Seq::new(
                    self.spec_entries().len(),
                    |k: int| (self.spec_entries()[k].0, seq_to_map(self.spec_entries()[k].1)),
                );
                assert(ms2 =~= ms.update(i as int, (ms[i as int].0, after)));
                lemma_seq_to_map_update(ms, i as int, after);
                assert forall|a: int, b: int| 0 <= a < b < self.parents@.len() implies seq_less(
                    (#[trigger] self.parents@[a]).0@,
                    (#[trigger] self.parents@[b]).0@,
                ) by {
                    assert(self.parents@[a].0@ == old(self).parents@[a].0@);
                    assert(self.parents@[b].0@ == old(self).parents@[b].0@);
                }
                assert forall|k: int| 0 <= k < self.parents@.len() implies keys_sorted((#[trigger] self.parents@[k]).1@) by {
                    if k != i {
                        assert(self.parents@[k] == old(self).parents@[k]);
                    }
                }
            }
        } else {
            let mut kids: Vec<(String, bool)> = Vec::new();
            add_kid(&mut kids, name, is_final);
            let ghost after = seq_to_map(kids_view(kids@));
            proof {
                assert(seq_to_map(kids_view(Seq::<(String, bool)>::empty())) =~= Map::<Seq<char>, bool>::empty()) by {
                    assert(kids_view(Seq::<(String, bool)>::empty()) =~= Seq::<(Seq<char>, bool)>::empty());
                }
                assert forall|k: int| 0 <= k < ms.len() implies (#[trigger] ms[k]).0 != parent@ by {
                    assert(ms[k].0 == self.parents@[k].0@);
                    lemma_seq_less_irreflexive(parent@);
                    if k > i {
                        assert(seq_less(self.parents@[i as int].0@, self.parents@[k].0@));
                        lemma_seq_less_transitive(parent@, self.parents@[i as int].0@, self.parents@[k].0@);
                    }
                }
                lemma_seq_to_map_dom(ms, parent@);
                lemma_seq_to_map_insert(ms, i as int, parent@, after);
            }
            let mut key = String::new();
            push_str(&mut key, parent);
            let ghost e = (key, kids);
            proof {
                lemma_slot_insert(self.parents@, i as int, e);
            }
            self.parents.insert(i, (key, kids));
            proof {
                let ms2 = Seq::new(
                    self.spec_entries().len(),
                    |k: int| (self.spec_entries()[k].0, seq_to_map(self.spec_entries()[k].1)),
                );
                assert(ms2 =~= ms.insert(i as int, (parent@, after)));
                assert forall|k: int| 0 <= k < self.parents@.len() implies keys_sorted((#[trigger] self.parents@[k]).1@) by {
                    if k < i {
                        assert(self.parents@[k] == old(self).parents@[k]);
                    } else if k > i {
                        assert(self.parents@[k] == old(self).parents@[k - 1]);
                    }
                }
            }
        }
    }
}

/// The first `k` names of `rel`.
fn prefix_of(rel: &Vec<String>, k: usize) -> (r: Vec<String>)
    requires
        k <= rel@.len(),
    ensures
        string_views(r@) == string_views(rel@).take(k as int),
{
    let mut r: Vec<String> = Vec::new();
    let mut j: usize = 0;
    while j < k
        invariant
            j <= k <= rel@.len(),
            string_views(r@) == string_views(rel@).take(j as int),
        decreases k - j,
    {
        let ghost before = string_views(r@);
        r.push(rel[j].clone());
        assert(string_views(r@) =~= before.push(rel@[j as int]@));
        assert(string_views(rel@).take(j + 1) =~= string_views(rel@).take(j as int).push(rel@[j as int]@));
        j = j + 1;
    }
    r
}

/// The text that declares a child module: a leaf is included from its
/// file, a directory from its `mod.rs`.
pub open spec fn declaration(c: (Seq<char>, bool)) -> Seq<char> {
    "\npub mod "@ + c.0 + " {\n    include!(\"./"@ + c.0 + (if c.1 {
        ".rs"@
    } else {
        "/mod.rs"@
    }) + "\");\n}\n"@
}

/// The declarations of the children, in order.
pub open spec fn declarations(cs: Seq<(Seq<char>, bool)>) -> Seq<char>
    decreases cs.len(),
{
    if cs.len() == 0 {
        Seq::empty()
    } else {
        declarations(cs.drop_last()) + declaration(cs.last())
    }
}

/// Appends the declaration of a child module.
fn push_declaration(out: &mut String, name: &str, is_final: bool)
    ensures
        final(out)@ == old(out)@ + declaration((name@, is_final)),
{
    push_str(out, "\npub mod ");
    push_str(out, name);
    push_str(out, " {\n    include!(\"./");
    push_str(out, name);
    if is_final {
        push_str(out, ".rs");
    } else {
        push_str(out, "/mod.rs");
    }
    push_str(out, "\");\n}\n");
    proof {
        reveal_strlit("\npub mod ");
        reveal_strlit(" {\n    include!(\"./");
        reveal_strlit(".rs");
        reveal_strlit("/mod.rs");
        reveal_strlit("\");\n}\n");
    }
    assert(final(out)@ =~= old(out)@ + declaration((name@, is_final)));
}

impl ModuleTree {
    /// Records the modules on the way to the leaf module at relative path
    /// `rel`: each one a child of the one above it, up to the root.
    pub fn add_module(&mut self, rel: &Vec<String>)
        requires
            old(self).wf(),
        ensures
            final(self).wf(),
            final(self).spec_modules() == added_all(old(self).spec_modules(), module_pairs(string_views(rel@))),
    {
        let n = rel.len();
        let ghost views = string_views(rel@);
        let ghost start = self.spec_modules();
        let mut i: usize = 0;
        assert(module_pairs(views).take(0) =~= Seq::<(Seq<char>, Seq<char>, bool)>::empty());
        while i < n
            invariant
                n == rel@.len(),
                views == string_views(rel@),
                i <= n,
                self.wf(),
                self.spec_modules() == added_all(start, module_pairs(views).take(i as int)),
            decreases n - i,
        {
            let k = n - 1 - i;
            let prefix = prefix_of(rel, k);
            let parent = join(&prefix, "/");
            self.add_child(parent.as_str(), rel[k].as_str(), i == 0);
            proof {
                let t = module_pairs(views).take(i + 1);
                assert(t.drop_last() =~= module_pairs(views).take(i as int));
                assert(t.last() == (joined(views.take(k as int), "/"@), views[k as int], i == 0));
            }
            i = i + 1;
        }
        assert(module_pairs(views).take(n as int) =~= module_pairs(views));
    }

    /// The declarations to write for each module that has children: its
    /// relative path and the text declaring its children, in order of name.
    pub fn declarations(&self) -> (r: Vec<(String, String)>)
        ensures
            r@.len() == self.spec_entries().len(),
            forall|i: int| 0 <= i < r@.len() ==> (#[trigger] r@[i]).0@ == self.spec_entries()[i].0
                && r@[i].1@ == declarations(self.spec_entries()[i].1),
    {
        let mut out: Vec<(String, String)> = Vec::new();
        let mut i: usize = 0;
        while i < self.parents.len()
            invariant
                i <= self.parents@.len(),
                out@.len() == i,
                forall|k: int| 0 <= k < i ==> (#[trigger] out@[k]).0@ == self.spec_entries()[k].0
                    && out@[k].1@ == declarations(self.spec_entries()[k].1),
            decreases self.parents.len() - i,
        {
            let kids = &self.parents[i].1;
            let ghost kv = kids_view(kids@);
            let mut text = String::new();
            let mut j: usize = 0;
            while j < kids.len()
                invariant
                    j <= kids@.len(),
                    kv == kids_view(kids@),
                    text@ == declarations(kv.take(j as int)),
                decreases kids.len() - j,
            {
                assert(kv.take(j + 1).drop_last() =~= kv.take(j as int));
                push_declaration(&mut text, kids[j].0.as_str(), kids[j].1);
                j = j + 1;
            }
            assert(kv.take(kv.len() as int) =~= kv);
            let mut key = String::new();
            push_str(&mut key, self.parents[i].0.as_str());
            out.push((key, text));
            i = i + 1;
        }
        out
    }

    /// Records the module at relative path `rel` for the given objects, and
    /// sets their path to it (names joined by `::`). A module needs a name.
    pub fn add_objects_to_path(&mut self, objects: &mut Vec<ApiObject>, rel: &Vec<String>) -> (r: Result<(), PaperClipError>)
        requires
            old(self).wf(),
        ensures
            final(self).wf(),
            rel@.len() == 0 <==> r is Err,
            r is Err ==> (r matches Err(PaperClipError::InvalidDefinitionPath(p)) && p@.len() == 0),
            r is Err ==> final(self).spec_modules() == old(self).spec_modules() && final(objects)@ == old(objects)@,
            r is Ok ==> final(self).spec_modules() == added_all(old(self).spec_modules(), module_pairs(string_views(rel@))),
            r is Ok ==> final(objects)@.len() == old(objects)@.len(),
            r is Ok ==> forall|i: int| 0 <= i < final(objects)@.len() ==> {
                &&& (#[trigger] final(objects)@[i]).path@ == joined(string_views(rel@), "::"@)
                &&& final(objects)@[i].name == old(objects)@[i].name
                &&& final(objects)@[i].description == old(objects)@[i].description
                &&& final(objects)@[i].fields == old(objects)@[i].fields
                &&& final(objects)@[i].paths == old(objects)@[i].paths
            },
    {
        if rel.len() == 0 {
            return Err(PaperClipError::InvalidDefinitionPath(String::new()));
        }
        self.add_module(rel);
        let path = join(rel, "::");
        let mut taken: Vec<ApiObject> = Vec::new();
        std::mem::swap(&mut taken, objects);
        let ghost src = taken@;
        let mut rev = reversed(taken);
        let mut out: Vec<ApiObject> = Vec::new();
        while rev.len() > 0
            invariant
                rev@.reverse() == src.skip(out@.len() as int),
                out@.len() + rev@.len() == src.len(),
                forall|i: int| 0 <= i < out@.len() ==> {
                    &&& (#[trigger] out@[i]).path@ == path@
                    &&& out@[i].name == src[i].name
                    &&& out@[i].description == src[i].description
                    &&& out@[i].fields == src[i].fields
                    &&& out@[i].paths == src[i].paths
                },
            decreases rev.len(),
        {
            let ghost old_r = rev@;
            let ghost i = out@.len() as int;
            let mut o = rev.pop().unwrap();
            assert(old_r.reverse()[0] == old_r.last());
            assert(src.skip(i)[0] == src[i]);
            assert(old_r.reverse().drop_first() =~= old_r.drop_last().reverse());
            assert(src.skip(i).drop_first() =~= src.skip(i + 1));
            o.path = path.clone();
            out.push(o);
        }
        *objects = out;
        Ok(())
    }
}

/// Adding a child keeps every module and child recorded before.
proof fn lemma_added_keeps(m: Map<Seq<char>, Map<Seq<char>, bool>>, parent: Seq<char>, name: Seq<char>, is_final: bool)
    ensures
        added(m, parent, name, is_final).dom().contains(parent),
        added(m, parent, name, is_final)[parent].dom().contains(name),
        forall|q: Seq<char>, c: Seq<char>| #[trigger] m.dom().contains(q) && m[q].dom().contains(c)
            ==> added(m, parent, name, is_final).dom().contains(q) && #[trigger] added(m, parent, name, is_final)[q].dom().contains(c),
{
}

/// **Law.** Once a module is recorded, each module on its way from the root
/// declares the next one: every pair of the module's path is in the tree,
/// whatever was recorded before.
pub proof fn law_modules_declared(m: Map<Seq<char>, Map<Seq<char>, bool>>, pairs: Seq<(Seq<char>, Seq<char>, bool)>)
    ensures
        forall|i: int| 0 <= i < pairs.len() ==> added_all(m, pairs).dom().contains(#[trigger] pairs[i].0)
            && added_all(m, pairs)[pairs[i].0].dom().contains(pairs[i].1),
    decreases pairs.len(),
{
    if pairs.len() > 0 {
        let prev = pairs.drop_last();
        law_modules_declared(m, prev);
        let p = pairs.last();
        lemma_added_keeps(added_all(m, prev), p.0, p.1, p.2);
        assert forall|i: int| 0 <= i < pairs.len() implies added_all(m, pairs).dom().contains(#[trigger] pairs[i].0)
            && added_all(m, pairs)[pairs[i].0].dom().contains(pairs[i].1) by {
            if i < pairs.len() - 1 {
                assert(prev[i] == pairs[i]);
            }
        }
    }
}

} // verus!
