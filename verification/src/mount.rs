//! How the actix plugin records the operations of what is mounted on an
//! application: routes and resources, scopes, and the paths of the
//! specification.

use vstd::prelude::*;
use crate::definitions::Schema;
use crate::models::HttpMethod;
use crate::object::seq_less;
use crate::requirements::{
    insert_method, keys_distinct, lemma_seq_less_irreflexive, lemma_seq_less_total,
    lemma_seq_less_transitive, lemma_seq_to_map_dom, lemma_seq_to_map_index, lemma_seq_to_map_insert,
    lemma_seq_to_map_update, methods_ordered, seq_to_map, text_less,
};

verus! {

/* ---------------------------------------------------------------------- */
/* Operations by method                                                   */
/* ---------------------------------------------------------------------- */

/// The methods that a route without a method answers to, in order.
pub open spec fn all_methods() -> Seq<HttpMethod> {
    seq![
        HttpMethod::Get,
        HttpMethod::Put,
        HttpMethod::Post,
        HttpMethod::Delete,
        HttpMethod::Options,
        HttpMethod::Head,
        HttpMethod::Patch,
    ]
}

/// The operations of a path, by method.
#[derive(Debug)]
pub struct OperationMap<O> {
    methods: Vec<(HttpMethod, O)>,
}

/// The map that results from putting the entries of `s` into `m`, in order.
pub open spec fn put_all<K, V>(m: Map<K, V>, s: Seq<(K, V)>) -> Map<K, V>
    decreases s.len(),
{
    if s.len() == 0 {
        m
    } else {
        put_all(m, s.drop_last()).insert(s.last().0, s.last().1)
    }
}

impl<O> OperationMap<O> {
    /// The operations in the order they are held (by method).
    pub closed spec fn spec_entries(self) -> Seq<(HttpMethod, O)> {
        self.methods@
    }

    /// The operations by method.
    pub closed spec fn spec_methods(self) -> Map<HttpMethod, O> {
        seq_to_map(self.methods@)
    }

    /// The operations are held ordered by method.
    pub closed spec fn wf(self) -> bool {
        methods_ordered(self.methods@)
    }

    /// An empty map of operations.
    pub fn new() -> (r: Self)
        ensures
            r.wf(),
            r.spec_methods() == Map::<HttpMethod, O>::empty(),
    {
        OperationMap { methods: Vec::new() }
    }

    /// Whether there is no operation.
    pub fn is_empty(&self) -> (r: bool)
        requires
            self.wf(),
        ensures
            r <==> self.spec_methods() == Map::<HttpMethod, O>::empty(),
    {
        proof {
            if self.methods@.len() > 0 {
                assert(self.spec_methods().dom().contains(self.methods@.last().0));
            } else {
                assert(self.spec_methods() =~= Map::<HttpMethod, O>::empty());
            }
        }
        self.methods.len() == 0
    }

    /// The operation recorded for method `meth`, if any.
    pub fn get(&self, meth: HttpMethod) -> (r: Option<&O>)
        requires
            self.wf(),
        ensures
            r is Some <==> self.spec_methods().dom().contains(meth),
            r is Some ==> *r->0 == self.spec_methods()[meth],
    {
        let mut i: usize = 0;
        while i < self.methods.len()
            invariant
                self.wf(),
                i <= self.methods@.len(),
                forall|j: int| 0 <= j < i ==> (#[trigger] self.methods@[j]).0 != meth,
            decreases self.methods.len() - i,
        {
            if self.methods[i].0 == meth {
                proof {
                    assert(keys_distinct(self.methods@));
                    lemma_seq_to_map_index(self.methods@, i as int);
                }
                return Some(&self.methods[i].1);
            }
            i = i + 1;
        }
        proof {
            lemma_seq_to_map_dom(self.methods@, meth);
        }
        None
    }

    /// Records `op` for method `meth`, in place of any earlier one.
    pub fn insert(&mut self, meth: HttpMethod, op: O)
        requires
            old(self).wf(),
        ensures
            final(self).wf(),
            final(self).spec_methods() == old(self).spec_methods().insert(meth, op),
    {
        insert_method(&mut self.methods, meth, op);
    }

    /// Records the operations of `other`, in order; later ones replace
    /// earlier ones for the same method.
    pub fn extend(&mut self, other: OperationMap<O>)
        requires
            old(self).wf(),
        ensures
            final(self).wf(),
            final(self).spec_methods() == put_all(old(self).spec_methods(), other.spec_entries()),
    {
        let ghost items = other.methods@;
        let ghost start = self.spec_methods();
        let mut rest = other.methods;
        assert(items.len() == rest.len());
        let mut taken: Vec<(HttpMethod, O)> = Vec::new();
        // Take the entries from the back, then put them in from the front.
        while rest.len() > 0
            invariant
                rest@ + taken@.reverse() == items,
                items.len() <= usize::MAX,
            decreases rest.len(),
        {
            let e = rest.pop().unwrap();
            let ghost before = taken@;
            taken.push(e);
            assert(taken@.reverse() =~= seq![e] + before.reverse());
            assert(rest@ + taken@.reverse() =~= items);
        }
        assert(taken@.reverse() =~= items);
        let mut i: usize = 0;
        assert(items.take(0) =~= Seq::<(HttpMethod, O)>::empty());
        while taken.len() > 0
            invariant
                self.wf(),
                items.len() <= usize::MAX,
                i + taken@.len() == items.len(),
                taken@.reverse() == items.skip(i as int),
                self.spec_methods() == put_all(start, items.take(i as int)),
            decreases taken.len(),
        {
            let ghost old_t = taken@;
            let e = taken.pop().unwrap();
            let ghost t = items.take(i + 1);
            assert(taken@ == old_t.drop_last());
            assert(old_t.reverse()[0] == old_t.last());
            assert(items.skip(i as int)[0] == e);
            assert(old_t.reverse().drop_first() =~= old_t.drop_last().reverse());
            assert(items.skip(i as int).drop_first() =~= items.skip(i + 1));
            assert(taken@.reverse() =~= items.skip(i + 1));
            assert(t.drop_last() =~= items.take(i as int));
            assert(t.last() == e);
            insert_method(&mut self.methods, e.0, e.1);
            i = i + 1;
        }
        assert(items.take(items.len() as int) =~= items);
    }
}

/* ---------------------------------------------------------------------- */
/* Paths                                                                  */
/* ---------------------------------------------------------------------- */

/// Texts strictly ordered, as the keys of a sorted map.
pub open spec fn keys_sorted<X>(s: Seq<(String, X)>) -> bool {
    forall|i: int, j: int| 0 <= i < j < s.len() ==> seq_less((#[trigger] s[i]).0@, (#[trigger] s[j]).0@)
}

/// Where `path` is or goes among sorted entries: the first entry that is not
/// before it, and whether it is that entry.
pub(crate) fn path_slot<X>(entries: &Vec<(String, X)>, path: &str) -> (r: (usize, bool))
    ensures
        r.0 <= entries@.len(),
        forall|j: int| 0 <= j < r.0 ==> seq_less((#[trigger] entries@[j]).0@, path@),
        r.1 <==> (r.0 < entries@.len() && entries@[r.0 as int].0@ == path@),
        !r.1 && r.0 < entries@.len() ==> seq_less(path@, entries@[r.0 as int].0@),
{
    let mut i: usize = 0;
    while i < entries.len() && text_less(entries[i].0.as_str(), path)
        invariant
            i <= entries@.len(),
            forall|j: int| 0 <= j < i ==> seq_less((#[trigger] entries@[j]).0@, path@),
        decreases entries.len() - i,
    {
        i = i + 1;
    }
    let found = i < entries.len() && crate::object::str_eq(entries[i].0.as_str(), path);
    proof {
        if !found && i < entries@.len() {
            lemma_seq_less_total(entries@[i as int].0@, path@);
        }
    }
    (i, found)
}

/// Sorted keys are distinct.
pub(crate) proof fn lemma_sorted_keys_distinct<X>(s: Seq<(String, X)>)
    requires
        keys_sorted(s),
    ensures
        forall|i: int, j: int| 0 <= i < j < s.len() ==> (#[trigger] s[i]).0@ != (#[trigger] s[j]).0@,
{
    assert forall|i: int, j: int| 0 <= i < j < s.len() implies (#[trigger] s[i]).0@ != (#[trigger] s[j]).0@ by {
        lemma_seq_less_irreflexive(s[i].0@);
    }
}

/// Inserting at the slot of a new path keeps the keys sorted, and the path
/// is none of the keys.
pub(crate) proof fn lemma_slot_insert<X>(s: Seq<(String, X)>, i: int, e: (String, X))
    requires
        keys_sorted(s),
        0 <= i <= s.len(),
        forall|j: int| 0 <= j < i ==> seq_less((#[trigger] s[j]).0@, e.0@),
        i < s.len() ==> seq_less(e.0@, s[i].0@),
    ensures
        keys_sorted(s.insert(i, e)),
        forall|j: int| 0 <= j < s.len() ==> (#[trigger] s[j]).0@ != e.0@,
{
    let t = s.insert(i, e);
    assert forall|a: int, b: int| 0 <= a < b < t.len() implies seq_less((#[trigger] t[a]).0@, (#[trigger] t[b]).0@) by {
        if b < i {
            assert(t[a] == s[a] && t[b] == s[b]);
        } else if b == i {
            assert(t[a] == s[a]);
        } else if a == i {
            assert(t[b] == s[b - 1]);
            if b - 1 > i {
                lemma_seq_less_transitive(e.0@, s[i].0@, s[b - 1].0@);
            }
        } else if a < i {
            assert(t[a] == s[a] && t[b] == s[b - 1]);
        } else {
            assert(t[a] == s[a - 1] && t[b] == s[b - 1]);
        }
    }
    assert forall|j: int| 0 <= j < s.len() implies (#[trigger] s[j]).0@ != e.0@ by {
        lemma_seq_less_irreflexive(e.0@);
        if j > i {
            assert(seq_less(s[i].0@, s[j].0@));
            lemma_seq_less_transitive(e.0@, s[i].0@, s[j].0@);
        }
    }
}

/// With distinct paths, there are as many paths in the map as entries.
proof fn lemma_entries_len<O>(s: Seq<(String, OperationMap<O>)>)
    requires
        forall|i: int, j: int| 0 <= i < j < s.len() ==> (#[trigger] s[i]).0@ != (#[trigger] s[j]).0@,
    ensures
        seq_to_map(path_entries(s)).dom().len() == s.len(),
        seq_to_map(path_entries(s)).dom().finite(),
    decreases s.len(),
{
    if s.len() > 0 {
        let t = s.drop_last();
        lemma_entries_len(t);
        assert(path_entries(s).drop_last() =~= path_entries(t));
        lemma_seq_to_map_dom(path_entries(t), s.last().0@);
        assert forall|j: int| 0 <= j < path_entries(t).len() implies (#[trigger] path_entries(t)[j]).0 != s.last().0@ by {
            assert(t[j] == s[j]);
        }
    }
}

/// Paths and their operations, ordered by path.
#[derive(Debug)]
pub struct PathMap<O> {
    entries: Vec<(String, OperationMap<O>)>,
}

/// The entries of a path map, by the text of each path.
pub open spec fn path_entries<O>(s: Seq<(String, OperationMap<O>)>) -> Seq<(Seq<char>, Map<HttpMethod, O>)> {
    Seq::new(s.len(), |i: int| (s[i].0@, s[i].1.spec_methods()))
}

impl<O> PathMap<O> {
    /// The operations of each path.
    pub closed spec fn spec_paths(self) -> Map<Seq<char>, Map<HttpMethod, O>> {
        seq_to_map(path_entries(self.entries@))
    }

    /// Paths are held ordered, each with well-formed operations.
    pub closed spec fn wf(self) -> bool {
        &&& keys_sorted(self.entries@)
        &&& forall|i: int| 0 <= i < self.entries@.len() ==> (#[trigger] self.entries@[i]).1.wf()
    }

    /// An empty map of paths.
    pub fn new() -> (r: Self)
        ensures
            r.wf(),
            r.spec_paths() == Map::<Seq<char>, Map<HttpMethod, O>>::empty(),
    {
        let r = PathMap { entries: Vec::new() };
        assert(path_entries(r.entries@) =~= Seq::<(Seq<char>, Map<HttpMethod, O>)>::empty());
        r
    }

    /// Takes the paths out, leaving none.
    pub fn take(&mut self) -> (r: PathMap<O>)
        requires
            old(self).wf(),
        ensures
            r.wf(),
            r.spec_paths() == old(self).spec_paths(),
            r.spec_entries() == old(self).spec_entries(),
            final(self).wf(),
            final(self).spec_paths() == Map::<Seq<char>, Map<HttpMethod, O>>::empty(),
    {
        let mut entries: Vec<(String, OperationMap<O>)> = Vec::new();
        std::mem::swap(&mut entries, &mut self.entries);
        assert(path_entries(self.entries@) =~= Seq::<(Seq<char>, Map<HttpMethod, O>)>::empty());
        PathMap { entries }
    }

    /// Sets the operations of a path, in place of any it had.
    pub fn insert(&mut self, path: String, ops: OperationMap<O>)
        requires
            old(self).wf(),
            ops.wf(),
        ensures
            final(self).wf(),
            final(self).spec_paths() == old(self).spec_paths().insert(path@, ops.spec_methods()),
    {
        let (i, found) = path_slot(&self.entries, path.as_str());
        let ghost entries = path_entries(self.entries@);
        proof {
            lemma_sorted_keys_distinct(self.entries@);
            assert(keys_distinct(entries)) by {
                assert forall|a: int, b: int| 0 <= a < b < entries.len() implies (#[trigger] entries[a]).0
                    != (#[trigger] entries[b]).0 by {
                    assert(self.entries@[a].0@ != self.entries@[b].0@);
                }
            }
        }
        let ghost ops_view = ops.spec_methods();
        if found {
            let _ = self.entries.remove(i);
            self.entries.insert(i, (path, ops));
            proof {
                assert(self.entries@ =~= old(self).entries@.update(i as int, self.entries@[i as int]));
                assert(path_entries(self.entries@) =~= entries.update(i as int, (entries[i as int].0, ops_view)));
                lemma_seq_to_map_update(entries, i as int, ops_view);
                assert forall|a: int, b: int| 0 <= a < b < self.entries@.len() implies seq_less(
                    (#[trigger] self.entries@[a]).0@,
                    (#[trigger] self.entries@[b]).0@,
                ) by {
                    assert(self.entries@[a].0@ == old(self).entries@[a].0@);
                    assert(self.entries@[b].0@ == old(self).entries@[b].0@);
                }
                assert forall|j: int| 0 <= j < self.entries@.len() implies (#[trigger] self.entries@[j]).1.wf() by {
                    if j != i {
                        assert(self.entries@[j] == old(self).entries@[j]);
                    }
                }
            }
        } else {
            let e = (path, ops);
            proof {
                lemma_slot_insert(old(self).entries@, i as int, e);
                assert forall|j: int| 0 <= j < entries.len() implies (#[trigger] entries[j]).0 != e.0@ by {
                    assert(entries[j].0 == old(self).entries@[j].0@);
                }
                lemma_seq_to_map_insert(entries, i as int, e.0@, ops_view);
            }
            self.entries.insert(i, e);
            proof {
                assert(path_entries(self.entries@) =~= entries.insert(i as int, (e.0@, ops_view)));
                assert forall|j: int| 0 <= j < self.entries@.len() implies (#[trigger] self.entries@[j]).1.wf() by {
                    if j < i {
                        assert(self.entries@[j] == old(self).entries@[j]);
                    } else if j > i {
                        assert(self.entries@[j] == old(self).entries@[j - 1]);
                    }
                }
            }
        }
    }
}

impl<O> PathMap<O> {
    /// The paths and their operations, in order.
    pub closed spec fn spec_entries(self) -> Seq<(Seq<char>, Map<HttpMethod, O>)> {
        path_entries(self.entries@)
    }

    /// The map of the entries.
    pub proof fn lemma_entries(self)
        ensures
            self.spec_paths() == seq_to_map(self.spec_entries()),
    {
    }

    /// The operations recorded for `path`, if any.
    pub fn get(&self, path: &str) -> (r: Option<&OperationMap<O>>)
        requires
            self.wf(),
        ensures
            r is Some <==> self.spec_paths().dom().contains(path@),
            r is Some ==> r->0.wf() && r->0.spec_methods() == self.spec_paths()[path@],
    {
        let (i, found) = path_slot(&self.entries, path);
        let ghost entries = path_entries(self.entries@);
        proof {
            lemma_sorted_keys_distinct(self.entries@);
            assert(keys_distinct(entries)) by {
                assert forall|a: int, b: int| 0 <= a < b < entries.len() implies (#[trigger] entries[a]).0
                    != (#[trigger] entries[b]).0 by {
                    assert(self.entries@[a].0@ != self.entries@[b].0@);
                }
            }
        }
        if found {
            proof {
                lemma_seq_to_map_index(entries, i as int);
            }
            Some(&self.entries[i].1)
        } else {
            proof {
                assert forall|j: int| 0 <= j < entries.len() implies (#[trigger] entries[j]).0 != path@ by {
                    assert(entries[j].0 == self.entries@[j].0@);
                    lemma_seq_less_irreflexive(path@);
                    if j > i {
                        assert(seq_less(self.entries@[i as int].0@, self.entries@[j].0@));
                        lemma_seq_less_transitive(path@, self.entries@[i as int].0@, self.entries@[j].0@);
                    }
                }
                lemma_seq_to_map_dom(entries, path@);
            }
            None
        }
    }

    /// The number of paths.
    pub fn len(&self) -> (r: usize)
        requires
            self.wf(),
        ensures
            r == self.spec_paths().dom().len(),
    {
        proof {
            lemma_sorted_keys_distinct(self.entries@);
            lemma_entries_len(self.entries@);
        }
        self.entries.len()
    }

    /// Adds the operations of a path to those it has (a new path has none);
    /// nothing changes when there is no operation.
    pub fn merge(&mut self, path: &str, ops: OperationMap<O>)
        requires
            old(self).wf(),
            ops.wf(),
        ensures
            final(self).wf(),
            ops.spec_methods() == Map::<HttpMethod, O>::empty() ==> final(self).spec_paths() == old(self).spec_paths(),
            ops.spec_methods() != Map::<HttpMethod, O>::empty() ==> final(self).spec_paths() == old(self).spec_paths().insert(
                path@,
                put_all(
                    if old(self).spec_paths().dom().contains(path@) {
                        old(self).spec_paths()[path@]
                    } else {
                        Map::empty()
                    },
                    ops.spec_entries(),
                ),
            ),
    {
        if ops.is_empty() {
            return;
        }
        let (i, found) = path_slot(&self.entries, path);
        let ghost entries = path_entries(self.entries@);
        proof {
            lemma_sorted_keys_distinct(self.entries@);
            assert(keys_distinct(entries)) by {
                assert forall|a: int, b: int| 0 <= a < b < entries.len() implies (#[trigger] entries[a]).0
                    != (#[trigger] entries[b]).0 by {
                    assert(self.entries@[a].0@ != self.entries@[b].0@);
                }
            }
        }
        if found {
            proof {
                lemma_seq_to_map_index(entries, i as int);
            }
            let (key, mut current) = self.entries.remove(i);
            let ghost before = current.spec_methods();
            current.extend(ops);
            let ghost after = current.spec_methods();
            self.entries.insert(i, (key, current));
            proof {
                assert(before == old(self).spec_paths()[path@]);
                assert(self.entries@ =~= old(self).entries@.update(i as int, self.entries@[i as int]));
                assert(path_entries(self.entries@) =~= entries.update(i as int, (entries[i as int].0, after)));
                lemma_seq_to_map_update(entries, i as int, after);
                assert forall|a: int, b: int| 0 <= a < b < self.entries@.len() implies seq_less(
                    (#[trigger] self.entries@[a]).0@,
                    (#[trigger] self.entries@[b]).0@,
                ) by {
                    assert(self.entries@[a].0@ == old(self).entries@[a].0@);
                    assert(self.entries@[b].0@ == old(self).entries@[b].0@);
                }
                assert forall|j: int| 0 <= j < self.entries@.len() implies (#[trigger] self.entries@[j]).1.wf() by {
                    if j != i {
                        assert(self.entries@[j] == old(self).entries@[j]);
                    }
                }
            }
        } else {
            proof {
                assert forall|j: int| 0 <= j < entries.len() implies (#[trigger] entries[j]).0 != path@ by {
                    assert(entries[j].0 == self.entries@[j].0@);
                    lemma_seq_less_irreflexive(path@);
                    if j > i {
                        assert(seq_less(self.entries@[i as int].0@, self.entries@[j].0@));
                        lemma_seq_less_transitive(path@, self.entries@[i as int].0@, self.entries@[j].0@);
                    }
                }
                lemma_seq_to_map_dom(entries, path@);
            }
            let mut current = OperationMap::new();
            current.extend(ops);
            let mut key = String::new();
            crate::text::push_str(&mut key, path);
            self.insert(key, current);
        }
    }
}

/* ---------------------------------------------------------------------- */
/* Definitions                                                            */
/* ---------------------------------------------------------------------- */

/// Schema definitions by name, ordered by name.
#[derive(Debug)]
pub struct DefinitionMap {
    entries: Vec<(String, Schema)>,
}

/// The entries of a definition map, by the text of each name.
pub open spec fn definition_entries(s: Seq<(String, Schema)>) -> Seq<(Seq<char>, Schema)> {
    Seq::new(s.len(), |i: int| (s[i].0@, s[i].1))
}

impl DefinitionMap {
    /// The definition of each name.
    pub closed spec fn spec_definitions(self) -> Map<Seq<char>, Schema> {
        seq_to_map(definition_entries(self.entries@))
    }

    /// The names and their definitions, in the order of the names.
    pub closed spec fn spec_entries(self) -> Seq<(Seq<char>, Schema)> {
        definition_entries(self.entries@)
    }

    /// Names are held ordered.
    pub closed spec fn wf(self) -> bool {
        keys_sorted(self.entries@)
    }

    /// No definitions.
    pub fn new() -> (r: Self)
        ensures
            r.wf(),
            r.spec_definitions() == Map::<Seq<char>, Schema>::empty(),
    {
        let r = DefinitionMap { entries: Vec::new() };
        assert(definition_entries(r.entries@) =~= Seq::<(Seq<char>, Schema)>::empty());
        r
    }

    /// The number of definitions.
    pub fn len(&self) -> (r: usize)
        requires
            self.wf(),
        ensures
            r == self.spec_definitions().len(),
    {
        proof {
            lemma_sorted_keys_distinct(self.entries@);
            lemma_definitions_len(self.entries@);
        }
        self.entries.len()
    }

    /// The definition of a name, if any.
    pub fn get(&self, name: &str) -> (r: Option<&Schema>)
        requires
            self.wf(),
        ensures
            match r {
                Some(d) => self.spec_definitions().dom().contains(name@) && self.spec_definitions()[name@] == *d,
                None => !self.spec_definitions().dom().contains(name@),
            },
    {
        let (i, found) = path_slot(&self.entries, name);
        let ghost es = definition_entries(self.entries@);
        proof {
            lemma_sorted_keys_distinct(self.entries@);
            assert(keys_distinct(es)) by {
                assert forall|a: int, b: int| 0 <= a < b < es.len() implies (#[trigger] es[a]).0 != (#[trigger] es[b]).0 by {
                    assert(self.entries@[a].0@ != self.entries@[b].0@);
                }
            }
            lemma_seq_to_map_dom(es, name@);
        }
        if found {
            proof {
                lemma_seq_to_map_index(es, i as int);
            }
            Some(&self.entries[i].1)
        } else {
            proof {
                assert forall|j: int| 0 <= j < es.len() implies (#[trigger] es[j]).0 != name@ by {
                    if j >= i {
                        lemma_seq_less_irreflexive(name@);
                        if j > i {
                            lemma_seq_less_transitive(name@, self.entries@[i as int].0@, self.entries@[j].0@);
                        }
                    } else {
                        lemma_seq_less_irreflexive(name@);
                    }
                }
            }
            None
        }
    }

    /// Sets the definition of a name, in place of any it had.
    pub fn insert(&mut self, name: String, def: Schema)
        requires
            old(self).wf(),
        ensures
            final(self).wf(),
            final(self).spec_definitions() == old(self).spec_definitions().insert(name@, def),
    {
        let (i, found) = path_slot(&self.entries, name.as_str());
        let ghost entries = definition_entries(self.entries@);
        proof {
            lemma_sorted_keys_distinct(self.entries@);
            assert(keys_distinct(entries)) by {
                assert forall|a: int, b: int| 0 <= a < b < entries.len() implies (#[trigger] entries[a]).0
                    != (#[trigger] entries[b]).0 by {
                    assert(self.entries@[a].0@ != self.entries@[b].0@);
                }
            }
        }
        if found {
            let _ = self.entries.remove(i);
            self.entries.insert(i, (name, def));
            proof {
                assert(self.entries@ =~= old(self).entries@.update(i as int, self.entries@[i as int]));
                assert(definition_entries(self.entries@) =~= entries.update(i as int, (entries[i as int].0, def)));
                lemma_seq_to_map_update(entries, i as int, def);
                assert forall|a: int, b: int| 0 <= a < b < self.entries@.len() implies seq_less(
                    (#[trigger] self.entries@[a]).0@,
                    (#[trigger] self.entries@[b]).0@,
                ) by {
                    assert(self.entries@[a].0@ == old(self).entries@[a].0@);
                    assert(self.entries@[b].0@ == old(self).entries@[b].0@);
                }
            }
        } else {
            let e = (name, def);
            proof {
                lemma_slot_insert(old(self).entries@, i as int, e);
                assert forall|j: int| 0 <= j < entries.len() implies (#[trigger] entries[j]).0 != e.0@ by {
                    assert(entries[j].0 == old(self).entries@[j].0@);
                }
                lemma_seq_to_map_insert(entries, i as int, e.0@, def);
            }
            self.entries.insert(i, e);
            proof {
                assert(definition_entries(self.entries@) =~= entries.insert(i as int, (e.0@, def)));
            }
        }
    }

    /// Adds the definitions of `other`, each in place of any definition of
    /// its name.
    pub fn extend(&mut self, other: DefinitionMap)
        requires
            old(self).wf(),
        ensures
            final(self).wf(),
            final(self).spec_definitions() == old(self).spec_definitions().union_prefer_right(other.spec_definitions()),
    {
        let ghost es = other.spec_entries();
        let ghost start = self.spec_definitions();
        let ghost src = other.entries@;
        let mut rev = reversed(other.entries);
        let n = rev.len();
        assert(src.len() == n);
        assert(rev@.reverse() =~= src);
        assert(src.skip(0) =~= src);
        let mut i: usize = 0;
        assert(es.take(0) =~= Seq::<(Seq<char>, Schema)>::empty());
        while rev.len() > 0
            invariant
                self.wf(),
                es == definition_entries(src),
                src.len() <= usize::MAX,
                i + rev@.len() == src.len(),
                rev@.reverse() == src.skip(i as int),
                self.spec_definitions() == put_all(start, es.take(i as int)),
            decreases rev.len(),
        {
            let ghost old_r = rev@;
            let (k, v) = rev.pop().unwrap();
            assert(rev@ == old_r.drop_last());
            assert(old_r.reverse()[0] == old_r.last());
            assert(src.skip(i as int)[0] == src[i as int]);
            assert(old_r.reverse().drop_first() =~= old_r.drop_last().reverse());
            assert(src.skip(i as int).drop_first() =~= src.skip(i + 1));
            proof {
                let t = es.take(i + 1);
                assert(t.drop_last() =~= es.take(i as int));
                assert(t.last() == (k@, v));
            }
            self.insert(k, v);
            i = i + 1;
        }
        assert(es.take(src.len() as int) =~= es);
        proof {
            lemma_put_all_union(start, es);
        }
    }

    /// Takes the definitions out, leaving none.
    pub fn take(&mut self) -> (r: DefinitionMap)
        requires
            old(self).wf(),
        ensures
            r.wf(),
            r.spec_definitions() == old(self).spec_definitions(),
            final(self).wf(),
            final(self).spec_definitions() == Map::<Seq<char>, Schema>::empty(),
    {
        let mut entries: Vec<(String, Schema)> = Vec::new();
        std::mem::swap(&mut entries, &mut self.entries);
        assert(definition_entries(self.entries@) =~= Seq::<(Seq<char>, Schema)>::empty());
        DefinitionMap { entries }
    }
}

/// With distinct names, there are as many names as entries.
proof fn lemma_definitions_len(s: Seq<(String, Schema)>)
    requires
        forall|i: int, j: int| 0 <= i < j < s.len() ==> (#[trigger] s[i]).0@ != (#[trigger] s[j]).0@,
    ensures
        seq_to_map(definition_entries(s)).dom().len() == s.len(),
        seq_to_map(definition_entries(s)).dom().finite(),
    decreases s.len(),
{
    if s.len() > 0 {
        let t = s.drop_last();
        lemma_definitions_len(t);
        assert(definition_entries(s).drop_last() =~= definition_entries(t));
        lemma_seq_to_map_dom(definition_entries(t), s.last().0@);
        assert forall|j: int| 0 <= j < definition_entries(t).len() implies (#[trigger] definition_entries(t)[j]).0 != s.last().0@ by {
            assert(t[j] == s[j]);
        }
    }
}

/* ---------------------------------------------------------------------- */
/* Routes, resources and scopes                                           */
/* ---------------------------------------------------------------------- */

/// A route: the method it answers to, if any, and the operation and the
/// schema definitions of its handler, if it has one.
#[derive(Debug)]
pub struct Route<O> {
    method: Option<HttpMethod>,
    operation: Option<O>,
    definitions: DefinitionMap,
}

impl<O> Route<O> {
    /// The method of the route.
    pub closed spec fn spec_method(self) -> Option<HttpMethod> {
        self.method
    }

    /// The operation of the route's handler.
    pub closed spec fn spec_operation(self) -> Option<O> {
        self.operation
    }

    /// The schema definitions of the route's handler.
    pub closed spec fn spec_definitions(self) -> Map<Seq<char>, Schema> {
        self.definitions.spec_definitions()
    }

    /// The route is well formed.
    pub closed spec fn wf(self) -> bool {
        self.definitions.wf()
    }

    /// A route that answers to any method and has no handler yet.
    pub fn new() -> (r: Route<O>)
        ensures
            r.wf(),
            r.spec_method() is None,
            r.spec_operation() is None,
            r.spec_definitions() == Map::<Seq<char>, Schema>::empty(),
    {
        Route { method: None, operation: None, definitions: DefinitionMap::new() }
    }

    /// The route answers to `method` only.
    pub fn method(self, method: HttpMethod) -> (r: Self)
        ensures
            r.wf() == self.wf(),
            r.spec_method() == Some(method),
            r.spec_operation() == self.spec_operation(),
            r.spec_definitions() == self.spec_definitions(),
    {
        Route { method: Some(method), operation: self.operation, definitions: self.definitions }
    }

    /// The route is handled by a handler with the given operation and
    /// schema definitions (in place of those of any earlier handler).
    pub fn to(self, operation: O, definitions: DefinitionMap) -> (r: Self)
        requires
            definitions.wf(),
        ensures
            r.wf(),
            r.spec_method() == self.spec_method(),
            r.spec_operation() == Some(operation),
            r.spec_definitions() == definitions.spec_definitions(),
    {
        Route { method: self.method, operation: Some(operation), definitions }
    }
}

/// A route answering to `m`.
pub fn method<O>(m: HttpMethod) -> (r: Route<O>)
    ensures
        r.wf(),
        r.spec_definitions() == Map::<Seq<char>, Schema>::empty(),
        r.spec_method() == Some(m),
        r.spec_operation() is None,
{
    Route::new().method(m)
}

/// A route answering to `GET`.
pub fn get<O>() -> (r: Route<O>)
    ensures
        r.wf(),
        r.spec_definitions() == Map::<Seq<char>, Schema>::empty(),
        r.spec_method() == Some(HttpMethod::Get),
        r.spec_operation() is None,
{
    method(HttpMethod::Get)
}

/// A route answering to `PUT`.
pub fn put<O>() -> (r: Route<O>)
    ensures
        r.wf(),
        r.spec_definitions() == Map::<Seq<char>, Schema>::empty(),
        r.spec_method() == Some(HttpMethod::Put),
        r.spec_operation() is None,
{
    method(HttpMethod::Put)
}

/// A route answering to `POST`.
pub fn post<O>() -> (r: Route<O>)
    ensures
        r.wf(),
        r.spec_definitions() == Map::<Seq<char>, Schema>::empty(),
        r.spec_method() == Some(HttpMethod::Post),
        r.spec_operation() is None,
{
    method(HttpMethod::Post)
}

/// A route answering to `PATCH`.
pub fn patch<O>() -> (r: Route<O>)
    ensures
        r.wf(),
        r.spec_definitions() == Map::<Seq<char>, Schema>::empty(),
        r.spec_method() == Some(HttpMethod::Patch),
        r.spec_operation() is None,
{
    method(HttpMethod::Patch)
}

/// A route answering to `DELETE`.
pub fn delete<O>() -> (r: Route<O>)
    ensures
        r.wf(),
        r.spec_definitions() == Map::<Seq<char>, Schema>::empty(),
        r.spec_method() == Some(HttpMethod::Delete),
        r.spec_operation() is None,
{
    method(HttpMethod::Delete)
}

/// A route answering to `OPTIONS`.
pub fn options<O>() -> (r: Route<O>)
    ensures
        r.wf(),
        r.spec_definitions() == Map::<Seq<char>, Schema>::empty(),
        r.spec_method() == Some(HttpMethod::Options),
        r.spec_operation() is None,
{
    method(HttpMethod::Options)
}

/// A route answering to `HEAD`.
pub fn head<O>() -> (r: Route<O>)
    ensures
        r.wf(),
        r.spec_definitions() == Map::<Seq<char>, Schema>::empty(),
        r.spec_method() == Some(HttpMethod::Head),
        r.spec_operation() is None,
{
    method(HttpMethod::Head)
}

/// The methods that a route without a method answers to.
fn methods() -> (r: Vec<HttpMethod>)
    ensures
        r@ == all_methods(),
{
    let mut v: Vec<HttpMethod> = Vec::new();
    v.push(HttpMethod::Get);
    v.push(HttpMethod::Put);
    v.push(HttpMethod::Post);
    v.push(HttpMethod::Delete);
    v.push(HttpMethod::Options);
    v.push(HttpMethod::Head);
    v.push(HttpMethod::Patch);
    assert(v@ =~= all_methods());
    v
}

/// A resource: its path and the operations of its routes by method.
#[derive(Debug)]
pub struct Resource<O> {
    path: String,
    operations: OperationMap<O>,
    definitions: DefinitionMap,
}

impl<O: Clone> Resource<O> {
    /// The path of the resource.
    pub closed spec fn spec_path(self) -> Seq<char> {
        self.path@
    }

    /// The operations of the resource.
    pub closed spec fn spec_operations(self) -> Map<HttpMethod, O> {
        self.operations.spec_methods()
    }

    /// The operations of the resource, in order.
    pub closed spec fn spec_operation_entries(self) -> Seq<(HttpMethod, O)> {
        self.operations.spec_entries()
    }

    /// The schema definitions of the resource's handlers.
    pub closed spec fn spec_definitions(self) -> Map<Seq<char>, Schema> {
        self.definitions.spec_definitions()
    }

    /// The resource is well formed.
    pub closed spec fn wf(self) -> bool {
        self.operations.wf() && self.definitions.wf()
    }

    /// A resource at the given path, with no operations.
    pub fn new(path: &str) -> (r: Resource<O>)
        ensures
            r.wf(),
            r.spec_path() == path@,
            r.spec_operations() == Map::<HttpMethod, O>::empty(),
            r.spec_definitions() == Map::<Seq<char>, Schema>::empty(),
    {
        let mut p = String::new();
        crate::text::push_str(&mut p, path);
        Resource { path: p, operations: OperationMap::new(), definitions: DefinitionMap::new() }
    }

    /// Adds a route: its operation is recorded for its method, or for every
    /// method when it has none; a route without a handler records nothing.
    /// The route's definitions join those of the resource.
    pub fn route(self, route: Route<O>) -> (r: Self)
        requires
            self.wf(),
            route.wf(),
        ensures
            r.wf(),
            r.spec_path() == self.spec_path(),
            r.spec_definitions() == self.spec_definitions().union_prefer_right(route.spec_definitions()),
            match route.spec_operation() {
                None => r.spec_operations() == self.spec_operations(),
                Some(op) => match route.spec_method() {
                    Some(m) => r.spec_operations() == self.spec_operations().insert(m, op),
                    None => {
                        &&& forall|m: HttpMethod| #[trigger] r.spec_operations().dom().contains(m)
                        &&& forall|m: HttpMethod| cloned::<O>(op, #[trigger] r.spec_operations()[m])
                    },
                },
            },
    {
        let mut ops = self.operations;
        let mut defs = self.definitions;
        let Route { method: route_method, operation: route_operation, definitions: route_definitions } = route;
        defs.extend(route_definitions);
        if let Some(op) = route_operation {
            match route_method {
                Some(m) => ops.insert(m, op),
                None => {
                    let all = methods();
                    let mut i: usize = 0;
                    while i < all.len()
                        invariant
                            i <= all@.len(),
                            all@ == all_methods(),
                            ops.wf(),
                            forall|k: int| 0 <= k < i ==> #[trigger] ops.spec_methods().dom().contains(all@[k]),
                            forall|k: int| 0 <= k < i ==> cloned::<O>(op, #[trigger] ops.spec_methods()[all@[k]]),
                        decreases all.len() - i,
                    {
                        let c = op.clone();
                        ops.insert(all[i], c);
                        i = i + 1;
                    }
                    proof {
                        assert forall|m: HttpMethod| #[trigger] ops.spec_methods().dom().contains(m) by {
                            match m {
                                HttpMethod::Get => assert(all@[0] == m),
                                HttpMethod::Put => assert(all@[1] == m),
                                HttpMethod::Post => assert(all@[2] == m),
                                HttpMethod::Delete => assert(all@[3] == m),
                                HttpMethod::Options => assert(all@[4] == m),
                                HttpMethod::Head => assert(all@[5] == m),
                                HttpMethod::Patch => assert(all@[6] == m),
                            }
                        }
                        assert forall|m: HttpMethod| cloned::<O>(op, #[trigger] ops.spec_methods()[m]) by {
                            match m {
                                HttpMethod::Get => assert(all@[0] == m),
                                HttpMethod::Put => assert(all@[1] == m),
                                HttpMethod::Post => assert(all@[2] == m),
                                HttpMethod::Delete => assert(all@[3] == m),
                                HttpMethod::Options => assert(all@[4] == m),
                                HttpMethod::Head => assert(all@[5] == m),
                                HttpMethod::Patch => assert(all@[6] == m),
                            }
                        }
                    }
                },
            }
        }
        Resource { path: self.path, operations: ops, definitions: defs }
    }

    /// Handles every method of the resource with a handler of the given
    /// operation, in place of what each had; the handler's definitions join
    /// those of the resource.
    pub fn to(self, operation: O, definitions: DefinitionMap) -> (r: Self)
        requires
            self.wf(),
            definitions.wf(),
        ensures
            r.wf(),
            r.spec_path() == self.spec_path(),
            forall|m: HttpMethod| #[trigger] r.spec_operations().dom().contains(m),
            forall|m: HttpMethod| cloned::<O>(operation, #[trigger] r.spec_operations()[m]),
            r.spec_definitions() == self.spec_definitions().union_prefer_right(definitions.spec_definitions()),
    {
        self.route(Route::new().to(operation, definitions))
    }

    /// Takes the definitions out of the resource, leaving none.
    pub fn definitions(&mut self) -> (r: DefinitionMap)
        requires
            old(self).wf(),
        ensures
            r.wf(),
            r.spec_definitions() == old(self).spec_definitions(),
            final(self).wf(),
            final(self).spec_path() == old(self).spec_path(),
            final(self).spec_operations() == old(self).spec_operations(),
            final(self).spec_operation_entries() == old(self).spec_operation_entries(),
            final(self).spec_definitions() == Map::<Seq<char>, Schema>::empty(),
    {
        self.definitions.take()
    }

    /// Where the resource is mounted.
    pub fn path(&self) -> (r: &str)
        ensures
            r@ == self.spec_path(),
    {
        self.path.as_str()
    }

    /// Takes the operations out, leaving none.
    pub fn operations(&mut self) -> (r: OperationMap<O>)
        requires
            old(self).wf(),
        ensures
            r.wf(),
            r.spec_methods() == old(self).spec_operations(),
            r.spec_entries() == old(self).spec_operation_entries(),
            final(self).wf(),
            final(self).spec_path() == old(self).spec_path(),
            final(self).spec_operations() == Map::<HttpMethod, O>::empty(),
    {
        let mut ops = OperationMap::new();
        std::mem::swap(&mut ops, &mut self.operations);
        ops
    }

    /// Adds the operations of the resource to those of its path in `map`;
    /// nothing changes when it has none.
    pub fn update_operations(&mut self, map: &mut PathMap<O>)
        requires
            old(self).wf(),
            old(map).wf(),
        ensures
            final(map).wf(),
            final(self).wf(),
            old(self).spec_operations() == Map::<HttpMethod, O>::empty() ==> final(map).spec_paths() == old(map).spec_paths(),
            old(self).spec_operations() != Map::<HttpMethod, O>::empty() ==> final(map).spec_paths() == old(map).spec_paths().insert(
                old(self).spec_path(),
                put_all(
                    if old(map).spec_paths().dom().contains(old(self).spec_path()) {
                        old(map).spec_paths()[old(self).spec_path()]
                    } else {
                        Map::empty()
                    },
                    old(self).spec_operation_entries(),
                ),
            ),
    {
        let ops = self.operations();
        map.merge(self.path.as_str(), ops);
    }
}

/// The entries of `es` with `prefix` before each path.
pub open spec fn prefixed<O>(prefix: Seq<char>, es: Seq<(Seq<char>, Map<HttpMethod, O>)>) -> Seq<(Seq<char>, Map<HttpMethod, O>)> {
    Seq::new(es.len(), |i: int| (prefix + es[i].0, es[i].1))
}

/// The items in reverse order.
pub(crate) fn reversed<T>(v: Vec<T>) -> (r: Vec<T>)
    ensures
        r@ == v@.reverse(),
{
    let ghost items = v@;
    let mut rest = v;
    let mut out: Vec<T> = Vec::new();
    while rest.len() > 0
        invariant
            rest@ + out@.reverse() == items,
        decreases rest.len(),
    {
        let e = rest.pop().unwrap();
        let ghost before = out@;
        out.push(e);
        assert(out@.reverse() =~= seq![e] + before.reverse());
        assert(rest@ + out@.reverse() =~= items);
    }
    assert(out@.reverse() =~= items);
    assert(out@ =~= items.reverse());
    out
}

/// A scope: its path prefix and the paths of what is mounted in it.
#[derive(Debug)]
pub struct Scope<O> {
    path: String,
    path_map: PathMap<O>,
    definitions: DefinitionMap,
}

impl<O: Clone> Scope<O> {
    /// The path prefix of the scope.
    pub closed spec fn spec_path(self) -> Seq<char> {
        self.path@
    }

    /// The paths recorded in the scope, with the prefix.
    pub closed spec fn spec_paths(self) -> Map<Seq<char>, Map<HttpMethod, O>> {
        self.path_map.spec_paths()
    }

    /// The paths recorded in the scope, in order.
    pub closed spec fn spec_entries(self) -> Seq<(Seq<char>, Map<HttpMethod, O>)> {
        self.path_map.spec_entries()
    }

    /// The schema definitions of what is mounted in the scope.
    pub closed spec fn spec_definitions(self) -> Map<Seq<char>, Schema> {
        self.definitions.spec_definitions()
    }

    /// The scope is well formed.
    pub closed spec fn wf(self) -> bool {
        self.path_map.wf() && self.definitions.wf()
    }

    /// A scope at the given path, with nothing mounted.
    pub fn new(path: &str) -> (r: Scope<O>)
        ensures
            r.wf(),
            r.spec_path() == path@,
            r.spec_paths() == Map::<Seq<char>, Map<HttpMethod, O>>::empty(),
            r.spec_definitions() == Map::<Seq<char>, Schema>::empty(),
    {
        let mut p = String::new();
        crate::text::push_str(&mut p, path);
        Scope { path: p, path_map: PathMap::new(), definitions: DefinitionMap::new() }
    }

    /// Records the given paths under the scope's prefix, each in place of
    /// any operations the prefixed path had.
    fn update_from_paths(&mut self, paths: PathMap<O>)
        requires
            old(self).wf(),
            paths.wf(),
        ensures
            final(self).wf(),
            final(self).spec_path() == old(self).spec_path(),
            final(self).spec_paths() == put_all(old(self).spec_paths(), prefixed(old(self).spec_path(), paths.spec_entries())),
            final(self).spec_definitions() == old(self).spec_definitions(),
    {
        let ghost defs = self.spec_definitions();
        let ghost es = paths.spec_entries();
        let ghost pre = self.path@;
        let ghost start = self.path_map.spec_paths();
        let ghost src = paths.entries@;
        let mut rev = reversed(paths.entries);
        let n = rev.len();
        assert(src.len() == n);
        assert(rev@.reverse() =~= src);
        assert(src.skip(0) =~= src);
        let mut i: usize = 0;
        assert(prefixed(pre, es).take(0) =~= Seq::<(Seq<char>, Map<HttpMethod, O>)>::empty());
        while rev.len() > 0
            invariant
                self.wf(),
                self.path@ == pre,
                self.spec_definitions() == defs,
                es == path_entries(src),
                forall|k: int| 0 <= k < src.len() ==> (#[trigger] src[k]).1.wf(),
                src.len() <= usize::MAX,
                i + rev@.len() == src.len(),
                rev@.reverse() == src.skip(i as int),
                self.path_map.spec_paths() == put_all(start, prefixed(pre, es).take(i as int)),
            decreases rev.len(),
        {
            let ghost old_r = rev@;
            let (p, m) = rev.pop().unwrap();
            assert(rev@ == old_r.drop_last());
            assert(old_r.reverse()[0] == old_r.last());
            assert(src.skip(i as int)[0] == src[i as int]);
            assert(old_r.reverse().drop_first() =~= old_r.drop_last().reverse());
            assert(src.skip(i as int).drop_first() =~= src.skip(i + 1));
            let mut key = String::new();
            crate::text::push_str(&mut key, self.path.as_str());
            crate::text::push_str(&mut key, p.as_str());
            self.path_map.insert(key, m);
            proof {
                let t = prefixed(pre, es).take(i + 1);
                assert(t.drop_last() =~= prefixed(pre, es).take(i as int));
                assert(t.last() == (pre + src[i as int].0@, src[i as int].1.spec_methods()));
            }
            i = i + 1;
        }
        assert(prefixed(pre, es).take(src.len() as int) =~= prefixed(pre, es));
    }

    /// Mounts a resource in the scope: its operations are recorded under
    /// the scope's prefix followed by its path, and its definitions join
    /// those of the scope.
    pub fn service_resource(self, resource: Resource<O>) -> (r: Self)
        requires
            self.wf(),
            resource.wf(),
        ensures
            r.wf(),
            r.spec_path() == self.spec_path(),
            r.spec_definitions() == self.spec_definitions().union_prefer_right(resource.spec_definitions()),
            resource.spec_operations() == Map::<HttpMethod, O>::empty() ==> r.spec_paths() == self.spec_paths(),
            resource.spec_operations() != Map::<HttpMethod, O>::empty() ==> r.spec_paths() == self.spec_paths().insert(
                self.spec_path() + resource.spec_path(),
                resource.spec_operations(),
            ),
    {
        proof {
            lemma_put_all_empty(resource.spec_operation_entries());
        }
        let mut this = self;
        let mut resource = resource;
        let defs = resource.definitions();
        this.definitions.extend(defs);
        let ops = resource.operations();
        if !ops.is_empty() {
            let mut fresh = OperationMap::new();
            fresh.extend(ops);
            let mut key = String::new();
            crate::text::push_str(&mut key, this.path.as_str());
            crate::text::push_str(&mut key, resource.path.as_str());
            this.path_map.insert(key, fresh);
        }
        this
    }

    /// Mounts a route at `path` in the scope, as a resource at that path
    /// with that one route.
    pub fn route(self, path: &str, route: Route<O>) -> (r: Self)
        requires
            self.wf(),
            route.wf(),
        ensures
            r.wf(),
            r.spec_path() == self.spec_path(),
            r.spec_definitions() == self.spec_definitions().union_prefer_right(route.spec_definitions()),
            match route.spec_operation() {
                None => r.spec_paths() == self.spec_paths(),
                Some(op) => match route.spec_method() {
                    Some(m) => r.spec_paths() == self.spec_paths().insert(
                        self.spec_path() + path@,
                        Map::<HttpMethod, O>::empty().insert(m, op),
                    ),
                    None => {
                        &&& r.spec_paths().dom() == self.spec_paths().dom().insert(self.spec_path() + path@)
                        &&& forall|p: Seq<char>| p != self.spec_path() + path@ && #[trigger] self.spec_paths().dom().contains(p)
                            ==> r.spec_paths()[p] == self.spec_paths()[p]
                        &&& forall|m: HttpMethod| #[trigger] r.spec_paths()[self.spec_path() + path@].dom().contains(m)
                        &&& forall|m: HttpMethod| cloned::<O>(op, #[trigger] r.spec_paths()[self.spec_path() + path@][m])
                    },
                },
            },
    {
        let res = resource(path).route(route);
        proof {
            assert(res.spec_definitions() =~= route.spec_definitions());
            if res.spec_operations() =~= Map::<HttpMethod, O>::empty() {
                if route.spec_operation() is Some {
                    let m = match route.spec_method() {
                        Some(m) => m,
                        None => HttpMethod::Get,
                    };
                    assert(res.spec_operations().dom().contains(m));
                }
            }
        }
        self.service_resource(res)
    }

    /// Mounts a scope in the scope: its paths are recorded under this
    /// scope's prefix, and its definitions join those of this scope.
    pub fn service_scope(self, scope: Scope<O>) -> (r: Self)
        requires
            self.wf(),
            scope.wf(),
        ensures
            r.wf(),
            r.spec_path() == self.spec_path(),
            r.spec_paths() == put_all(self.spec_paths(), prefixed(self.spec_path(), scope.spec_entries())),
            r.spec_definitions() == self.spec_definitions().union_prefer_right(scope.spec_definitions()),
    {
        let mut this = self;
        let mut scope = scope;
        let defs = scope.definitions.take();
        this.definitions.extend(defs);
        let pm = scope.path_map.take();
        this.update_from_paths(pm);
        this
    }

    /// Takes the definitions out of the scope, leaving none.
    pub fn definitions(&mut self) -> (r: DefinitionMap)
        requires
            old(self).wf(),
        ensures
            r.wf(),
            r.spec_definitions() == old(self).spec_definitions(),
            final(self).wf(),
            final(self).spec_path() == old(self).spec_path(),
            final(self).spec_paths() == old(self).spec_paths(),
            final(self).spec_entries() == old(self).spec_entries(),
            final(self).spec_definitions() == Map::<Seq<char>, Schema>::empty(),
    {
        self.definitions.take()
    }

    /// Adds the scope's paths, with their operations, to `map`: the
    /// operations of each path join those the map has for it (the scope's
    /// replace the map's for the same method); the scope is left without
    /// paths.
    pub fn update_operations(&mut self, map: &mut PathMap<O>)
        requires
            old(self).wf(),
            old(map).wf(),
        ensures
            final(map).wf(),
            final(map).spec_paths() == merge_paths(old(map).spec_paths(), old(self).spec_entries()),
            final(self).wf(),
            final(self).spec_path() == old(self).spec_path(),
            final(self).spec_paths() == Map::<Seq<char>, Map<HttpMethod, O>>::empty(),
            final(self).spec_definitions() == old(self).spec_definitions(),
    {
        let pm = self.path_map.take();
        let ghost es = pm.spec_entries();
        let ghost start = map.spec_paths();
        let ghost src = pm.entries@;
        let mut rev = reversed(pm.entries);
        let n = rev.len();
        assert(src.len() == n);
        assert(rev@.reverse() =~= src);
        assert(src.skip(0) =~= src);
        let mut i: usize = 0;
        assert(es.take(0) =~= Seq::<(Seq<char>, Map<HttpMethod, O>)>::empty());
        while rev.len() > 0
            invariant
                map.wf(),
                es == path_entries(src),
                forall|k: int| 0 <= k < src.len() ==> (#[trigger] src[k]).1.wf(),
                src.len() <= usize::MAX,
                i + rev@.len() == src.len(),
                rev@.reverse() == src.skip(i as int),
                map.spec_paths() == merge_paths(start, es.take(i as int)),
            decreases rev.len(),
        {
            let ghost old_r = rev@;
            let (p, m) = rev.pop().unwrap();
            assert(rev@ == old_r.drop_last());
            assert(old_r.reverse()[0] == old_r.last());
            assert(src.skip(i as int)[0] == src[i as int]);
            assert(old_r.reverse().drop_first() =~= old_r.drop_last().reverse());
            assert(src.skip(i as int).drop_first() =~= src.skip(i + 1));
            proof {
                m.lemma_entries_map();
                let t = es.take(i + 1);
                assert(t.drop_last() =~= es.take(i as int));
                assert(t.last() == (p@, m.spec_methods()));
            }
            map.merge(p.as_str(), m);
            i = i + 1;
        }
        assert(es.take(src.len() as int) =~= es);
    }
}

/// The map of paths with each entry's operations added to those of its
/// path, in order; an entry without operations changes nothing.
pub open spec fn merge_paths<O>(
    m: Map<Seq<char>, Map<HttpMethod, O>>,
    es: Seq<(Seq<char>, Map<HttpMethod, O>)>,
) -> Map<Seq<char>, Map<HttpMethod, O>>
    decreases es.len(),
{
    if es.len() == 0 {
        m
    } else {
        let prev = merge_paths(m, es.drop_last());
        let p = es.last().0;
        let ops = es.last().1;
        if ops == Map::<HttpMethod, O>::empty() {
            prev
        } else {
            prev.insert(
                p,
                (if prev.dom().contains(p) {
                    prev[p]
                } else {
                    Map::empty()
                }).union_prefer_right(ops),
            )
        }
    }
}

/// Putting entries into a map in order is joining the map of the entries to
/// it, the entries winning.
pub proof fn lemma_put_all_union<K, V>(m: Map<K, V>, s: Seq<(K, V)>)
    ensures
        put_all(m, s) == m.union_prefer_right(seq_to_map(s)),
    decreases s.len(),
{
    if s.len() > 0 {
        lemma_put_all_union(m, s.drop_last());
        assert(put_all(m, s) =~= m.union_prefer_right(seq_to_map(s)));
    }
}

impl<O> OperationMap<O> {
    /// Putting the operations into a map is joining them to it.
    pub proof fn lemma_entries_map(self)
        ensures
            forall|x: Map<HttpMethod, O>| #[trigger] put_all(x, self.spec_entries()) == x.union_prefer_right(self.spec_methods()),
    {
        assert forall|x: Map<HttpMethod, O>| #[trigger] put_all(x, self.spec_entries()) == x.union_prefer_right(self.spec_methods()) by {
            lemma_put_all_union(x, self.spec_entries());
        }
    }
}

/// A resource at the given path, with no operations.
pub fn resource<O: Clone>(path: &str) -> (r: Resource<O>)
    ensures
        r.wf(),
        r.spec_path() == path@,
        r.spec_operations() == Map::<HttpMethod, O>::empty(),
        r.spec_definitions() == Map::<Seq<char>, Schema>::empty(),
{
    Resource::new(path)
}

/// A scope at the given path, with nothing mounted.
pub fn scope<O: Clone>(path: &str) -> (r: Scope<O>)
    ensures
        r.wf(),
        r.spec_path() == path@,
        r.spec_paths() == Map::<Seq<char>, Map<HttpMethod, O>>::empty(),
        r.spec_definitions() == Map::<Seq<char>, Schema>::empty(),
{
    Scope::new(path)
}

/// Removes every occurrence of `p` at the start of `s`.
pub open spec fn trim_start_all(s: Seq<char>, p: Seq<char>) -> Seq<char>
    decreases s.len(),
{
    if p.len() > 0 && p.len() <= s.len() && s.take(p.len() as int) == p {
        trim_start_all(s.skip(p.len() as int), p)
    } else {
        s
    }
}

/// The entries with each path trimmed of the base path.
pub open spec fn trimmed<O>(base: Seq<char>, es: Seq<(Seq<char>, Map<HttpMethod, O>)>) -> Seq<(Seq<char>, Map<HttpMethod, O>)> {
    Seq::new(es.len(), |i: int| (trim_start_all(es[i].0, base), es[i].1))
}

/// The paths of an application's specification, with its base path.
#[derive(Debug)]
pub struct App<O> {
    paths: PathMap<O>,
    base_path: Option<String>,
    definitions: DefinitionMap,
}

impl<O: Clone> App<O> {
    /// The paths of the specification.
    pub closed spec fn spec_paths(self) -> Map<Seq<char>, Map<HttpMethod, O>> {
        self.paths.spec_paths()
    }

    /// The paths and their operations, in the order of the paths.
    pub closed spec fn spec_entries(self) -> Seq<(Seq<char>, Map<HttpMethod, O>)> {
        self.paths.spec_entries()
    }

    /// The paths are the map of the entries.
    pub proof fn lemma_entries(self)
        ensures
            self.spec_paths() == seq_to_map(self.spec_entries()),
    {
    }

    /// The base path of the specification.
    pub closed spec fn spec_base_path(self) -> Option<Seq<char>> {
        match self.base_path {
            Some(b) => Some(b@),
            None => None,
        }
    }

    /// The schema definitions of the specification.
    pub closed spec fn spec_definitions(self) -> Map<Seq<char>, Schema> {
        self.definitions.spec_definitions()
    }

    /// The application is well formed.
    pub closed spec fn wf(self) -> bool {
        self.paths.wf() && self.definitions.wf()
    }

    /// An application with the given base path and no paths.
    pub fn new(base_path: Option<String>) -> (r: App<O>)
        ensures
            r.wf(),
            r.spec_paths() == Map::<Seq<char>, Map<HttpMethod, O>>::empty(),
            r.spec_definitions() == Map::<Seq<char>, Schema>::empty(),
            r.spec_base_path() == match base_path {
                Some(b) => Some(b@),
                None => None::<Seq<char>>,
            },
    {
        App { paths: PathMap::new(), base_path, definitions: DefinitionMap::new() }
    }

    /// The paths of the specification.
    pub fn paths(&self) -> (r: &PathMap<O>)
        requires
            self.wf(),
        ensures
            r.wf(),
            r.spec_paths() == self.spec_paths(),
    {
        &self.paths
    }

    /// The schema definitions of the specification.
    pub fn definitions(&self) -> (r: &DefinitionMap)
        requires
            self.wf(),
        ensures
            r.wf(),
            r.spec_definitions() == self.spec_definitions(),
    {
        &self.definitions
    }

    /// Mounts a resource: its operations are added to those of its path,
    /// and its definitions join those of the specification.
    pub fn service_resource(self, resource: Resource<O>) -> (r: Self)
        requires
            self.wf(),
            resource.wf(),
        ensures
            r.wf(),
            r.spec_base_path() == self.spec_base_path(),
            r.spec_definitions() == self.spec_definitions().union_prefer_right(resource.spec_definitions()),
            resource.spec_operations() == Map::<HttpMethod, O>::empty() ==> r.spec_paths() == self.spec_paths(),
            resource.spec_operations() != Map::<HttpMethod, O>::empty() ==> r.spec_paths() == self.spec_paths().insert(
                resource.spec_path(),
                put_all(
                    if self.spec_paths().dom().contains(resource.spec_path()) {
                        self.spec_paths()[resource.spec_path()]
                    } else {
                        Map::empty()
                    },
                    resource.spec_operation_entries(),
                ),
            ),
    {
        let mut this = self;
        let mut resource = resource;
        let defs = resource.definitions();
        this.definitions.extend(defs);
        resource.update_operations(&mut this.paths);
        this
    }

    /// Mounts a scope: the scope's paths, with their operations, are added
    /// to those of the specification, and its definitions join those of the
    /// specification.
    pub fn service_scope(self, scope: Scope<O>) -> (r: Self)
        requires
            self.wf(),
            scope.wf(),
        ensures
            r.wf(),
            r.spec_base_path() == self.spec_base_path(),
            r.spec_definitions() == self.spec_definitions().union_prefer_right(scope.spec_definitions()),
            r.spec_paths() == merge_paths(self.spec_paths(), scope.spec_entries()),
    {
        let mut this = self;
        let mut scope = scope;
        let defs = scope.definitions();
        this.definitions.extend(defs);
        scope.update_operations(&mut this.paths);
        this
    }
}

/// Removes every occurrence of `p` at the start of `s`, as
/// `str::trim_start_matches` does for a text pattern.
pub fn trim_start_matches(s: &str, p: &str) -> (r: String)
    ensures
        r@ == trim_start_all(s@, p@),
{
    let v = crate::text::chars_of(s);
    let pv = crate::text::chars_of(p);
    let mut i: usize = 0;
    assert(v@.skip(0) =~= v@);
    if pv.len() > 0 {
        while pv.len() <= v.len() - i && starts_at(&v, &pv, i)
            invariant
                i <= v@.len(),
                v@ == s@,
                pv@ == p@,
                pv@.len() > 0,
                trim_start_all(s@, p@) == trim_start_all(v@.skip(i as int), p@),
            decreases v.len() - i,
        {
            assert(v@.skip(i as int).skip(pv@.len() as int) =~= v@.skip(i + pv@.len()));
            i = i + pv.len();
        }
        proof {
            if i + pv@.len() <= v@.len() {
                assert(v@.skip(i as int).take(pv@.len() as int) != p@);
            }
        }
    }
    crate::text::string_of_range(&v, i, v.len())
}

/// Whether `p` occurs in `v` at position `i`.
fn starts_at(v: &Vec<char>, p: &Vec<char>, i: usize) -> (b: bool)
    requires
        i + p@.len() <= v@.len(),
    ensures
        b == (v@.skip(i as int).take(p@.len() as int) == p@),
{
    let mut j: usize = 0;
    while j < p.len()
        invariant
            i + p@.len() <= v@.len(),
            v@.len() == v.len(),
            j <= p@.len(),
            forall|k: int| 0 <= k < j ==> v@[i + k] == p@[k],
        decreases p.len() - j,
    {
        if v[i + j] != p[j] {
            assert(v@.skip(i as int).take(p@.len() as int)[j as int] == v@[i + j]);
            return false;
        }
        j = j + 1;
    }
    assert(v@.skip(i as int).take(p@.len() as int) =~= p@);
    true
}

/// Putting entries into an empty map is the map of the entries.
pub proof fn lemma_put_all_empty<K, V>(s: Seq<(K, V)>)
    ensures
        put_all(Map::<K, V>::empty(), s) == seq_to_map(s),
    decreases s.len(),
{
    if s.len() > 0 {
        lemma_put_all_empty(s.drop_last());
    }
}

/// A text without the empty pattern is itself.
proof fn lemma_trim_empty(s: Seq<char>)
    ensures
        trim_start_all(s, Seq::empty()) == s,
{
}

impl<O: Clone> App<O> {
    /// Trims the base path from the start of every path, as often as it
    /// occurs there; a path that trims to one already seen replaces it.
    pub fn trim_base_path(self) -> (r: Self)
        requires
            self.wf(),
        ensures
            r.wf(),
            r.spec_base_path() == self.spec_base_path(),
            r.spec_definitions() == self.spec_definitions(),
            r.spec_paths() == put_all(
                Map::empty(),
                trimmed(
                    match self.spec_base_path() {
                        Some(b) => b,
                        None => Seq::empty(),
                    },
                    self.spec_entries(),
                ),
            ),
    {
        let mut this = self;
        let base = match &this.base_path {
            Some(b) => b.clone(),
            None => String::new(),
        };
        let ghost es = this.paths.spec_entries();
        let old_paths = this.paths.take();
        let ghost src = old_paths.entries@;
        let mut rev = reversed(old_paths.entries);
        let n = rev.len();
        assert(src.len() == n);
        assert(rev@.reverse() =~= src);
        assert(src.skip(0) =~= src);
        let mut out: PathMap<O> = PathMap::new();
        let mut i: usize = 0;
        assert(trimmed(base@, es).take(0) =~= Seq::<(Seq<char>, Map<HttpMethod, O>)>::empty());
        while rev.len() > 0
            invariant
                out.wf(),
                es == path_entries(src),
                forall|k: int| 0 <= k < src.len() ==> (#[trigger] src[k]).1.wf(),
                src.len() <= usize::MAX,
                i + rev@.len() == src.len(),
                rev@.reverse() == src.skip(i as int),
                out.spec_paths() == put_all(Map::empty(), trimmed(base@, es).take(i as int)),
            decreases rev.len(),
        {
            let ghost old_r = rev@;
            let (p, m) = rev.pop().unwrap();
            assert(rev@ == old_r.drop_last());
            assert(old_r.reverse()[0] == old_r.last());
            assert(src.skip(i as int)[0] == src[i as int]);
            assert(old_r.reverse().drop_first() =~= old_r.drop_last().reverse());
            assert(src.skip(i as int).drop_first() =~= src.skip(i + 1));
            let key = trim_start_matches(p.as_str(), base.as_str());
            out.insert(key, m);
            proof {
                let t = trimmed(base@, es).take(i + 1);
                assert(t.drop_last() =~= trimmed(base@, es).take(i as int));
            }
            i = i + 1;
        }
        assert(trimmed(base@, es).take(src.len() as int) =~= trimmed(base@, es));
        this.paths = out;
        this
    }
}

/// **Law.** Without a base path, trimming keeps the paths as they are.
pub proof fn law_trim_without_base<O>(es: Seq<(Seq<char>, Map<HttpMethod, O>)>)
    ensures
        put_all(Map::empty(), trimmed(Seq::empty(), es)) == seq_to_map(es),
{
    assert(trimmed(Seq::empty(), es) =~= es) by {
        assert forall|i: int| 0 <= i < es.len() implies #[trigger] trimmed(Seq::<char>::empty(), es)[i] == es[i] by {
            lemma_trim_empty(es[i].0);
        }
    }
    lemma_put_all_empty(es);
}

/// **Law.** Recording the operations of a path twice keeps, for each
/// method, the later operation: putting entries in is inserting them one by
/// one, so the same operations put into the same map give the same map.
pub proof fn law_put_all_later_wins<K, V>(m: Map<K, V>, s: Seq<(K, V)>, k: K, v: V)
    ensures
        put_all(m, s.push((k, v))).dom().contains(k),
        put_all(m, s.push((k, v)))[k] == v,
{
    assert(s.push((k, v)).drop_last() =~= s);
}

/// **Law.** Mounting a scope keeps every path that the scope does not have
/// as it was, and each path of the scope that has operations is there.
pub proof fn law_scope_keeps_other_paths<O>(
    m: Map<Seq<char>, Map<HttpMethod, O>>,
    es: Seq<(Seq<char>, Map<HttpMethod, O>)>,
    p: Seq<char>,
)
    ensures
        (forall|i: int| 0 <= i < es.len() ==> (#[trigger] es[i]).0 != p) ==> (merge_paths(m, es).dom().contains(p)
            == m.dom().contains(p) && (m.dom().contains(p) ==> merge_paths(m, es)[p] == m[p])),
        (exists|i: int| 0 <= i < es.len() && (#[trigger] es[i]).0 == p && es[i].1 != Map::<HttpMethod, O>::empty())
            ==> merge_paths(m, es).dom().contains(p),
    decreases es.len(),
{
    if es.len() > 0 {
        let prev = es.drop_last();
        law_scope_keeps_other_paths(m, prev, p);
        if forall|i: int| 0 <= i < es.len() ==> (#[trigger] es[i]).0 != p {
            assert forall|i: int| 0 <= i < prev.len() implies (#[trigger] prev[i]).0 != p by {
                assert(prev[i] == es[i]);
            }
            assert(es[es.len() - 1].0 != p);
        }
        if exists|i: int| 0 <= i < es.len() && (#[trigger] es[i]).0 == p && es[i].1 != Map::<HttpMethod, O>::empty() {
            let i = choose|i: int| 0 <= i < es.len() && (#[trigger] es[i]).0 == p && es[i].1 != Map::<HttpMethod, O>::empty();
            if i < es.len() - 1 {
                assert(prev[i] == es[i]);
            }
        }
    }
}

} // verus!
