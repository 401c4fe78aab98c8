//! Binding operations to objects: each object keeps, per path, the
//! requirements of the operations bound to it, as a map ordered by path and,
//! in each path, by method.

use vstd::prelude::*;
use crate::models::HttpMethod;
use crate::object::{methods_sorted, paths_sorted, seq_less, ApiObject, OpRequirement, Parameter, PathOps};
use crate::text::chars_of;

verus! {

/* ---------------------------------------------------------------------- */
/* Maps held as sequences of entries                                      */
/* ---------------------------------------------------------------------- */

/// The map of a sequence of entries; a later entry wins over an earlier one
/// with the same key.
pub open spec fn seq_to_map<K, V>(s: Seq<(K, V)>) -> Map<K, V>
    decreases s.len(),
{
    if s.len() == 0 {
        Map::empty()
    } else {
        seq_to_map(s.drop_last()).insert(s.last().0, s.last().1)
    }
}

/// No key occurs twice.
pub open spec fn keys_distinct<K, V>(s: Seq<(K, V)>) -> bool {
    forall|i: int, j: int| 0 <= i < j < s.len() ==> (#[trigger] s[i]).0 != (#[trigger] s[j]).0
}

/// The keys of the map are those of the entries.
pub proof fn lemma_seq_to_map_dom<K, V>(s: Seq<(K, V)>, k: K)
    ensures
        seq_to_map(s).dom().contains(k) <==> exists|i: int| 0 <= i < s.len() && (#[trigger] s[i]).0 == k,
    decreases s.len(),
{
    if s.len() > 0 {
        lemma_seq_to_map_dom(s.drop_last(), k);
        if seq_to_map(s.drop_last()).dom().contains(k) {
            let i = choose|i: int| 0 <= i < s.drop_last().len() && (#[trigger] s.drop_last()[i]).0 == k;
            assert(s[i].0 == k);
        }
        if exists|i: int| 0 <= i < s.len() && (#[trigger] s[i]).0 == k {
            let i = choose|i: int| 0 <= i < s.len() && (#[trigger] s[i]).0 == k;
            if i < s.len() - 1 {
                assert(s.drop_last()[i].0 == k);
            }
        }
    }
}

/// With distinct keys, each entry's value is what the map holds for its key.
pub proof fn lemma_seq_to_map_index<K, V>(s: Seq<(K, V)>, i: int)
    requires
        keys_distinct(s),
        0 <= i < s.len(),
    ensures
        seq_to_map(s).dom().contains(s[i].0),
        seq_to_map(s)[s[i].0] == s[i].1,
    decreases s.len(),
{
    if i < s.len() - 1 {
        assert(keys_distinct(s.drop_last()));
        lemma_seq_to_map_index(s.drop_last(), i);
        assert(s.drop_last()[i] == s[i]);
        assert(s[i].0 != s[s.len() - 1].0);
    }
}

/// Replacing the value of an entry is inserting into the map.
pub proof fn lemma_seq_to_map_update<K, V>(s: Seq<(K, V)>, i: int, v: V)
    requires
        keys_distinct(s),
        0 <= i < s.len(),
    ensures
        seq_to_map(s.update(i, (s[i].0, v))) == seq_to_map(s).insert(s[i].0, v),
    decreases s.len(),
{
    let t = s.update(i, (s[i].0, v));
    if i == s.len() - 1 {
        assert(t.drop_last() =~= s.drop_last());
        assert(seq_to_map(t) =~= seq_to_map(s).insert(s[i].0, v));
    } else {
        assert(keys_distinct(s.drop_last()));
        assert(t.drop_last() =~= s.drop_last().update(i, (s[i].0, v)));
        lemma_seq_to_map_update(s.drop_last(), i, v);
        assert(s[i].0 != s.last().0);
        assert(seq_to_map(t) =~= seq_to_map(s).insert(s[i].0, v));
    }
}

/// Inserting an entry with a new key is inserting into the map.
pub proof fn lemma_seq_to_map_insert<K, V>(s: Seq<(K, V)>, i: int, k: K, v: V)
    requires
        0 <= i <= s.len(),
        forall|j: int| 0 <= j < s.len() ==> (#[trigger] s[j]).0 != k,
    ensures
        seq_to_map(s.insert(i, (k, v))) == seq_to_map(s).insert(k, v),
    decreases s.len(),
{
    let t = s.insert(i, (k, v));
    if i == s.len() {
        assert(t.drop_last() =~= s);
    } else {
        assert(t.drop_last() =~= s.drop_last().insert(i, (k, v)));
        assert(forall|j: int| 0 <= j < s.drop_last().len() ==> (#[trigger] s.drop_last()[j]) == s[j]);
        lemma_seq_to_map_insert(s.drop_last(), i, k, v);
        assert(t.last() == s.last());
        assert(s.last().0 != k);
        assert(seq_to_map(t) =~= seq_to_map(s).insert(k, v));
    }
}

/* ---------------------------------------------------------------------- */
/* The order of texts                                                     */
/* ---------------------------------------------------------------------- */

/// No text is before itself.
pub proof fn lemma_seq_less_irreflexive(a: Seq<char>)
    ensures
        !seq_less(a, a),
    decreases a.len(),
{
    if a.len() > 0 {
        lemma_seq_less_irreflexive(a.drop_first());
    }
}

/// Of two different texts, one is before the other.
pub proof fn lemma_seq_less_total(a: Seq<char>, b: Seq<char>)
    requires
        a != b,
    ensures
        seq_less(a, b) || seq_less(b, a),
    decreases a.len(),
{
    if a.len() > 0 && b.len() > 0 && a[0] == b[0] {
        if a.drop_first() == b.drop_first() {
            assert(a =~= seq![a[0]] + a.drop_first());
            assert(b =~= seq![b[0]] + b.drop_first());
        }
        lemma_seq_less_total(a.drop_first(), b.drop_first());
    } else if a.len() > 0 && b.len() > 0 {
        if (a[0] as u32) == (b[0] as u32) {
            vstd::utf8::char_u32_cast(a[0], a[0] as u32);
            vstd::utf8::char_u32_cast(b[0], b[0] as u32);
        }
    } else if a.len() == 0 && b.len() == 0 {
        assert(a =~= b);
    }
}

/// The order of texts is transitive.
pub proof fn lemma_seq_less_transitive(a: Seq<char>, b: Seq<char>, c: Seq<char>)
    requires
        seq_less(a, b),
        seq_less(b, c),
    ensures
        seq_less(a, c),
    decreases a.len(),
{
    if a.len() > 0 && b.len() > 0 && c.len() > 0 && a[0] == b[0] && b[0] == c[0] {
        lemma_seq_less_transitive(a.drop_first(), b.drop_first(), c.drop_first());
    }
}

/// Compares two texts by the codes of their characters (the order of a
/// `BTreeMap` keyed by `String`).
pub fn text_less(a: &str, b: &str) -> (r: bool)
    ensures
        r == seq_less(a@, b@),
{
    let va = chars_of(a);
    let vb = chars_of(b);
    let mut i: usize = 0;
    assert(a@.skip(0) =~= a@);
    assert(b@.skip(0) =~= b@);
    while i < va.len() && i < vb.len()
        invariant
            i <= va@.len(),
            i <= vb@.len(),
            va@ == a@,
            vb@ == b@,
            seq_less(a@, b@) == seq_less(a@.skip(i as int), b@.skip(i as int)),
        decreases va.len() - i,
    {
        if va[i] != vb[i] {
            assert(a@.skip(i as int)[0] == va@[i as int]);
            assert(b@.skip(i as int)[0] == vb@[i as int]);
            let ca: char = va[i];
            let cb: char = vb[i];
            let x: u32 = ca as u32;
            let y: u32 = cb as u32;
            return x < y;
        }
        assert(a@.skip(i as int).drop_first() =~= a@.skip(i + 1));
        assert(b@.skip(i as int).drop_first() =~= b@.skip(i + 1));
        i = i + 1;
    }
    i < vb.len()
}

/* ---------------------------------------------------------------------- */
/* Binding operations                                                     */
/* ---------------------------------------------------------------------- */

/// What a path of an object holds: the requirements of its operations by
/// method, and the parameters shared by all of them.
pub ghost struct PathOpsView {
    pub ops: Map<HttpMethod, OpRequirement>,
    pub params: Seq<Parameter>,
}

/// The view of the operations in a path.
pub open spec fn path_ops_view(p: PathOps) -> PathOpsView {
    PathOpsView { ops: seq_to_map(p.req@), params: p.params@ }
}

/// The entries of an object's paths, by the text of each path.
pub open spec fn paths_entries(paths: Seq<(String, PathOps)>) -> Seq<(Seq<char>, PathOpsView)> {
    Seq::new(paths.len(), |i: int| (paths[i].0@, path_ops_view(paths[i].1)))
}

/// The paths of an object as a map.
pub open spec fn paths_map(paths: Seq<(String, PathOps)>) -> Map<Seq<char>, PathOpsView> {
    seq_to_map(paths_entries(paths))
}

/// The operations of a path after binding `req` to method `meth`: those the
/// path had (none for a new path) with `meth` bound to `req`, and the
/// parameters it had (none for a new path).
pub open spec fn bound_path(old: Map<Seq<char>, PathOpsView>, path: Seq<char>, meth: HttpMethod, req: OpRequirement) -> PathOpsView {
    if old.dom().contains(path) {
        PathOpsView { ops: old[path].ops.insert(meth, req), params: old[path].params }
    } else {
        PathOpsView { ops: Map::empty().insert(meth, req), params: Seq::empty() }
    }
}

/// The position of a method in the order of declaration.
fn method_rank(m: HttpMethod) -> (r: u8)
    ensures
        r == m.rank(),
{
    match m {
        HttpMethod::Get => 0,
        HttpMethod::Put => 1,
        HttpMethod::Post => 2,
        HttpMethod::Delete => 3,
        HttpMethod::Options => 4,
        HttpMethod::Head => 5,
        HttpMethod::Patch => 6,
    }
}

/// Methods of equal rank are equal.
proof fn lemma_rank_injective(a: HttpMethod, b: HttpMethod)
    ensures
        a.rank() == b.rank() ==> a == b,
{
}

/// Entries strictly ordered by method rank.
pub open spec fn methods_ordered<V>(req: Seq<(HttpMethod, V)>) -> bool {
    forall|i: int, j: int| 0 <= i < j < req.len() ==> (#[trigger] req[i]).0.rank() < (#[trigger] req[j]).0.rank()
}

/// Sorted operations have distinct methods.
proof fn lemma_methods_distinct<V>(req: Seq<(HttpMethod, V)>)
    requires
        methods_ordered(req),
    ensures
        keys_distinct(req),
{
}

/// Puts `r` under method `meth` among entries ordered by method.
pub(crate) fn insert_method<V>(req: &mut Vec<(HttpMethod, V)>, meth: HttpMethod, r: V)
    requires
        methods_ordered(old(req)@),
    ensures
        methods_ordered(final(req)@),
        seq_to_map(final(req)@) == seq_to_map(old(req)@).insert(meth, r),
{
    let rank = method_rank(meth);
    let mut k: usize = 0;
    while k < req.len() && method_rank(req[k].0) < rank
        invariant
            k <= req@.len(),
            req@ == old(req)@,
            rank == meth.rank(),
            forall|j: int| 0 <= j < k ==> (#[trigger] req@[j]).0.rank() < meth.rank(),
        decreases req.len() - k,
    {
        k = k + 1;
    }
    proof {
        lemma_methods_distinct(req@);
    }
    if k < req.len() && method_rank(req[k].0) == rank {
        proof {
            lemma_rank_injective(req@[k as int].0, meth);
            lemma_seq_to_map_update(req@, k as int, r);
        }
        let _ = req.remove(k);
        req.insert(k, (meth, r));
        assert(req@ =~= old(req)@.update(k as int, (old(req)@[k as int].0, r)));
    } else {
        proof {
            assert forall|j: int| 0 <= j < req@.len() implies (#[trigger] req@[j]).0 != meth by {
                if j >= k {
                    assert(req@[k as int].0.rank() > meth.rank());
                }
            }
            lemma_seq_to_map_insert(req@, k as int, meth, r);
        }
        req.insert(k, (meth, r));
    }
}

impl ApiObject {
    /// The paths of this object as a map.
    pub open spec fn spec_paths(self) -> Map<Seq<char>, PathOpsView> {
        paths_map(self.paths@)
    }

    /// Binds an operation to this object: in the given path, the method's
    /// requirement becomes `req`, in place of any earlier one; a path that
    /// the object does not have yet is added without parameters.
    pub fn bind_operation(&mut self, path: &str, meth: HttpMethod, req: OpRequirement)
        requires
            paths_sorted(old(self).paths@),
        ensures
            paths_sorted(final(self).paths@),
            final(self).spec_paths() == old(self).spec_paths().insert(
                path@,
                bound_path(old(self).spec_paths(), path@, meth, req),
            ),
            final(self).name == old(self).name,
            final(self).description == old(self).description,
            final(self).path == old(self).path,
            final(self).fields == old(self).fields,
    {
        let mut i: usize = 0;
        while i < self.paths.len() && text_less(self.paths[i].0.as_str(), path)
            invariant
                i <= self.paths@.len(),
                self.paths@ == old(self).paths@,
                self.name == old(self).name,
                self.description == old(self).description,
                self.path == old(self).path,
                self.fields == old(self).fields,
                forall|j: int| 0 <= j < i ==> seq_less((#[trigger] self.paths@[j]).0@, path@),
            decreases self.paths.len() - i,
        {
            i = i + 1;
        }
        let ghost entries = paths_entries(self.paths@);
        proof {
            lemma_paths_keys_distinct(self.paths@);
        }
        if i < self.paths.len() && crate::object::str_eq(self.paths[i].0.as_str(), path) {
            let (key, mut ops) = self.paths.remove(i);
            assert(methods_ordered(ops.req@));
            insert_method(&mut ops.req, meth, req);
            self.paths.insert(i, (key, ops));
            proof {
                assert(self.paths@ =~= old(self).paths@.update(i as int, self.paths@[i as int]));
                lemma_seq_to_map_index(entries, i as int);
                assert(entries[i as int].0 == path@);
                assert(paths_entries(self.paths@) =~= entries.update(
                    i as int,
                    (entries[i as int].0, bound_path(old(self).spec_paths(), path@, meth, req)),
                ));
                lemma_seq_to_map_update(
                    entries,
                    i as int,
                    bound_path(old(self).spec_paths(), path@, meth, req),
                );
                assert forall|a: int, b: int| 0 <= a < b < self.paths@.len() implies seq_less(
                    (#[trigger] self.paths@[a]).0@,
                    (#[trigger] self.paths@[b]).0@,
                ) by {
                    assert(self.paths@[a].0@ == old(self).paths@[a].0@);
                    assert(self.paths@[b].0@ == old(self).paths@[b].0@);
                }
                assert forall|j: int| 0 <= j < self.paths@.len() implies methods_sorted(
                    (#[trigger] self.paths@[j]).1.req@,
                ) by {
                    if j != i {
                        assert(self.paths@[j] == old(self).paths@[j]);
                    }
                }
            }
        } else {
            let mut first: Vec<(HttpMethod, OpRequirement)> = Vec::new();
            first.push((meth, req));
            let entry = (path.to_owned(), PathOps { req: first, params: Vec::new() });
            proof {
                assert(entry.1.req@.len() == 1);
                assert(entry.1.req@[0] == (meth, req));
                assert(entry.1.req@.drop_last() =~= Seq::<(HttpMethod, OpRequirement)>::empty());
                assert(seq_to_map(Seq::<(HttpMethod, OpRequirement)>::empty()) == Map::<HttpMethod, OpRequirement>::empty());
                assert(seq_to_map(entry.1.req@) == seq_to_map(entry.1.req@.drop_last()).insert(meth, req));
                if i < old(self).paths@.len() {
                    lemma_seq_less_total(old(self).paths@[i as int].0@, path@);
                }
                assert forall|j: int| 0 <= j < entries.len() implies (#[trigger] entries[j]).0 != path@ by {
                    if j < i {
                        assert(seq_less(old(self).paths@[j].0@, path@));
                        lemma_seq_less_irreflexive(path@);
                    } else if j > i {
                        assert(seq_less(old(self).paths@[i as int].0@, old(self).paths@[j].0@));
                        lemma_seq_less_transitive(path@, old(self).paths@[i as int].0@, old(self).paths@[j].0@);
                        lemma_seq_less_irreflexive(path@);
                    }
                }
                lemma_seq_to_map_dom(entries, path@);
                lemma_seq_to_map_insert(entries, i as int, path@, path_ops_view(entry.1));
                lemma_insert_sorted(old(self).paths@, i as int, entry);
            }
            self.paths.insert(i, entry);
            proof {
                assert(paths_entries(self.paths@) =~= entries.insert(i as int, (path@, path_ops_view(entry.1))));
            }
        }
    }
}

/// Inserting an entry between the paths before it and those after it keeps
/// an object sorted.
proof fn lemma_insert_sorted(paths: Seq<(String, PathOps)>, i: int, e: (String, PathOps))
    requires
        paths_sorted(paths),
        0 <= i <= paths.len(),
        forall|j: int| 0 <= j < i ==> seq_less((#[trigger] paths[j]).0@, e.0@),
        i < paths.len() ==> seq_less(e.0@, paths[i].0@),
        methods_sorted(e.1.req@),
    ensures
        paths_sorted(paths.insert(i, e)),
{
    let t = paths.insert(i, e);
    assert forall|a: int, b: int| 0 <= a < b < t.len() implies seq_less(
        (#[trigger] t[a]).0@,
        (#[trigger] t[b]).0@,
    ) by {
        if b < i {
            assert(t[a] == paths[a] && t[b] == paths[b]);
        } else if b == i {
            assert(t[a] == paths[a]);
        } else if a == i {
            assert(t[b] == paths[b - 1]);
            if b - 1 > i {
                assert(seq_less(paths[i].0@, paths[b - 1].0@));
                lemma_seq_less_transitive(e.0@, paths[i].0@, paths[b - 1].0@);
            }
        } else if a < i {
            assert(t[a] == paths[a] && t[b] == paths[b - 1]);
        } else {
            assert(t[a] == paths[a - 1] && t[b] == paths[b - 1]);
        }
    }
    assert forall|j: int| 0 <= j < t.len() implies methods_sorted((#[trigger] t[j]).1.req@) by {
        if j < i {
            assert(t[j] == paths[j]);
        } else if j > i {
            assert(t[j] == paths[j - 1]);
        }
    }
}

/// The paths of a sorted object have distinct texts.
proof fn lemma_paths_keys_distinct(paths: Seq<(String, PathOps)>)
    requires
        paths_sorted(paths),
    ensures
        keys_distinct(paths_entries(paths)),
{
    assert forall|i: int, j: int| 0 <= i < j < paths_entries(paths).len() implies (#[trigger] paths_entries(
        paths,
    )[i]).0 != (#[trigger] paths_entries(paths)[j]).0 by {
        assert(seq_less(paths[i].0@, paths[j].0@));
        lemma_seq_less_irreflexive(paths[i].0@);
    }
}

/// **Law.** After binding a requirement to a method in a path, looking it up
/// gives that requirement; the path's other operations and parameters, and
/// every other path, stay as they were.
pub proof fn law_bind_then_lookup(
    paths: Map<Seq<char>, PathOpsView>,
    path: Seq<char>,
    meth: HttpMethod,
    req: OpRequirement,
    other_path: Seq<char>,
    other_meth: HttpMethod,
)
    ensures
        ({
            let bound = paths.insert(path, bound_path(paths, path, meth, req));
            &&& bound.dom().contains(path)
            &&& bound[path].ops.dom().contains(meth)
            &&& bound[path].ops[meth] == req
            &&& other_path != path ==> (bound.dom().contains(other_path) <==> paths.dom().contains(
                other_path,
            ))
            &&& other_path != path && paths.dom().contains(other_path) ==> bound[other_path]
                == paths[other_path]
            &&& paths.dom().contains(path) ==> bound[path].params == paths[path].params
            &&& paths.dom().contains(path) && other_meth != meth ==> (bound[path].ops.dom().contains(
                other_meth,
            ) <==> paths[path].ops.dom().contains(other_meth))
            &&& paths.dom().contains(path) && other_meth != meth && paths[path].ops.dom().contains(
                other_meth,
            ) ==> bound[path].ops[other_meth] == paths[path].ops[other_meth]
        }),
{
}

/// **Law.** Binding twice to the same method in the same path is binding
/// the second requirement only: the later one replaces the earlier one.
pub proof fn law_bind_twice(
    paths: Map<Seq<char>, PathOpsView>,
    path: Seq<char>,
    meth: HttpMethod,
    first: OpRequirement,
    second: OpRequirement,
)
    ensures
        ({
            let once = paths.insert(path, bound_path(paths, path, meth, first));
            once.insert(path, bound_path(once, path, meth, second)) == paths.insert(
                path,
                bound_path(paths, path, meth, second),
            )
        }),
{
    let once = paths.insert(path, bound_path(paths, path, meth, first));
    assert(bound_path(once, path, meth, second).ops =~= bound_path(paths, path, meth, second).ops);
    assert(once.insert(path, bound_path(once, path, meth, second)) =~= paths.insert(
        path,
        bound_path(paths, path, meth, second),
    ));
}

} // verus!
