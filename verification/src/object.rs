//! Simplified objects for codegen.
//!
//! This contains the necessary objects for generating actual
//! API objects, their builders, impls, etc.

use vstd::prelude::*;
use crate::models::{CollectionFormat, HttpMethod, ParameterIn};
use crate::text::{
    camel_case_of, chars_of, decimal, push_decimal, push_spaces, push_str, push_trimmed_end,
    regex_compiles, regex_replace_all, regex_replacement, snake_case_of, spaces, split_on,
    string_of, to_camel_case, to_snake_case, trim_end, WriteError,
};

verus! {

/* ---------------------------------------------------------------------- */
/* Data                                                                   */
/* ---------------------------------------------------------------------- */

/// Represents a (simplified) Rust struct.
#[derive(Debug, Clone)]
pub struct ApiObject {
    /// Name of the struct (camel-cased).
    pub name: String,
    /// Description for this object (if any), to be used for docs.
    pub description: Option<String>,
    /// Path to this object from (generated) root module.
    pub path: String,
    /// List of fields.
    pub fields: Vec<ObjectField>,
    /// Paths with operations which address this object, ordered by path.
    pub paths: Vec<(String, PathOps)>,
}

/// Operations in a path.
#[derive(Debug, Clone)]
pub struct PathOps {
    /// Operations for this object and their associated requirements,
    /// ordered by method.
    pub req: Vec<(HttpMethod, OpRequirement)>,
    /// Parameters required for all operations in this path.
    pub params: Vec<Parameter>,
}

/// Requirement for an object corresponding to some operation.
#[derive(Debug, Clone)]
pub struct OpRequirement {
    /// Operation ID (if it's provided in the schema).
    pub id: Option<String>,
    /// Description of this operation (if any), to be used for docs.
    pub description: Option<String>,
    /// Parameters required for this operation.
    pub params: Vec<Parameter>,
    /// Whether the object itself is required (in body) for this operation.
    pub body_required: bool,
    /// Whether this operation returns a list of the associated `ApiObject`.
    pub listable: bool,
    /// Type path for this operation's response.
    pub response_ty_path: Option<String>,
}

/// Represents some parameter somewhere (header, path, query, etc.).
#[derive(Debug, Clone)]
pub struct Parameter {
    /// Name of the parameter.
    pub name: String,
    /// Description of this operation (if any), to be used for docs.
    pub description: Option<String>,
    /// Type of the parameter as a path.
    pub ty_path: String,
    /// Whether this parameter is required.
    pub required: bool,
    /// Where the parameter lives.
    pub presence: ParameterIn,
    /// Delimiting of the values of an array parameter, outermost first.
    pub delimiting: Vec<CollectionFormat>,
}

/// Represents a struct field.
#[derive(Debug, Clone)]
pub struct ObjectField {
    /// Name of the field.
    pub name: String,
    /// Type of the field as a path.
    pub ty_path: String,
    /// Description of this operation (if any), to be used for docs.
    pub description: Option<String>,
    /// Whether this field is required (i.e., not optional).
    pub is_required: bool,
    /// Whether the field's type needs the `Any` type parameter.
    pub needs_any: bool,
    /// Whether this field should be boxed.
    pub boxed: bool,
    /// Requirements of the "deepest" child type in the given definition.
    pub children_req: Vec<String>,
}

/// The view of an optional owned string.
pub open spec fn opt_string_view(o: Option<String>) -> Option<Seq<char>> {
    match o {
        Some(s) => Some(s@),
        None => None,
    }
}

/// The view of an optional string slice.
pub open spec fn opt_str_view(o: Option<&str>) -> Option<Seq<char>> {
    match o {
        Some(s) => Some(s@),
        None => None,
    }
}

/// Borrows the contents of an optional owned string.
fn opt_as_str(o: &Option<String>) -> (r: Option<&str>)
    ensures
        opt_str_view(r) == opt_string_view(*o),
{
    match o {
        Some(s) => Some(s.as_str()),
        None => None,
    }
}

/// The well-formedness of an object: paths are strictly ordered (as keys of a
/// sorted map) and, in each path, operations are strictly ordered by method.
pub open spec fn paths_sorted(paths: Seq<(String, PathOps)>) -> bool {
    &&& forall|i: int, j: int|
        0 <= i < j < paths.len() ==> seq_less(#[trigger] paths[i].0@, #[trigger] paths[j].0@)
    &&& forall|i: int| 0 <= i < paths.len() ==> methods_sorted(#[trigger] paths[i].1.req@)
}

/// Operations strictly ordered by method rank.
pub open spec fn methods_sorted(req: Seq<(HttpMethod, OpRequirement)>) -> bool {
    forall|i: int, j: int| 0 <= i < j < req.len() ==> (#[trigger] req[i]).0.rank() < (#[trigger] req[j]).0.rank()
}

/// Lexicographic order of texts by character code.
pub open spec fn seq_less(a: Seq<char>, b: Seq<char>) -> bool
    decreases a.len(),
{
    if a.len() == 0 {
        b.len() > 0
    } else if b.len() == 0 {
        false
    } else if a[0] != b[0] {
        (a[0] as u32) < (b[0] as u32)
    } else {
        seq_less(a.drop_first(), b.drop_first())
    }
}

/// The property we're dealing with.
#[derive(Debug, Clone, Copy, PartialEq, Eq, Structural)]
pub enum Property {
    RequiredField,
    OptionalField,
    RequiredParam,
    OptionalParam,
}

impl Property {
    /// A required field or parameter.
    pub open spec fn spec_is_required(self) -> bool {
        self is RequiredField || self is RequiredParam
    }

    /// A parameter.
    pub open spec fn spec_is_parameter(self) -> bool {
        self is RequiredParam || self is OptionalParam
    }

    /// A field.
    pub open spec fn spec_is_field(self) -> bool {
        self is RequiredField || self is OptionalField
    }

    /// Whether this property is required.
    pub fn is_required(self) -> (b: bool)
        ensures
            b == self.spec_is_required(),
    {
        match self {
            Property::RequiredField | Property::RequiredParam => true,
            _ => false,
        }
    }

    /// Checks whether this property is a parameter.
    pub fn is_parameter(self) -> (b: bool)
        ensures
            b == self.spec_is_parameter(),
    {
        match self {
            Property::RequiredParam | Property::OptionalParam => true,
            _ => false,
        }
    }

    /// Checks whether this property is a field.
    pub fn is_field(self) -> (b: bool)
        ensures
            b == self.spec_is_field(),
    {
        match self {
            Property::RequiredField | Property::OptionalField => true,
            _ => false,
        }
    }
}

/// Represents a builder struct for some API object.
#[derive(Debug, Clone, Copy)]
pub struct ApiObjectBuilder<'a> {
    pub idx: usize,
    pub is_list_op: bool,
    pub multiple_builders_exist: bool,
    pub rel_path: Option<&'a str>,
    pub helper_module_prefix: &'a str,
    pub op_id: Option<&'a str>,
    pub method: Option<HttpMethod>,
    pub description: Option<&'a str>,
    pub object: &'a str,
    pub body_required: bool,
    pub fields: &'a [ObjectField],
    pub global_params: &'a [Parameter],
    pub local_params: &'a [Parameter],
    pub response: Option<&'a str>,
}

/// Represents a Rust struct field (could be actual object field or a parameter).
#[derive(Debug, Clone, Copy)]
pub struct StructField<'a> {
    /// Name of this field (case unspecified).
    pub name: &'a str,
    /// Type of this field.
    pub ty: &'a str,
    /// What this field represents.
    pub prop: Property,
    /// Description for this field (if any), for docs.
    pub desc: Option<&'a str>,
    /// Whether this field had a collision (i.e., between parameter and object field)
    pub overridden: bool,
    /// Children fields needed for this field.
    pub strict_children: &'a [String],
    /// Location of the parameter (if it is a parameter).
    pub param_loc: Option<ParameterIn>,
    /// Delimiting of the values of an array parameter, outermost first
    /// (none for an object field).
    pub delimiting: &'a [CollectionFormat],
}

/// The mathematical content of a `StructField`.
pub ghost struct FieldView {
    pub name: Seq<char>,
    pub ty: Seq<char>,
    pub prop: Property,
    pub desc: Option<Seq<char>>,
    pub overridden: bool,
    pub strict_children: Seq<Seq<char>>,
    pub param_loc: Option<ParameterIn>,
    pub delimiting: Seq<CollectionFormat>,
}

impl<'a> View for StructField<'a> {
    type V = FieldView;

    open spec fn view(&self) -> FieldView {
        FieldView {
            name: self.name@,
            ty: self.ty@,
            prop: self.prop,
            desc: opt_str_view(self.desc),
            overridden: self.overridden,
            strict_children: self.strict_children@.map_values(|s: String| s@),
            param_loc: self.param_loc,
            delimiting: self.delimiting@,
        }
    }
}

/// The views of a sequence of struct fields.
pub open spec fn field_views<'a>(s: Seq<StructField<'a>>) -> Seq<FieldView> {
    s.map_values(|f: StructField<'a>| f@)
}

/// Type-parameter rendering mode of `write_generics_if_necessary`.
#[derive(Debug, Clone, Copy)]
pub enum TypeParameters<'a> {
    Generic,
    ChangeOne(&'a str),
    ReplaceAll,
    ChangeAll,
}

/// The mathematical content of a `TypeParameters`.
pub ghost enum ParamsMode {
    Generic,
    ChangeOne(Seq<char>),
    ReplaceAll,
    ChangeAll,
}

impl<'a> View for TypeParameters<'a> {
    type V = ParamsMode;

    open spec fn view(&self) -> ParamsMode {
        match self {
            TypeParameters::Generic => ParamsMode::Generic,
            TypeParameters::ChangeOne(n) => ParamsMode::ChangeOne(n@),
            TypeParameters::ReplaceAll => ParamsMode::ReplaceAll,
            TypeParameters::ChangeAll => ParamsMode::ChangeAll,
        }
    }
}

/* ---------------------------------------------------------------------- */
/* Struct fields of a builder                                             */
/* ---------------------------------------------------------------------- */

/// The entry for a parameter.
pub open spec fn param_entry(p: Parameter) -> FieldView {
    FieldView {
        name: p.name@,
        ty: p.ty_path@,
        prop: if p.required { Property::RequiredParam } else { Property::OptionalParam },
        desc: opt_string_view(p.description),
        overridden: false,
        strict_children: Seq::empty(),
        param_loc: Some(p.presence),
        delimiting: p.delimiting@,
    }
}

/// The entry for an object field; object fields are required only when the
/// body itself is required.
pub open spec fn field_entry(f: ObjectField, body_required: bool) -> FieldView {
    FieldView {
        name: f.name@,
        ty: f.ty_path@,
        prop: if body_required && f.is_required {
            Property::RequiredField
        } else {
            Property::OptionalField
        },
        desc: opt_string_view(f.description),
        overridden: false,
        strict_children: f.children_req@.map_values(|s: String| s@),
        param_loc: None,
        delimiting: Seq::empty(),
    }
}

/// Whether some entry has the given name.
pub open spec fn has_name(acc: Seq<FieldView>, name: Seq<char>) -> bool {
    exists|k: int| 0 <= k < acc.len() && (#[trigger] acc[k]).name == name
}

/// Whether some parameter has the given name.
pub open spec fn has_param_name(ps: Seq<Parameter>, name: Seq<char>) -> bool {
    exists|k: int| 0 <= k < ps.len() && (#[trigger] ps[k]).name@ == name
}

/// Adds the parameters `ps` in order, skipping those whose name is already
/// taken or appears in `shadow`.
pub open spec fn add_params(acc: Seq<FieldView>, ps: Seq<Parameter>, shadow: Seq<Parameter>) -> Seq<FieldView>
    decreases ps.len(),
{
    if ps.len() == 0 {
        acc
    } else {
        let before = add_params(acc, ps.drop_last(), shadow);
        let p = ps.last();
        if has_name(before, p.name@) || has_param_name(shadow, p.name@) {
            before
        } else {
            before.push(param_entry(p))
        }
    }
}

/// The parameters of a builder: path-wide parameters that no
/// operation-specific parameter overrides, then the operation-specific
/// ones; of equally named parameters in one list the first is kept.
pub open spec fn params_entries(global: Seq<Parameter>, local: Seq<Parameter>) -> Seq<FieldView> {
    add_params(add_params(Seq::empty(), global, local), local, Seq::empty())
}

/// The index of the entry with the given name, if any.
pub open spec fn name_index(acc: Seq<FieldView>, name: Seq<char>) -> Option<int>
    decreases acc.len(),
{
    if acc.len() == 0 {
        None
    } else {
        match name_index(acc.drop_last(), name) {
            Some(k) => Some(k),
            None => if acc.last().name == name { Some(acc.len() - 1) } else { None },
        }
    }
}

/// Adds the object fields `fs` in order. A field whose name is taken is not
/// added; when its type equals that of the entry holding the name, that
/// entry is marked as overridden.
pub open spec fn add_fields(acc: Seq<FieldView>, fs: Seq<ObjectField>, body_required: bool) -> Seq<FieldView>
    decreases fs.len(),
{
    if fs.len() == 0 {
        acc
    } else {
        let before = add_fields(acc, fs.drop_last(), body_required);
        let e = field_entry(fs.last(), body_required);
        match name_index(before, e.name) {
            Some(k) => if before[k].ty == e.ty {
                before.update(k, FieldView { overridden: true, ..before[k] })
            } else {
                before
            },
            None => before.push(e),
        }
    }
}

/// Whether all entries have distinct names.
pub open spec fn names_distinct(acc: Seq<FieldView>) -> bool {
    forall|i: int, j: int| 0 <= i < j < acc.len() ==> (#[trigger] acc[i]).name != (#[trigger] acc[j]).name
}

pub proof fn lemma_name_index(acc: Seq<FieldView>, name: Seq<char>)
    ensures
        name_index(acc, name) matches Some(k) ==> 0 <= k < acc.len() && acc[k].name == name,
        name_index(acc, name) is None <==> !has_name(acc, name),
    decreases acc.len(),
{
    if acc.len() > 0 {
        lemma_name_index(acc.drop_last(), name);
        if has_name(acc, name) {
            let k = choose|k: int| 0 <= k < acc.len() && (#[trigger] acc[k]).name == name;
            if k < acc.len() - 1 {
                assert(acc.drop_last()[k].name == name);
            }
        }
        if has_name(acc.drop_last(), name) {
            let k = choose|k: int| 0 <= k < acc.len() - 1 && (#[trigger] acc.drop_last()[k]).name == name;
            assert(acc[k].name == name);
        }
    }
}

proof fn lemma_add_params_distinct(acc: Seq<FieldView>, ps: Seq<Parameter>, shadow: Seq<Parameter>)
    requires
        names_distinct(acc),
    ensures
        names_distinct(add_params(acc, ps, shadow)),
        forall|k: int| 0 <= k < acc.len() ==> add_params(acc, ps, shadow)[k] == acc[k],
        add_params(acc, ps, shadow).len() >= acc.len(),
    decreases ps.len(),
{
    if ps.len() > 0 {
        lemma_add_params_distinct(acc, ps.drop_last(), shadow);
    }
}

proof fn lemma_add_fields_distinct(acc: Seq<FieldView>, fs: Seq<ObjectField>, body_required: bool)
    requires
        names_distinct(acc),
    ensures
        names_distinct(add_fields(acc, fs, body_required)),
    decreases fs.len(),
{
    if fs.len() > 0 {
        let before = add_fields(acc, fs.drop_last(), body_required);
        lemma_add_fields_distinct(acc, fs.drop_last(), body_required);
        let e = field_entry(fs.last(), body_required);
        lemma_name_index(before, e.name);
    }
}

impl<'a> ApiObjectBuilder<'a> {
    /// The struct fields of this builder, as `struct_fields_iter` yields them.
    pub open spec fn spec_struct_fields(self) -> Seq<FieldView> {
        add_fields(
            params_entries(self.global_params@, self.local_params@),
            self.fields@,
            self.body_required,
        )
    }
}

/// **Law.** The names of the struct fields of a builder are unique.
pub proof fn law_struct_field_names_unique(b: ApiObjectBuilder)
    ensures
        names_distinct(b.spec_struct_fields()),
{
    lemma_add_params_distinct(Seq::empty(), b.global_params@, b.local_params@);
    lemma_add_params_distinct(add_params(Seq::empty(), b.global_params@, b.local_params@), b.local_params@, Seq::empty());
    lemma_add_fields_distinct(params_entries(b.global_params@, b.local_params@), b.fields@, b.body_required);
}

/// Whether some object field has the given name.
pub open spec fn has_field_name(fs: Seq<ObjectField>, name: Seq<char>) -> bool {
    exists|k: int| 0 <= k < fs.len() && (#[trigger] fs[k]).name@ == name
}

proof fn lemma_add_params_cover(acc: Seq<FieldView>, ps: Seq<Parameter>, shadow: Seq<Parameter>)
    ensures
        add_params(acc, ps, shadow).len() >= acc.len(),
        forall|k: int| 0 <= k < acc.len() ==> add_params(acc, ps, shadow)[k] == acc[k],
        forall|k: int|
            acc.len() <= k < add_params(acc, ps, shadow).len() ==> (#[trigger] add_params(acc, ps, shadow)[k]).prop.spec_is_parameter()
                && has_param_name(ps, add_params(acc, ps, shadow)[k].name),
        forall|k: int|
            0 <= k < ps.len() ==> has_name(add_params(acc, ps, shadow), (#[trigger] ps[k]).name@)
                || has_param_name(shadow, ps[k].name@),
    decreases ps.len(),
{
    if ps.len() > 0 {
        let before = add_params(acc, ps.drop_last(), shadow);
        let r = add_params(acc, ps, shadow);
        let p = ps.last();
        lemma_add_params_cover(acc, ps.drop_last(), shadow);
        assert forall|k: int| acc.len() <= k < r.len() implies (#[trigger] r[k]).prop.spec_is_parameter()
            && has_param_name(ps, r[k].name) by {
            if k < before.len() {
                assert(r[k] == before[k]);
                let j = choose|j: int| 0 <= j < ps.drop_last().len() && (#[trigger] ps.drop_last()[j]).name@ == before[k].name;
                assert(ps[j] == ps.drop_last()[j]);
            } else {
                assert(r[k] == param_entry(p));
                assert(ps[ps.len() - 1] == p);
            }
        }
        assert forall|k: int| 0 <= k < ps.len() implies has_name(r, (#[trigger] ps[k]).name@)
            || has_param_name(shadow, ps[k].name@) by {
            if k < ps.len() - 1 {
                assert(ps[k] == ps.drop_last()[k]);
                if has_name(before, ps[k].name@) {
                    let j = choose|j: int| 0 <= j < before.len() && (#[trigger] before[j]).name == ps[k].name@;
                    assert(r[j] == before[j]);
                }
            } else if !(has_name(before, p.name@) || has_param_name(shadow, p.name@)) {
                assert(r[r.len() - 1] == param_entry(p));
            } else if has_name(before, p.name@) {
                assert(r == before);
            }
        }
    }
}

proof fn lemma_add_fields_cover(acc: Seq<FieldView>, fs: Seq<ObjectField>, body_required: bool)
    ensures
        add_fields(acc, fs, body_required).len() >= acc.len(),
        forall|k: int|
            0 <= k < acc.len() ==> (#[trigger] add_fields(acc, fs, body_required)[k]).name == acc[k].name
                && add_fields(acc, fs, body_required)[k].prop == acc[k].prop,
        forall|k: int|
            acc.len() <= k < add_fields(acc, fs, body_required).len() ==> (#[trigger] add_fields(
                acc,
                fs,
                body_required,
            )[k]).prop.spec_is_field() && has_field_name(fs, add_fields(acc, fs, body_required)[k].name),
        forall|k: int| 0 <= k < fs.len() ==> has_name(add_fields(acc, fs, body_required), (#[trigger] fs[k]).name@),
        forall|n: Seq<char>| has_name(acc, n) ==> has_name(add_fields(acc, fs, body_required), n),
    decreases fs.len(),
{
    if fs.len() > 0 {
        let before = add_fields(acc, fs.drop_last(), body_required);
        let r = add_fields(acc, fs, body_required);
        let e = field_entry(fs.last(), body_required);
        lemma_add_fields_cover(acc, fs.drop_last(), body_required);
        lemma_name_index(before, e.name);
        assert(r.len() >= before.len());
        assert(forall|k: int| 0 <= k < before.len() ==> (#[trigger] r[k]).name == before[k].name && r[k].prop == before[k].prop);
        assert forall|k: int| 0 <= k < acc.len() implies (#[trigger] r[k]).name == acc[k].name && r[k].prop == acc[k].prop by {
            assert(r[k].name == before[k].name && r[k].prop == before[k].prop);
        }
        assert forall|k: int| acc.len() <= k < r.len() implies (#[trigger] r[k]).prop.spec_is_field()
            && has_field_name(fs, r[k].name) by {
            if k < before.len() {
                assert(r[k].name == before[k].name && r[k].prop == before[k].prop);
                assert(before[k].prop.spec_is_field() && has_field_name(fs.drop_last(), before[k].name));
                let j = choose|j: int| 0 <= j < fs.drop_last().len() && (#[trigger] fs.drop_last()[j]).name@ == before[k].name;
                assert(fs[j] == fs.drop_last()[j]);
            } else {
                assert(r[k] == e);
                assert(fs[fs.len() - 1] == fs.last());
            }
        }
        assert forall|n: Seq<char>| has_name(before, n) implies has_name(r, n) by {
            let j = choose|j: int| 0 <= j < before.len() && (#[trigger] before[j]).name == n;
            assert(r[j].name == before[j].name);
        }
        assert forall|k: int| 0 <= k < fs.len() implies has_name(r, (#[trigger] fs[k]).name@) by {
            if k < fs.len() - 1 {
                assert(fs[k] == fs.drop_last()[k]);
                assert(has_name(before, fs.drop_last()[k].name@));
            } else {
                match name_index(before, e.name) {
                    Some(j) => {
                        assert(has_name(before, e.name));
                    },
                    None => {
                        assert(r[r.len() - 1] == e);
                    },
                }
            }
        }
    }
}

/// **Law.** The struct fields of a builder are its parameters followed by
/// its object fields: each parameter (path-wide or operation-specific) and
/// each object field has an entry of its name; the first entries are those
/// of `params_entries`, in order, each a parameter named after one of the
/// parameters; the rest are fields, each named after an object field.
pub proof fn law_struct_fields_params_then_fields(b: ApiObjectBuilder)
    ensures
        b.spec_struct_fields().len() >= params_entries(b.global_params@, b.local_params@).len(),
        forall|k: int|
            0 <= k < params_entries(b.global_params@, b.local_params@).len() ==> (#[trigger] b.spec_struct_fields()[k]).name
                == params_entries(b.global_params@, b.local_params@)[k].name
                && b.spec_struct_fields()[k].prop.spec_is_parameter()
                && (has_param_name(b.global_params@, b.spec_struct_fields()[k].name)
                || has_param_name(b.local_params@, b.spec_struct_fields()[k].name)),
        forall|k: int|
            params_entries(b.global_params@, b.local_params@).len() <= k < b.spec_struct_fields().len()
                ==> (#[trigger] b.spec_struct_fields()[k]).prop.spec_is_field()
                && has_field_name(b.fields@, b.spec_struct_fields()[k].name),
        forall|k: int| 0 <= k < b.global_params@.len() ==> has_name(b.spec_struct_fields(), (#[trigger] b.global_params@[k]).name@),
        forall|k: int| 0 <= k < b.local_params@.len() ==> has_name(b.spec_struct_fields(), (#[trigger] b.local_params@[k]).name@),
        forall|k: int| 0 <= k < b.fields@.len() ==> has_name(b.spec_struct_fields(), (#[trigger] b.fields@[k]).name@),
{
    let g = b.global_params@;
    let l = b.local_params@;
    let a1 = add_params(Seq::empty(), g, l);
    let ps = params_entries(g, l);
    let es = b.spec_struct_fields();
    lemma_add_params_cover(Seq::empty(), g, l);
    lemma_add_params_cover(a1, l, Seq::empty());
    lemma_add_fields_cover(ps, b.fields@, b.body_required);
    assert forall|k: int| 0 <= k < ps.len() implies (#[trigger] es[k]).name == ps[k].name && es[k].prop.spec_is_parameter()
        && (has_param_name(g, es[k].name) || has_param_name(l, es[k].name)) by {
        if k < a1.len() {
            assert(ps[k] == a1[k]);
        }
    }
    assert forall|k: int| 0 <= k < g.len() implies has_name(es, (#[trigger] g[k]).name@) by {
        if has_name(a1, g[k].name@) {
            let j = choose|j: int| 0 <= j < a1.len() && (#[trigger] a1[j]).name == g[k].name@;
            assert(ps[j] == a1[j]);
            assert(has_name(ps, g[k].name@));
        } else {
            assert(has_param_name(l, g[k].name@));
            let j = choose|j: int| 0 <= j < l.len() && (#[trigger] l[j]).name@ == g[k].name@;
            assert(has_name(ps, l[j].name@) || has_param_name(Seq::<Parameter>::empty(), l[j].name@));
        }
    }
    assert forall|k: int| 0 <= k < l.len() implies has_name(es, (#[trigger] l[k]).name@) by {
        assert(has_name(ps, l[k].name@) || has_param_name(Seq::<Parameter>::empty(), l[k].name@));
    }
}

/// Whether some object field has the given name and type.
pub open spec fn has_field_typed(fs: Seq<ObjectField>, name: Seq<char>, ty: Seq<char>) -> bool {
    exists|k: int| 0 <= k < fs.len() && (#[trigger] fs[k]).name@ == name && fs[k].ty_path@ == ty
}

proof fn lemma_add_params_from(acc: Seq<FieldView>, ps: Seq<Parameter>, shadow: Seq<Parameter>)
    ensures
        forall|k: int|
            acc.len() <= k < add_params(acc, ps, shadow).len() ==> exists|j: int|
                0 <= j < ps.len() && ps[j].name@ == (#[trigger] add_params(acc, ps, shadow)[k]).name
                    && add_params(acc, ps, shadow)[k] == param_entry(ps[j]),
        forall|k: int|
            acc.len() <= k < add_params(acc, ps, shadow).len() ==> !has_param_name(
                shadow,
                (#[trigger] add_params(acc, ps, shadow)[k]).name,
            ),
    decreases ps.len(),
{
    lemma_add_params_cover(acc, ps, shadow);
    if ps.len() > 0 {
        let before = add_params(acc, ps.drop_last(), shadow);
        let r = add_params(acc, ps, shadow);
        lemma_add_params_from(acc, ps.drop_last(), shadow);
        lemma_add_params_cover(acc, ps.drop_last(), shadow);
        assert forall|k: int| acc.len() <= k < r.len() implies exists|j: int|
            0 <= j < ps.len() && ps[j].name@ == (#[trigger] r[k]).name && r[k] == param_entry(ps[j]) by {
            if k < before.len() {
                assert(r[k] == before[k]);
                let j = choose|j: int|
                    0 <= j < ps.drop_last().len() && ps.drop_last()[j].name@ == before[k].name && before[k]
                        == param_entry(ps.drop_last()[j]);
                assert(ps[j] == ps.drop_last()[j]);
            } else {
                assert(ps[ps.len() - 1] == ps.last());
            }
        }
        assert forall|k: int| acc.len() <= k < r.len() implies !has_param_name(shadow, (#[trigger] r[k]).name) by {
            if k < before.len() {
                assert(r[k] == before[k]);
            }
        }
    }
}

proof fn lemma_add_fields_keep(acc: Seq<FieldView>, fs: Seq<ObjectField>, body_required: bool)
    requires
        names_distinct(acc),
    ensures
        forall|k: int|
            0 <= k < acc.len() ==> {
                let e = #[trigger] add_fields(acc, fs, body_required)[k];
                &&& e.name == acc[k].name
                &&& e.ty == acc[k].ty
                &&& e.prop == acc[k].prop
                &&& e.overridden == (acc[k].overridden || has_field_typed(fs, acc[k].name, acc[k].ty))
            },
    decreases fs.len(),
{
    lemma_add_fields_cover(acc, fs, body_required);
    if fs.len() > 0 {
        let before = add_fields(acc, fs.drop_last(), body_required);
        let r = add_fields(acc, fs, body_required);
        let e = field_entry(fs.last(), body_required);
        lemma_add_fields_keep(acc, fs.drop_last(), body_required);
        lemma_add_fields_distinct(acc, fs.drop_last(), body_required);
        lemma_add_fields_cover(acc, fs.drop_last(), body_required);
        lemma_name_index(before, e.name);
        assert forall|k: int| 0 <= k < acc.len() implies {
            let x = #[trigger] r[k];
            &&& x.name == acc[k].name
            &&& x.ty == acc[k].ty
            &&& x.prop == acc[k].prop
            &&& x.overridden == (acc[k].overridden || has_field_typed(fs, acc[k].name, acc[k].ty))
        } by {
            let old_has = has_field_typed(fs.drop_last(), acc[k].name, acc[k].ty);
            let last_matches = fs.last().name@ == acc[k].name && fs.last().ty_path@ == acc[k].ty;
            if old_has {
                let j = choose|j: int|
                    0 <= j < fs.drop_last().len() && (#[trigger] fs.drop_last()[j]).name@ == acc[k].name
                        && fs.drop_last()[j].ty_path@ == acc[k].ty;
                assert(fs[j] == fs.drop_last()[j]);
            }
            if last_matches {
                assert(fs[fs.len() - 1] == fs.last());
            }
            if has_field_typed(fs, acc[k].name, acc[k].ty) && !last_matches {
                let j = choose|j: int| 0 <= j < fs.len() && (#[trigger] fs[j]).name@ == acc[k].name && fs[j].ty_path@
                    == acc[k].ty;
                if j < fs.len() - 1 {
                    assert(fs.drop_last()[j] == fs[j]);
                }
            }
            match name_index(before, e.name) {
                Some(j) => {
                    if j != k && before[k].name == e.name {
                        assert(false);
                    }
                },
                None => {
                    if before[k].name == e.name {
                        assert(has_name(before, e.name));
                    }
                },
            }
        }
    }
}

/// **Law.** An operation's own parameter takes the place of a path-wide
/// parameter of the same name: an entry named as some operation-specific
/// parameter is the entry of such a parameter, and any other parameter
/// entry is that of a path-wide parameter. An object field named as a
/// parameter leaves the parameter's entry in place, marked as overridden
/// exactly when some field of that name has the parameter's type.
pub proof fn law_struct_fields_override(b: ApiObjectBuilder)
    ensures
        forall|k: int|
            0 <= k < params_entries(b.global_params@, b.local_params@).len() ==> {
                let p = #[trigger] params_entries(b.global_params@, b.local_params@)[k];
                &&& has_param_name(b.local_params@, p.name) ==> exists|j: int|
                    0 <= j < b.local_params@.len() && b.local_params@[j].name@ == p.name && p == param_entry(
                        b.local_params@[j],
                    )
                &&& !has_param_name(b.local_params@, p.name) ==> exists|j: int|
                    0 <= j < b.global_params@.len() && b.global_params@[j].name@ == p.name && p == param_entry(
                        b.global_params@[j],
                    )
            },
        forall|k: int|
            0 <= k < params_entries(b.global_params@, b.local_params@).len() ==> {
                let p = params_entries(b.global_params@, b.local_params@)[k];
                let e = #[trigger] b.spec_struct_fields()[k];
                &&& e.name == p.name
                &&& e.ty == p.ty
                &&& e.prop == p.prop
                &&& e.overridden == has_field_typed(b.fields@, p.name, p.ty)
            },
{
    let g = b.global_params@;
    let l = b.local_params@;
    let a1 = add_params(Seq::empty(), g, l);
    let ps = params_entries(g, l);
    lemma_add_params_from(Seq::empty(), g, l);
    lemma_add_params_from(a1, l, Seq::empty());
    lemma_add_params_cover(a1, l, Seq::empty());
    law_struct_field_names_unique(b);
    lemma_add_params_distinct(Seq::empty(), g, l);
    lemma_add_params_distinct(a1, l, Seq::empty());
    lemma_add_fields_keep(ps, b.fields@, b.body_required);
    assert forall|k: int| 0 <= k < ps.len() implies {
        let p = #[trigger] ps[k];
        &&& has_param_name(l, p.name) ==> exists|j: int| 0 <= j < l.len() && l[j].name@ == p.name && p == param_entry(l[j])
        &&& !has_param_name(l, p.name) ==> exists|j: int| 0 <= j < g.len() && g[j].name@ == p.name && p == param_entry(g[j])
    } by {
        if k < a1.len() {
            assert(ps[k] == a1[k]);
            let j = choose|j: int| 0 <= j < g.len() && g[j].name@ == a1[k].name && a1[k] == param_entry(g[j]);
            assert(!has_param_name(l, a1[k].name));
        } else {
            let j = choose|j: int| 0 <= j < l.len() && l[j].name@ == ps[k].name && ps[k] == param_entry(l[j]);
            assert(has_param_name(l, ps[k].name));
        }
    }
    assert forall|k: int| 0 <= k < ps.len() implies !(#[trigger] ps[k]).overridden by {
        if k < a1.len() {
            assert(ps[k] == a1[k]);
            let j = choose|j: int| 0 <= j < g.len() && g[j].name@ == a1[k].name && a1[k] == param_entry(g[j]);
        } else {
            let j = choose|j: int| 0 <= j < l.len() && l[j].name@ == ps[k].name && ps[k] == param_entry(l[j]);
        }
    }
}

/// Compares two string slices (`==` on `str`): equal exactly when their
/// contents are.
#[verifier::external_body]
pub(crate) fn str_eq(a: &str, b: &str) -> (r: bool)
    ensures
        r == (a@ == b@),
{
    a == b
}

/// Whether some entry of `out` has the given name; its index if so.
fn find_entry<'a>(out: &Vec<StructField<'a>>, name: &str) -> (r: Option<usize>)
    ensures
        r matches Some(k) ==> name_index(field_views(out@), name@) == Some(k as int),
        r is None ==> name_index(field_views(out@), name@) is None,
{
    let ghost views = field_views(out@);
    proof {
        lemma_name_index(views, name@);
    }
    let mut i: usize = 0;
    while i < out.len()
        invariant
            i <= out@.len(),
            views == field_views(out@),
            forall|j: int| 0 <= j < i ==> (#[trigger] views[j]).name != name@,
            name_index(views, name@) matches Some(k) ==> 0 <= k < views.len() && views[k].name == name@,
            name_index(views, name@) is None <==> !has_name(views, name@),
        decreases out.len() - i,
    {
        if str_eq(out[i].name, name) {
            proof {
                assert(views[i as int].name == name@);
                assert(has_name(views, name@));
                let k = name_index(views, name@)->0;
                if k != i {
                    lemma_name_index_first(views, name@);
                }
            }
            return Some(i);
        }
        i = i + 1;
    }
    proof {
        if has_name(views, name@) {
            let k = choose|k: int| 0 <= k < views.len() && (#[trigger] views[k]).name == name@;
            assert(views[k].name != name@);
        }
    }
    None
}

proof fn lemma_name_index_first(acc: Seq<FieldView>, name: Seq<char>)
    ensures
        name_index(acc, name) matches Some(k) ==> forall|j: int| 0 <= j < k ==> (#[trigger] acc[j]).name != name,
    decreases acc.len(),
{
    if acc.len() > 0 {
        lemma_name_index_first(acc.drop_last(), name);
        lemma_name_index(acc.drop_last(), name);
        if name_index(acc.drop_last(), name) is None {
            assert forall|j: int| 0 <= j < acc.len() - 1 implies (#[trigger] acc[j]).name != name by {
                assert(acc.drop_last()[j] == acc[j]);
            }
        } else {
            let k = name_index(acc.drop_last(), name)->0;
            assert forall|j: int| 0 <= j < k implies (#[trigger] acc[j]).name != name by {
                assert(acc.drop_last()[j] == acc[j]);
            }
        }
    }
}

/// Whether some parameter in `ps` has the given name.
fn params_have_name(ps: &[Parameter], name: &str) -> (r: bool)
    ensures
        r == has_param_name(ps@, name@),
{
    let mut i: usize = 0;
    while i < ps.len()
        invariant
            i <= ps@.len(),
            forall|j: int| 0 <= j < i ==> (#[trigger] ps@[j]).name@ != name@,
        decreases ps.len() - i,
    {
        if str_eq(ps[i].name.as_str(), name) {
            return true;
        }
        i = i + 1;
    }
    false
}

/// The struct-field entry for a parameter.
fn param_field<'a>(p: &'a Parameter) -> (r: StructField<'a>)
    ensures
        r@ == param_entry(*p),
{
    let r = StructField {
        name: p.name.as_str(),
        ty: p.ty_path.as_str(),
        prop: if p.required { Property::RequiredParam } else { Property::OptionalParam },
        desc: opt_as_str(&p.description),
        strict_children: &[],
        param_loc: Some(p.presence),
        overridden: false,
        delimiting: p.delimiting.as_slice(),
    };
    assert(r@.strict_children =~= Seq::<Seq<char>>::empty());
    r
}

/// Appends the parameters of `ps` (see `add_params`).
fn push_params<'a>(out: &mut Vec<StructField<'a>>, ps: &'a [Parameter], shadow: &'a [Parameter])
    ensures
        field_views(final(out)@) == add_params(field_views(old(out)@), ps@, shadow@),
{
    let ghost start = field_views(out@);
    let mut i: usize = 0;
    assert(ps@.take(0) =~= Seq::<Parameter>::empty());
    while i < ps.len()
        invariant
            i <= ps@.len(),
            field_views(out@) == add_params(start, ps@.take(i as int), shadow@),
        decreases ps.len() - i,
    {
        let p = &ps[i];
        assert(ps@.take(i + 1).drop_last() =~= ps@.take(i as int));
        let found = find_entry(out, p.name.as_str());
        proof {
            lemma_name_index(field_views(out@), p.name@);
        }
        let shadowed = params_have_name(shadow, p.name.as_str());
        if found.is_none() && !shadowed {
            let e = param_field(p);
            let ghost before = out@;
            out.push(e);
            assert(field_views(out@) =~= field_views(before).push(e@));
        }
        i = i + 1;
    }
    assert(ps@.take(ps@.len() as int) =~= ps@);
}

impl<'a> ApiObjectBuilder<'a> {
    /// Returns all fields and parameters required for the Rust builder struct.
    ///
    /// **NOTE:** The names yielded are unique for a builder. If there's a
    /// collision between a path-specific parameter and an operation-specific
    /// parameter, then the latter overrides the former. If there's a
    /// collision between a field and a parameter, then the latter overrides
    /// the former.
    pub fn struct_fields_iter(&self) -> (r: Vec<StructField<'a>>)
        ensures
            field_views(r@) == self.spec_struct_fields(),
    {
        let mut out: Vec<StructField<'a>> = Vec::new();
        assert(field_views(out@) =~= Seq::<FieldView>::empty());
        push_params(&mut out, self.global_params, self.local_params);
        let no_params: &[Parameter] = &[];
        push_params(&mut out, self.local_params, no_params);
        assert(no_params@ =~= Seq::<Parameter>::empty());
        let ghost start = field_views(out@);
        assert(start == params_entries(self.global_params@, self.local_params@));
        let fs = self.fields;
        let body_required = self.body_required;
        let mut i: usize = 0;
        assert(fs@.take(0) =~= Seq::<ObjectField>::empty());
        while i < fs.len()
            invariant
                i <= fs@.len(),
                fs@ == self.fields@,
                body_required == self.body_required,
                field_views(out@) == add_fields(start, fs@.take(i as int), body_required),
            decreases fs.len() - i,
        {
            let f = &fs[i];
            let ghost prev = field_views(out@);
            assert(fs@.take(i + 1).drop_last() =~= fs@.take(i as int));
            assert(fs@.take(i + 1).last() == fs@[i as int]);
            let e = StructField {
                name: f.name.as_str(),
                ty: f.ty_path.as_str(),
                prop: if body_required && f.is_required {
                    Property::RequiredField
                } else {
                    Property::OptionalField
                },
                desc: opt_as_str(&f.description),
                strict_children: f.children_req.as_slice(),
                param_loc: None,
                overridden: false,
                delimiting: &[],
            };
            assert(e@.delimiting =~= Seq::<CollectionFormat>::empty());
            assert(e@ == field_entry(*f, body_required));
            let found = find_entry(&out, e.name);
            proof {
                lemma_name_index(field_views(out@), e.name@);
            }
            match found {
                Some(k) => {
                    assert(prev[k as int] == out@[k as int]@);
                    if str_eq(out[k].ty, e.ty) {
                        let mut old_entry = out[k];
                        old_entry.overridden = true;
                        let ghost before = out@;
                        out.set(k, old_entry);
                        assert(field_views(out@) =~= field_views(before).update(
                            k as int,
                            FieldView { overridden: true, ..field_views(before)[k as int] },
                        ));
                        assert(field_views(out@) == add_fields(start, fs@.take(i + 1), body_required));
                    } else {
                        assert(prev[k as int].ty != e@.ty);
                        assert(name_index(prev, e@.name) == Some(k as int));
                        assert(field_views(out@) == prev);
                        assert(field_views(out@) == add_fields(start, fs@.take(i + 1), body_required));
                    }
                },
                None => {
                    let ghost before = out@;
                    out.push(e);
                    assert(field_views(out@) =~= field_views(before).push(e@));
                    assert(field_views(out@) == add_fields(start, fs@.take(i + 1), body_required));
                },
            }
            i = i + 1;
        }
        assert(fs@.take(fs@.len() as int) =~= fs@);
        out
    }
}


/* ---------------------------------------------------------------------- */
/* Objects and their builders                                             */
/* ---------------------------------------------------------------------- */

/// The (path index, operation index) pairs of all operations of `paths`,
/// path by path and, within a path, in order.
pub open spec fn ops_flat(paths: Seq<(String, PathOps)>) -> Seq<(int, int)>
    decreases paths.len(),
{
    if paths.len() == 0 {
        Seq::empty()
    } else {
        let i = paths.len() - 1;
        ops_flat(paths.drop_last()) + Seq::new(paths.last().1.req@.len(), |j: int| (i, j))
    }
}

/// The builder that every object gets, whatever its operations.
pub open spec fn is_main_builder(b: ApiObjectBuilder, obj: ApiObject, prefix: Seq<char>) -> bool {
    &&& b.idx == 0
    &&& !b.is_list_op
    &&& !b.multiple_builders_exist
    &&& b.rel_path is None
    &&& b.helper_module_prefix@ == prefix
    &&& b.op_id is None
    &&& b.method is None
    &&& b.description is None
    &&& b.object@ == obj.name@
    &&& b.body_required
    &&& b.fields@ == obj.fields@
    &&& b.global_params@.len() == 0
    &&& b.local_params@.len() == 0
    &&& b.response is None
}

/// The builder for operation `j` of path `i` of the object.
pub open spec fn is_op_builder(b: ApiObjectBuilder, obj: ApiObject, prefix: Seq<char>, i: int, j: int) -> bool {
    let path = obj.paths@[i].0;
    let ops = obj.paths@[i].1;
    let method = ops.req@[j].0;
    let req = ops.req@[j].1;
    &&& b.idx as int == i
    &&& b.is_list_op == req.listable
    &&& b.multiple_builders_exist == (ops_flat(obj.paths@).len() >= 2)
    &&& opt_str_view(b.rel_path) == Some(path@)
    &&& b.helper_module_prefix@ == prefix
    &&& opt_str_view(b.op_id) == opt_string_view(req.id)
    &&& b.method == Some(method)
    &&& opt_str_view(b.description) == opt_string_view(req.description)
    &&& b.object@ == obj.name@
    &&& b.body_required == req.body_required
    &&& b.fields@ == obj.fields@
    &&& b.global_params@ == ops.params@
    &&& b.local_params@ == req.params@
    &&& opt_str_view(b.response) == opt_string_view(req.response_ty_path)
}

/// Whether the object has at least two operations (capped count).
fn has_two_ops(paths: &Vec<(String, PathOps)>) -> (r: bool)
    ensures
        r == (ops_flat(paths@).len() >= 2),
{
    let mut n: usize = 0;
    let mut i: usize = 0;
    assert(paths@.take(0) =~= Seq::<(String, PathOps)>::empty());
    while i < paths.len()
        invariant
            i <= paths@.len(),
            n == (if ops_flat(paths@.take(i as int)).len() >= 2 { 2 } else { ops_flat(paths@.take(i as int)).len() }),
        decreases paths.len() - i,
    {
        let len = paths[i].1.req.len();
        assert(paths@.take(i + 1).drop_last() =~= paths@.take(i as int));
        if len >= 2 - n {
            n = 2;
        } else {
            n = n + len;
        }
        i = i + 1;
    }
    assert(paths@.take(paths@.len() as int) =~= paths@);
    n >= 2
}

impl ApiObject {
    /// Create an object with the given name.
    pub fn with_name(name: &str) -> (r: ApiObject)
        ensures
            r.name@ == name@,
            r.description is None,
            r.path@.len() == 0,
            r.fields@.len() == 0,
            r.paths@.len() == 0,
    {
        ApiObject {
            name: name.to_owned(),
            description: None,
            // NOTE: Even though `path` is empty, it'll be replaced by the emitter.
            path: String::new(),
            fields: Vec::new(),
            paths: Vec::new(),
        }
    }

    /// Returns the builders for this object.
    ///
    /// Each builder is bound to an operation in a path. If the object is not
    /// bound to any operation, then the builder only keeps track of the
    /// fields. A builder for the object itself always comes first.
    pub fn builders<'a>(&'a self, helper_module_prefix: &'a str) -> (r: Vec<ApiObjectBuilder<'a>>)
        ensures
            r@.len() == 1 + ops_flat(self.paths@).len(),
            is_main_builder(r@[0], *self, helper_module_prefix@),
            forall|k: int|
                0 <= k < ops_flat(self.paths@).len() ==> is_op_builder(
                    #[trigger] r@[k + 1],
                    *self,
                    helper_module_prefix@,
                    ops_flat(self.paths@)[k].0,
                    ops_flat(self.paths@)[k].1,
                ),
    {
        let no_params: &'a [Parameter] = &[];
        let main_builder = ApiObjectBuilder {
            idx: 0,
            is_list_op: false,
            multiple_builders_exist: false,
            rel_path: None,
            helper_module_prefix,
            op_id: None,
            method: None,
            description: None,
            object: self.name.as_str(),
            body_required: true,
            fields: self.fields.as_slice(),
            global_params: no_params,
            local_params: no_params,
            response: None,
        };
        let multiple = has_two_ops(&self.paths);
        let mut r: Vec<ApiObjectBuilder<'a>> = Vec::new();
        r.push(main_builder);
        let mut i: usize = 0;
        assert(self.paths@.take(0) =~= Seq::<(String, PathOps)>::empty());
        while i < self.paths.len()
            invariant
                i <= self.paths@.len(),
                multiple == (ops_flat(self.paths@).len() >= 2),
                r@.len() == 1 + ops_flat(self.paths@.take(i as int)).len(),
                is_main_builder(r@[0], *self, helper_module_prefix@),
                forall|k: int|
                    0 <= k < ops_flat(self.paths@.take(i as int)).len() ==> is_op_builder(
                        #[trigger] r@[k + 1],
                        *self,
                        helper_module_prefix@,
                        ops_flat(self.paths@.take(i as int))[k].0,
                        ops_flat(self.paths@.take(i as int))[k].1,
                    ),
            decreases self.paths.len() - i,
        {
            let path = &self.paths[i].0;
            let ops = &self.paths[i].1;
            let ghost base = ops_flat(self.paths@.take(i as int));
            assert(self.paths@.take(i + 1).drop_last() =~= self.paths@.take(i as int));
            let mut j: usize = 0;
            while j < ops.req.len()
                invariant
                    i < self.paths@.len(),
                    j <= ops.req@.len(),
                    *ops == self.paths@[i as int].1,
                    *path == self.paths@[i as int].0,
                    multiple == (ops_flat(self.paths@).len() >= 2),
                    base == ops_flat(self.paths@.take(i as int)),
                    r@.len() == 1 + base.len() + j,
                    is_main_builder(r@[0], *self, helper_module_prefix@),
                    forall|k: int|
                        0 <= k < base.len() ==> is_op_builder(
                            #[trigger] r@[k + 1],
                            *self,
                            helper_module_prefix@,
                            base[k].0,
                            base[k].1,
                        ),
                    forall|k: int|
                        0 <= k < j ==> is_op_builder(
                            #[trigger] r@[base.len() + k + 1],
                            *self,
                            helper_module_prefix@,
                            i as int,
                            k,
                        ),
                decreases ops.req.len() - j,
            {
                let method = ops.req[j].0;
                let req = &ops.req[j].1;
                let b = ApiObjectBuilder {
                    idx: i,
                    is_list_op: req.listable,
                    multiple_builders_exist: multiple,
                    helper_module_prefix,
                    rel_path: Some(path.as_str()),
                    description: opt_as_str(&req.description),
                    object: self.name.as_str(),
                    op_id: opt_as_str(&req.id),
                    method: Some(method),
                    body_required: req.body_required,
                    fields: self.fields.as_slice(),
                    global_params: ops.params.as_slice(),
                    local_params: req.params.as_slice(),
                    response: opt_as_str(&req.response_ty_path),
                };
                r.push(b);
                proof {
                    assert(is_op_builder(r@[base.len() + j + 1], *self, helper_module_prefix@, i as int, j as int));
                }
                j = j + 1;
            }
            proof {
                let next = ops_flat(self.paths@.take(i + 1));
                assert(next =~= base + Seq::new(ops.req@.len(), |jj: int| (i as int, jj)));
                assert forall|k: int| 0 <= k < next.len() implies is_op_builder(
                    #[trigger] r@[k + 1],
                    *self,
                    helper_module_prefix@,
                    next[k].0,
                    next[k].1,
                ) by {
                    if k >= base.len() {
                        assert(r@[k + 1] == r@[base.len() + (k - base.len()) + 1]);
                    }
                }
            }
            i = i + 1;
        }
        assert(self.paths@.take(self.paths@.len() as int) =~= self.paths@);
        r
    }
}

impl<'a> ApiObjectBuilder<'a> {
    /// Name of the constructor function, as `con_fn_name` computes it.
    pub open spec fn spec_con_fn_name(self) -> Option<Seq<char>> {
        if self.method is Some && !self.multiple_builders_exist {
            // If there's a method and we *don't* have any collisions
            // (i.e., two or more paths for same object), then we default
            // to using the method ...
            Some(snake_case_of(self.method->0.spec_name()))
        } else if self.op_id is Some {
            // If there's an operation ID, then we go for that ...
            Some(snake_case_of(self.op_id->0@))
        } else if self.method is Some {
            // If there's a method, then we go for numbered functions ...
            Some(snake_case_of(self.method->0.spec_name()) + if self.idx > 0 {
                seq!['_'] + decimal(self.idx as nat)
            } else {
                Seq::empty()
            })
        } else {
            None
        }
    }

    /// Name of the constructor function which creates this builder.
    pub fn con_fn_name(&self) -> (r: Option<String>)
        ensures
            opt_string_view(r) == self.spec_con_fn_name(),
    {
        match (self.op_id, self.method) {
            (_, Some(meth)) if !self.multiple_builders_exist => {
                Some(to_snake_case(meth.name()))
            },
            (Some(id), _) => Some(to_snake_case(id)),
            (_, Some(meth)) => {
                let mut name = to_snake_case(meth.name());
                let ghost snake = name@;
                if self.idx > 0 {
                    crate::text::push_char(&mut name, '_');
                    push_decimal(&mut name, self.idx);
                    assert(name@ =~= snake + (seq!['_'] + decimal(self.idx as nat)));
                } else {
                    assert(name@ =~= snake + Seq::<char>::empty());
                }
                Some(name)
            },
            _ => None,
        }
    }

    /// Whether a separate container is needed for the builder struct.
    pub open spec fn spec_needs_container(self) -> bool {
        (exists|k: int| 0 <= k < self.local_params@.len() && (#[trigger] self.local_params@[k]).required)
            || (exists|k: int| 0 <= k < self.global_params@.len() && (#[trigger] self.global_params@[k]).required)
            || (self.body_required
                && (exists|k: int| 0 <= k < self.fields@.len() && (#[trigger] self.fields@[k]).is_required)
                && self.local_params@.len() > 0
                && self.global_params@.len() > 0)
    }

    /// Returns whether a separate container is needed for the builder struct.
    pub fn needs_container(&self) -> (r: bool)
        ensures
            r == self.spec_needs_container(),
    {
        any_required_param(self.local_params) || any_required_param(self.global_params)
            || (self.body_required && any_required_field(self.fields)
            && self.local_params.len() > 0 && self.global_params.len() > 0)
    }

    /// Whether the builder has at least one parameter or required entry.
    pub open spec fn spec_has_atleast_one_field(self) -> bool {
        exists|k: int|
            0 <= k < self.spec_struct_fields().len() && ((#[trigger] self.spec_struct_fields()[k]).prop.spec_is_parameter()
                || self.spec_struct_fields()[k].prop.spec_is_required())
    }

    /// Returns whether this builder will have at least one field.
    pub fn has_atleast_one_field(&self) -> (r: bool)
        ensures
            r == self.spec_has_atleast_one_field(),
    {
        let fields = self.struct_fields_iter();
        let ghost views = field_views(fields@);
        let mut i: usize = 0;
        while i < fields.len()
            invariant
                i <= fields@.len(),
                views == field_views(fields@),
                views == self.spec_struct_fields(),
                forall|k: int|
                    0 <= k < i ==> !((#[trigger] views[k]).prop.spec_is_parameter() || views[k].prop.spec_is_required()),
            decreases fields.len() - i,
        {
            let p = fields[i].prop;
            assert(views[i as int].prop == p);
            if p.is_parameter() || p.is_required() {
                return true;
            }
            i = i + 1;
        }
        false
    }

    /// The builder's name, as `write_name` writes it.
    pub open spec fn spec_name(self) -> Seq<char> {
        self.object@ + (match self.method {
            Some(m) => m.spec_name(),
            None => Seq::empty(),
        }) + "Builder"@ + if self.idx > 0 {
            decimal(self.idx as nat)
        } else {
            Seq::empty()
        }
    }

    /// Write this builder's name into the given formatter.
    #[verifier::spinoff_prover]
    #[verifier::rlimit(40)]
    pub fn write_name(&self, f: &mut String)
        ensures
            final(f)@ == old(f)@ + self.spec_name(),
    {
        push_str(f, self.object);
        let ghost a = f@;
        if let Some(method) = self.method {
            push_str(f, method.name());
        }
        let ghost b = f@;
        push_str(f, "Builder");
        let ghost c = f@;
        if self.idx > 0 {
            push_decimal(f, self.idx);
        }
        assert(f@ =~= old(f)@ + self.spec_name());
    }

    /// The name of the builder's container.
    pub open spec fn spec_container_name(self) -> Seq<char> {
        self.spec_name() + "Container"@
    }

    /// Write this builder's container name into the given formatter.
    #[verifier::spinoff_prover]
    #[verifier::rlimit(40)]
    pub fn write_container_name(&self, f: &mut String)
        ensures
            final(f)@ == old(f)@ + self.spec_container_name(),
    {
        self.write_name(f);
        push_str(f, "Container");
        assert(f@ =~= old(f)@ + self.spec_container_name());
    }

    /// The body field, written when the body is required.
    pub open spec fn spec_body_field(self) -> Seq<char> {
        if self.body_required {
            "\n    body: self::"@ + self.object@ + ","@
        } else {
            Seq::empty()
        }
    }

    /// Writes the body field into the formatter if required.
    #[verifier::spinoff_prover]
    #[verifier::rlimit(40)]
    pub fn write_body_field_if_required(&self, f: &mut String)
        ensures
            final(f)@ == old(f)@ + self.spec_body_field(),
    {
        if self.body_required {
            // We address with 'self::' because it's possible for body type
            // to collide with type parameters (if any).
            push_str(f, "\n    body: self::");
            push_str(f, self.object);
            push_str(f, ",");
            assert(f@ =~= old(f)@ + self.spec_body_field());
        } else {
            assert(f@ =~= old(f)@ + self.spec_body_field());
        }
    }

    /// Writes the parameter into the formatter if required.
    #[verifier::spinoff_prover]
    #[verifier::rlimit(40)]
    pub fn write_parameter_if_required(&self, prop: Property, name: &str, ty: &str, f: &mut String)
        ensures
            final(f)@ == old(f)@ + parameter_text(prop, name@, ty@),
    {
        if prop.is_parameter() {
            push_str(f, "\n    param_");
            push_str(f, name);
            push_str(f, ": Option<");
            push_str(f, ty);
            push_str(f, ">,");
            assert(f@ =~= old(f)@ + parameter_text(prop, name@, ty@));
        } else {
            assert(f@ =~= old(f)@ + parameter_text(prop, name@, ty@));
        }
    }
}

/// The optional parameter slot written into a builder (or its container).
pub open spec fn parameter_text(prop: Property, name: Seq<char>, ty: Seq<char>) -> Seq<char> {
    if prop.spec_is_parameter() {
        "\n    param_"@ + name + ": Option<"@ + ty + ">,"@
    } else {
        Seq::empty()
    }
}

/// Whether some parameter is required.
fn any_required_param(ps: &[Parameter]) -> (r: bool)
    ensures
        r == exists|k: int| 0 <= k < ps@.len() && (#[trigger] ps@[k]).required,
{
    let mut i: usize = 0;
    while i < ps.len()
        invariant
            i <= ps@.len(),
            forall|k: int| 0 <= k < i ==> !(#[trigger] ps@[k]).required,
        decreases ps.len() - i,
    {
        if ps[i].required {
            return true;
        }
        i = i + 1;
    }
    false
}

/// Whether some field is required.
fn any_required_field(fs: &[ObjectField]) -> (r: bool)
    ensures
        r == exists|k: int| 0 <= k < fs@.len() && (#[trigger] fs@[k]).is_required,
{
    let mut i: usize = 0;
    while i < fs.len()
        invariant
            i <= fs@.len(),
            forall|k: int| 0 <= k < i ==> !(#[trigger] fs@[k]).is_required,
        decreases fs.len() - i,
    {
        if fs[i].is_required {
            return true;
        }
        i = i + 1;
    }
    false
}


/* ---------------------------------------------------------------------- */
/* Generics of a builder                                                  */
/* ---------------------------------------------------------------------- */

/// The required entries, in order.
pub open spec fn required_entries(s: Seq<FieldView>) -> Seq<FieldView>
    decreases s.len(),
{
    if s.len() == 0 {
        Seq::empty()
    } else {
        let r = required_entries(s.drop_last());
        if s.last().prop.spec_is_required() {
            r.push(s.last())
        } else {
            r
        }
    }
}

/// The type parameter written for a required entry.
pub open spec fn generic_item(e: FieldView, prefix: Seq<char>, params: ParamsMode) -> Seq<char> {
    match params {
        // If the name matches, then change that unit type to `{Name}Exists`
        ParamsMode::ChangeOne(n) => if e.name == n {
            prefix + "generics::"@ + camel_case_of(e.name) + "Exists"@
        } else {
            camel_case_of(e.name)
        },
        // All names should be changed to `{Name}Exists`
        ParamsMode::ChangeAll => prefix + "generics::"@ + camel_case_of(e.name) + "Exists"@,
        // All names should be reset to `Missing{Name}`
        ParamsMode::ReplaceAll => prefix + "generics::"@ + "Missing"@ + camel_case_of(e.name),
        ParamsMode::Generic => camel_case_of(e.name),
    }
}

/// The type parameters separated by `", "`.
pub open spec fn generic_items(req: Seq<FieldView>, prefix: Seq<char>, params: ParamsMode) -> Seq<char>
    decreases req.len(),
{
    if req.len() == 0 {
        Seq::empty()
    } else if req.len() == 1 {
        generic_item(req[0], prefix, params)
    } else {
        generic_items(req.drop_last(), prefix, params) + ", "@ + generic_item(req.last(), prefix, params)
    }
}

/// The generics list (`<...>`), empty when no entry is required.
pub open spec fn generics_text(fields: Seq<FieldView>, prefix: Seq<char>, params: ParamsMode) -> Seq<char> {
    let req = required_entries(fields);
    if req.len() == 0 {
        Seq::empty()
    } else {
        "<"@ + generic_items(req, prefix, params) + ">"@
    }
}

impl<'a> ApiObjectBuilder<'a> {
    /// The generics of this builder for the given mode.
    pub open spec fn spec_generics(self, params: ParamsMode) -> Seq<char> {
        generics_text(self.spec_struct_fields(), self.helper_module_prefix@, params)
    }

    /// The number of required entries (type parameters) of this builder.
    pub open spec fn spec_num_generics(self) -> nat {
        required_entries(self.spec_struct_fields()).len()
    }

    /// Writes one type parameter.
    #[verifier::spinoff_prover]
    #[verifier::rlimit(40)]
    fn write_generic_item(&self, e: &StructField, params: TypeParameters, f: &mut String)
        ensures
            final(f)@ == old(f)@ + generic_item(e@, self.helper_module_prefix@, params@),
    {
        let camel = to_camel_case(e.name);
        match params {
            TypeParameters::ChangeOne(n) => {
                if str_eq(e.name, n) {
                    push_str(f, self.helper_module_prefix);
                    push_str(f, "generics::");
                    push_str(f, camel.as_str());
                    push_str(f, "Exists");
                } else {
                    push_str(f, camel.as_str());
                }
            },
            TypeParameters::ChangeAll => {
                push_str(f, self.helper_module_prefix);
                push_str(f, "generics::");
                push_str(f, camel.as_str());
                push_str(f, "Exists");
            },
            TypeParameters::ReplaceAll => {
                push_str(f, self.helper_module_prefix);
                push_str(f, "generics::");
                push_str(f, "Missing");
                push_str(f, camel.as_str());
            },
            TypeParameters::Generic => {
                push_str(f, camel.as_str());
            },
        }
        assert(f@ =~= old(f)@ + generic_item(e@, self.helper_module_prefix@, params@));
    }

    /// Writes generic parameters, if needed.
    ///
    /// Also takes an enum to specify whether the one/all/none of the parameters
    /// should make use of actual types. Returns the number of parameters.
    #[verifier::spinoff_prover]
    #[verifier::rlimit(40)]
    pub fn write_generics_if_necessary(&self, f: &mut String, params: TypeParameters) -> (r: usize)
        ensures
            final(f)@ == old(f)@ + self.spec_generics(params@),
            r == self.spec_num_generics(),
    {
        let fields = self.struct_fields_iter();
        let ghost views = field_views(fields@);
        let mut num_generics: usize = 0;
        let mut i: usize = 0;
        assert(views.take(0) =~= Seq::<FieldView>::empty());
        while i < fields.len()
            invariant
                i <= fields@.len(),
                views == field_views(fields@),
                views == self.spec_struct_fields(),
                num_generics == required_entries(views.take(i as int)).len(),
                num_generics <= i,
                f@ == old(f)@ + if num_generics == 0 {
                    Seq::<char>::empty()
                } else {
                    "<"@ + generic_items(required_entries(views.take(i as int)), self.helper_module_prefix@, params@)
                },
            decreases fields.len() - i,
        {
            let e = fields[i];
            assert(views.take(i + 1).drop_last() =~= views.take(i as int));
            assert(views.take(i + 1).last() == e@);
            if e.prop.is_required() {
                let ghost before = f@;
                let ghost req = required_entries(views.take(i as int));
                if num_generics == 0 {
                    push_str(f, "<");
                } else {
                    push_str(f, ", ");
                }
                self.write_generic_item(&e, params, f);
                proof {
                    let req2 = required_entries(views.take(i + 1));
                    assert(req2 == req.push(e@));
                    assert(req2.drop_last() =~= req);
                    if num_generics == 0 {
                        assert(req2[0] == e@);
                    }
                    assert(f@ =~= old(f)@ + ("<"@ + generic_items(req2, self.helper_module_prefix@, params@)));
                }
                num_generics = num_generics + 1;
            }
            i = i + 1;
        }
        assert(views.take(fields@.len() as int) =~= views);
        if num_generics > 0 {
            push_str(f, ">");
        }
        assert(f@ =~= old(f)@ + self.spec_generics(params@));
        num_generics
    }
}

/* ---------------------------------------------------------------------- */
/* Documentation comments                                                 */
/* ---------------------------------------------------------------------- */

/// The pattern that selects the characters escaped in doc comments.
pub open spec fn doc_pattern() -> Seq<char> {
    "\\[|\\]"@
}

/// The replacement of each selected character: a backslash before it.
pub open spec fn doc_replacement() -> Seq<char> {
    "\\$0"@
}

/// Whether the doc-comment pattern compiles.
pub open spec fn doc_regex_ok() -> bool {
    regex_compiles(doc_pattern())
}

/// One line of documentation at the given indentation.
pub open spec fn doc_line(line: Seq<char>, indent: Seq<char>) -> Seq<char> {
    "\n"@ + indent + "///"@ + if line.len() == 0 {
        Seq::empty()
    } else {
        " "@ + trim_end(regex_replacement(doc_pattern(), line, doc_replacement()))
    }
}

/// The documentation lines, one after another.
pub open spec fn doc_lines(lines: Seq<Seq<char>>, indent: Seq<char>) -> Seq<char>
    decreases lines.len(),
{
    if lines.len() == 0 {
        Seq::empty()
    } else {
        doc_lines(lines.drop_last(), indent) + doc_line(lines.last(), indent)
    }
}

/// The documentation written for the given text (if any) at the given level.
pub open spec fn docs_text(stuff: Option<Seq<char>>, levels: nat) -> Seq<char> {
    match stuff {
        Some(d) => doc_lines(split_on(d, '\n'), spaces(levels * 4)) + "\n"@,
        None => Seq::empty(),
    }
}

/// Writes one line of documentation.
#[verifier::spinoff_prover]
#[verifier::rlimit(40)]
fn write_doc_line(line: &Vec<char>, f: &mut String, levels: usize) -> (r: Result<(), WriteError>)
    requires
        levels <= usize::MAX / 4,
    ensures
        r is Err ==> !doc_regex_ok(),
        doc_regex_ok() ==> r is Ok,
        r is Ok ==> final(f)@ == old(f)@ + doc_line(line@, spaces((levels * 4) as nat)),
{
    push_str(f, "\n");
    push_spaces(f, levels * 4);
    push_str(f, "///");
    if line.len() == 0 {
        assert(f@ =~= old(f)@ + doc_line(line@, spaces((levels * 4) as nat)));
        return Ok(());
    }
    push_str(f, " ");
    let text = string_of(line);
    match regex_replace_all("\\[|\\]", text.as_str(), "\\$0") {
        Some(escaped) => {
            push_trimmed_end(f, escaped.as_str());
            assert(f@ =~= old(f)@ + doc_line(line@, spaces((levels * 4) as nat)));
            Ok(())
        },
        None => Err(WriteError),
    }
}

impl ApiObject {
    /// Writes the given string (if any) as Rust documentation into
    /// the given formatter.
    #[verifier::spinoff_prover]
    #[verifier::rlimit(40)]
    pub fn write_docs(stuff: Option<&str>, f: &mut String, levels: usize) -> (r: Result<(), WriteError>)
        requires
            levels <= usize::MAX / 4,
        ensures
            r is Err ==> !doc_regex_ok(),
            doc_regex_ok() || stuff is None ==> r is Ok,
            r is Ok ==> final(f)@ == old(f)@ + docs_text(opt_str_view(stuff), levels as nat),
    {
        match stuff {
            None => {
                assert(f@ =~= old(f)@ + docs_text(opt_str_view(stuff), levels as nat));
                Ok(())
            },
            Some(d) => {
                let v = chars_of(d);
                let ghost indent = spaces((levels * 4) as nat);
                let mut cur: Vec<char> = Vec::new();
                let ghost mut done: Seq<Seq<char>> = Seq::empty();
                let mut i: usize = 0;
                assert(v@.take(0) =~= Seq::<char>::empty());
                while i < v.len()
                    invariant
                        i <= v@.len(),
                        levels <= usize::MAX / 4,
                        stuff == Some(d),
                        indent == spaces((levels * 4) as nat),
                        split_on(v@.take(i as int), '\n') =~= done.push(cur@),
                        f@ == old(f)@ + doc_lines(done, indent),
                    decreases v.len() - i,
                {
                    let c = v[i];
                    assert(v@.take(i + 1).drop_last() =~= v@.take(i as int));
                    assert(v@.take(i + 1).last() == c);
                    if c == '\n' {
                        let res = write_doc_line(&cur, f, levels);
                        if res.is_err() {
                            return Err(WriteError);
                        }
                        proof {
                            assert(done.push(cur@).drop_last() =~= done);
                            done = done.push(cur@);
                        }
                        cur = Vec::new();
                    } else {
                        let ghost old_cur = cur@;
                        cur.push(c);
                        proof {
                            let prev = done.push(old_cur);
                            assert(prev.update(prev.len() - 1, prev.last().push(c)) =~= done.push(cur@));
                        }
                    }
                    i = i + 1;
                }
                assert(v@.take(v@.len() as int) =~= v@);
                let res = write_doc_line(&cur, f, levels);
                if res.is_err() {
                    return Err(WriteError);
                }
                proof {
                    assert(done.push(cur@).drop_last() =~= done);
                }
                push_str(f, "\n");
                assert(f@ =~= old(f)@ + docs_text(opt_str_view(stuff), levels as nat));
                Ok(())
            },
        }
    }
}


/* ---------------------------------------------------------------------- */
/* Struct definitions                                                     */
/* ---------------------------------------------------------------------- */

/// Whether the text is a Rust keyword (strict or reserved).
#[verifier::opaque]
pub open spec fn is_rust_keyword(s: Seq<char>) -> bool {
    s == "as"@
        || s == "break"@
        || s == "const"@
        || s == "continue"@
        || s == "crate"@
        || s == "else"@
        || s == "enum"@
        || s == "extern"@
        || s == "false"@
        || s == "fn"@
        || s == "for"@
        || s == "if"@
        || s == "impl"@
        || s == "in"@
        || s == "let"@
        || s == "loop"@
        || s == "match"@
        || s == "mod"@
        || s == "move"@
        || s == "mut"@
        || s == "pub"@
        || s == "ref"@
        || s == "return"@
        || s == "self"@
        || s == "Self"@
        || s == "static"@
        || s == "struct"@
        || s == "super"@
        || s == "trait"@
        || s == "true"@
        || s == "type"@
        || s == "unsafe"@
        || s == "use"@
        || s == "where"@
        || s == "while"@
        || s == "async"@
        || s == "await"@
        || s == "dyn"@
        || s == "abstract"@
        || s == "become"@
        || s == "box"@
        || s == "do"@
        || s == "final"@
        || s == "macro"@
        || s == "override"@
        || s == "priv"@
        || s == "typeof"@
        || s == "unsized"@
        || s == "virtual"@
        || s == "yield"@
        || s == "try"@
}

/// Tests `is_rust_keyword`.
pub fn is_keyword(s: &str) -> (b: bool)
    ensures
        b == is_rust_keyword(s@),
{
    reveal(is_rust_keyword);
    str_eq(s, "as")
        || str_eq(s, "break")
        || str_eq(s, "const")
        || str_eq(s, "continue")
        || str_eq(s, "crate")
        || str_eq(s, "else")
        || str_eq(s, "enum")
        || str_eq(s, "extern")
        || str_eq(s, "false")
        || str_eq(s, "fn")
        || str_eq(s, "for")
        || str_eq(s, "if")
        || str_eq(s, "impl")
        || str_eq(s, "in")
        || str_eq(s, "let")
        || str_eq(s, "loop")
        || str_eq(s, "match")
        || str_eq(s, "mod")
        || str_eq(s, "move")
        || str_eq(s, "mut")
        || str_eq(s, "pub")
        || str_eq(s, "ref")
        || str_eq(s, "return")
        || str_eq(s, "self")
        || str_eq(s, "Self")
        || str_eq(s, "static")
        || str_eq(s, "struct")
        || str_eq(s, "super")
        || str_eq(s, "trait")
        || str_eq(s, "true")
        || str_eq(s, "type")
        || str_eq(s, "unsafe")
        || str_eq(s, "use")
        || str_eq(s, "where")
        || str_eq(s, "while")
        || str_eq(s, "async")
        || str_eq(s, "await")
        || str_eq(s, "dyn")
        || str_eq(s, "abstract")
        || str_eq(s, "become")
        || str_eq(s, "box")
        || str_eq(s, "do")
        || str_eq(s, "final")
        || str_eq(s, "macro")
        || str_eq(s, "override")
        || str_eq(s, "priv")
        || str_eq(s, "typeof")
        || str_eq(s, "unsized")
        || str_eq(s, "virtual")
        || str_eq(s, "yield")
        || str_eq(s, "try")
}

/// The Rust name of an object field: snake-cased, with a trailing `_` when
/// it collides with a keyword.
pub open spec fn field_rust_name(f: ObjectField) -> Seq<char> {
    let sn = snake_case_of(f.name@);
    if is_rust_keyword(sn) {
        sn.push('_')
    } else {
        sn
    }
}

/// The type written for an object field (optional and/or boxed).
pub open spec fn field_type_text(f: ObjectField) -> Seq<char> {
    (if !f.is_required {
        "Option<"@
    } else {
        Seq::empty()
    }) + (if f.boxed {
        "Box<"@
    } else {
        Seq::empty()
    }) + f.ty_path@ + (if f.boxed {
        ">"@
    } else {
        Seq::empty()
    }) + (if !f.is_required {
        ">"@
    } else {
        Seq::empty()
    })
}

/// The declaration (after its docs) of one field.
pub open spec fn field_decl_text(f: ObjectField, nn: Seq<char>) -> Seq<char> {
    (if f.description is None {
        "\n"@
    } else {
        Seq::empty()
    }) + "    "@ + (if nn != f.name@ {
        "#[serde(rename = \""@ + f.name@ + "\")]\n    "@
    } else {
        Seq::empty()
    }) + "pub "@ + nn + ": "@ + field_type_text(f) + ","@
}

/// The declaration of one field of an object's struct.
pub open spec fn struct_field_text(f: ObjectField) -> Seq<char> {
    docs_text(opt_string_view(f.description), 1) + field_decl_text(f, field_rust_name(f))
}

/// The declarations of all fields.
pub open spec fn struct_fields_text(fs: Seq<ObjectField>) -> Seq<char>
    decreases fs.len(),
{
    if fs.len() == 0 {
        Seq::empty()
    } else {
        struct_fields_text(fs.drop_last()) + struct_field_text(fs.last())
    }
}

/// **Law.** A boxed field's declared type wraps its type path in `Box<...>`
/// (inside `Option<...>` when the field is not required), and so does its
/// declaration in the object's struct; a field that is not required is
/// declared as an `Option`; a required field that is not boxed is declared
/// with its type path as it is.
pub proof fn law_field_type_boxes(f: ObjectField)
    ensures
        f.boxed ==> exists|pre: Seq<char>, post: Seq<char>|
            field_type_text(f) == pre + ("Box<"@ + f.ty_path@ + ">"@) + post,
        f.boxed ==> exists|pre: Seq<char>, post: Seq<char>|
            struct_field_text(f) == pre + ("Box<"@ + f.ty_path@ + ">"@) + post,
        f.boxed && f.is_required ==> field_type_text(f) == "Box<"@ + f.ty_path@ + ">"@,
        f.boxed && !f.is_required ==> field_type_text(f) == "Option<Box<"@ + f.ty_path@ + ">>"@,
        !f.is_required ==> field_type_text(f).take(7) == "Option<"@,
        !f.boxed && f.is_required ==> field_type_text(f) == f.ty_path@,
{
    reveal_strlit("Option<");
    reveal_strlit("Option<Box<");
    reveal_strlit(">>");
    reveal_strlit(">");
    reveal_strlit("Box<");
    let t = f.ty_path@;
    let o = if !f.is_required {
        "Option<"@
    } else {
        Seq::<char>::empty()
    };
    let c = if !f.is_required {
        ">"@
    } else {
        Seq::<char>::empty()
    };
    if f.boxed {
        assert(field_type_text(f) =~= o + ("Box<"@ + t + ">"@) + c);
        let nn = field_rust_name(f);
        let pre = docs_text(opt_string_view(f.description), 1) + (if f.description is None {
            "\n"@
        } else {
            Seq::empty()
        }) + "    "@ + (if nn != f.name@ {
            "#[serde(rename = \""@ + f.name@ + "\")]\n    "@
        } else {
            Seq::empty()
        }) + "pub "@ + nn + ": "@ + o;
        assert(struct_field_text(f) =~= pre + ("Box<"@ + t + ">"@) + (c + ","@));
        if f.is_required {
            assert(field_type_text(f) =~= "Box<"@ + t + ">"@);
        } else {
            assert(field_type_text(f) =~= "Option<Box<"@ + t + ">>"@);
        }
    } else {
        assert(field_type_text(f) =~= o + t + c);
    }
    if !f.is_required {
        assert(field_type_text(f).take(7) =~= "Option<"@);
    }
}

/// Writes the type of one field.
#[verifier::spinoff_prover]
#[verifier::rlimit(40)]
fn write_field_type(field: &ObjectField, f: &mut String)
    ensures
        final(f)@ == old(f)@ + field_type_text(*field),
{
    if !field.is_required {
        push_str(f, "Option<");
    }
    if field.boxed {
        push_str(f, "Box<");
    }
    push_str(f, field.ty_path.as_str());
    if field.boxed {
        push_str(f, ">");
    }
    if !field.is_required {
        push_str(f, ">");
    }
    assert(f@ =~= old(f)@ + field_type_text(*field));
}

/// Writes the declaration (after its docs) of one field.
#[verifier::spinoff_prover]
#[verifier::rlimit(40)]
fn write_field_decl(field: &ObjectField, new_name: &str, f: &mut String)
    ensures
        final(f)@ == old(f)@ + field_decl_text(*field, new_name@),
{
    if field.description.is_none() {
        push_str(f, "\n");
    }
    push_str(f, "    ");
    if !str_eq(new_name, field.name.as_str()) {
        push_str(f, "#[serde(rename = \"");
        push_str(f, field.name.as_str());
        push_str(f, "\")]\n    ");
    }
    let ghost after_rename = f@;
    push_str(f, "pub ");
    push_str(f, new_name);
    push_str(f, ": ");
    write_field_type(field, f);
    push_str(f, ",");
    assert(f@ =~= old(f)@ + field_decl_text(*field, new_name@));
}

/// Writes the declaration of one field.
#[verifier::spinoff_prover]
#[verifier::rlimit(40)]
fn write_struct_field(field: &ObjectField, f: &mut String) -> (r: Result<(), WriteError>)
    ensures
        r is Err ==> !doc_regex_ok(),
        doc_regex_ok() || field.description is None ==> r is Ok,
        r is Ok ==> final(f)@ == old(f)@ + struct_field_text(*field),
{
    let mut new_name = to_snake_case(field.name.as_str());
    // Check if the field matches a Rust keyword and add '_' suffix.
    if is_keyword(new_name.as_str()) {
        crate::text::push_char(&mut new_name, '_');
    }
    assert(new_name@ == field_rust_name(*field));
    let res = ApiObject::write_docs(opt_as_str(&field.description), f, 1);
    if res.is_err() {
        return Err(WriteError);
    }
    write_field_decl(field, new_name.as_str(), f);
    Ok(())
}

/// Whether the struct definition of an object has doc text: the object or
/// one of its fields has a description.
pub open spec fn object_has_docs(o: ApiObject) -> bool {
    o.description is Some || exists|i: int| 0 <= i < o.fields@.len() && (#[trigger] o.fields@[i]).description is Some
}

impl ApiObject {
    /// The struct definition written for this object.
    pub open spec fn spec_definition(self) -> Seq<char> {
        docs_text(opt_string_view(self.description), 0) + "#[derive(Debug, Default, Clone, Deserialize, Serialize)]"@
            + "\npub struct "@ + self.name@ + " {"@ + struct_fields_text(self.fields@) + (if self.fields@.len() > 0 {
            "\n"@
        } else {
            Seq::empty()
        }) + "}\n"@
    }

    /// Writes the struct definition of this object.
    #[verifier::spinoff_prover]
    #[verifier::rlimit(40)]
    pub fn fmt(&self, f: &mut String) -> (r: Result<(), WriteError>)
        ensures
            r is Err ==> !doc_regex_ok(),
            doc_regex_ok() || !object_has_docs(*self) ==> r is Ok,
            r is Ok ==> final(f)@ == old(f)@ + self.spec_definition(),
    {
        let res = ApiObject::write_docs(opt_as_str(&self.description), f, 0);
        if res.is_err() {
            return Err(WriteError);
        }
        push_str(f, "#[derive(Debug, Default, Clone, Deserialize, Serialize)]");
        push_str(f, "\npub struct ");
        push_str(f, self.name.as_str());
        push_str(f, " {");
        let ghost start = f@;
        let mut i: usize = 0;
        assert(self.fields@.take(0) =~= Seq::<ObjectField>::empty());
        while i < self.fields.len()
            invariant
                i <= self.fields@.len(),
                f@ == start + struct_fields_text(self.fields@.take(i as int)),
            decreases self.fields.len() - i,
        {
            assert(self.fields@.take(i + 1).drop_last() =~= self.fields@.take(i as int));
            assert(self.fields@.take(i + 1).last() == self.fields@[i as int]);
            let res = write_struct_field(&self.fields[i], f);
            if res.is_err() {
                assert(self.fields@[i as int].description is Some);
                return Err(WriteError);
            }
            i = i + 1;
        }
        assert(self.fields@.take(self.fields@.len() as int) =~= self.fields@);
        if self.fields.len() > 0 {
            push_str(f, "\n");
        }
        push_str(f, "}\n");
        assert(f@ =~= old(f)@ + self.spec_definition());
        Ok(())
    }
}

/* ---------------------------------------------------------------------- */
/* Builder struct definitions                                             */
/* ---------------------------------------------------------------------- */

/// The doc line of a builder struct.
pub open spec fn builder_doc_line(b: ApiObjectBuilder) -> Seq<char> {
    let obj = b.object@;
    "/// Builder "@ + if b.spec_con_fn_name() is Some && b.method is Some {
        let name = b.spec_con_fn_name()->0;
        "created by [`"@ + obj + "::"@ + name + "`](./struct."@ + obj + ".html#method."@ + name
            + ") method for a `"@ + b.method->0.spec_upper_name() + "` operation associated with `"@ + obj
            + "`.\n"@
    } else {
        "for [`"@ + obj + "`](./struct."@ + obj + ".html) object.\n"@
    }
}

/// What one entry contributes to the builder struct itself.
pub open spec fn struct_entry_text(e: FieldView, needs_container: bool) -> Seq<char> {
    (if !needs_container {
        parameter_text(e.prop, snake_case_of(e.name), e.ty)
    } else {
        Seq::empty()
    }) + if e.prop.spec_is_required() {
        "\n    "@ + (if e.prop.spec_is_parameter() {
            "_param"@
        } else {
            Seq::empty()
        }) + "_"@ + snake_case_of(e.name) + ": "@ + "core::marker::PhantomData<"@ + camel_case_of(e.name)
            + ">,"@
    } else {
        Seq::empty()
    }
}

/// What the entries contribute to the builder struct itself.
pub open spec fn struct_entries_text(es: Seq<FieldView>, needs_container: bool) -> Seq<char>
    decreases es.len(),
{
    if es.len() == 0 {
        Seq::empty()
    } else {
        struct_entries_text(es.drop_last(), needs_container) + struct_entry_text(es.last(), needs_container)
    }
}

/// What the entries contribute to the builder's container.
pub open spec fn container_entries_text(es: Seq<FieldView>) -> Seq<char>
    decreases es.len(),
{
    if es.len() == 0 {
        Seq::empty()
    } else {
        container_entries_text(es.drop_last()) + parameter_text(es.last().prop, snake_case_of(es.last().name), es.last().ty)
    }
}

impl<'a> ApiObjectBuilder<'a> {
    /// The container struct (before its closing brace).
    pub open spec fn spec_container(self) -> Seq<char> {
        "#[derive(Debug, Default, Clone)]\nstruct "@ + self.spec_container_name() + " {"@ + self.spec_body_field()
            + container_entries_text(self.spec_struct_fields())
    }

    /// The head of the struct definition (up to its generics).
    pub open spec fn spec_definition_head(self) -> Seq<char> {
        builder_doc_line(self) + (if self.spec_needs_container() {
            "#[repr(transparent)]\n"@
        } else {
            Seq::empty()
        }) + "#[derive(Debug, Clone)]\npub struct "@ + self.spec_name() + self.spec_generics(ParamsMode::Generic)
    }

    /// The opening of the struct body (brace, container or body field).
    pub open spec fn spec_definition_open(self) -> Seq<char> {
        let nc = self.spec_needs_container();
        (if self.spec_has_atleast_one_field() || self.body_required || nc {
            " {"@
        } else {
            Seq::empty()
        }) + if nc {
            "\n    inner: "@ + self.spec_container_name() + ","@
        } else {
            self.spec_body_field()
        }
    }

    /// The closing of the struct, followed by the container (if any).
    pub open spec fn spec_definition_close(self) -> Seq<char> {
        (if self.spec_has_atleast_one_field() || self.body_required {
            "\n}\n"@
        } else {
            ";\n"@
        }) + if self.spec_needs_container() {
            "\n"@ + self.spec_container() + "\n}\n"@
        } else {
            Seq::empty()
        }
    }

    /// The struct definition written for this builder.
    pub open spec fn spec_definition(self) -> Seq<char> {
        self.spec_definition_head() + self.spec_definition_open() + struct_entries_text(
            self.spec_struct_fields(),
            self.spec_needs_container(),
        ) + self.spec_definition_close()
    }

    /// Writes the doc line of the builder struct.
    #[verifier::spinoff_prover]
    #[verifier::rlimit(40)]
    fn write_doc_line(&self, f: &mut String)
        ensures
            final(f)@ == old(f)@ + builder_doc_line(*self),
    {
        push_str(f, "/// Builder ");
        let con = self.con_fn_name();
        match (con, self.method) {
            (Some(name), Some(m)) => {
                push_str(f, "created by [`");
                push_str(f, self.object);
                push_str(f, "::");
                push_str(f, name.as_str());
                push_str(f, "`](./struct.");
                push_str(f, self.object);
                push_str(f, ".html#method.");
                push_str(f, name.as_str());
                push_str(f, ") method for a `");
                push_str(f, m.upper_name());
                push_str(f, "` operation associated with `");
                push_str(f, self.object);
                push_str(f, "`.\n");
            },
            _ => {
                push_str(f, "for [`");
                push_str(f, self.object);
                push_str(f, "`](./struct.");
                push_str(f, self.object);
                push_str(f, ".html) object.\n");
            },
        }
        assert(f@ =~= old(f)@ + builder_doc_line(*self));
    }

    /// Writes one entry into the struct and the container.
    #[verifier::spinoff_prover]
    #[verifier::rlimit(40)]
    fn write_struct_entry(&self, field: &StructField, needs_container: bool, f: &mut String, container: &mut String)
        ensures
            final(f)@ == old(f)@ + struct_entry_text(field@, needs_container),
            needs_container ==> final(container)@ == old(container)@ + parameter_text(field@.prop, snake_case_of(field@.name), field@.ty),
            !needs_container ==> final(container)@ == old(container)@,
    {
        let cc = to_camel_case(field.name);
        let sk = to_snake_case(field.name);
        if needs_container {
            self.write_parameter_if_required(field.prop, sk.as_str(), field.ty, container);
        } else {
            self.write_parameter_if_required(field.prop, sk.as_str(), field.ty, f);
        }
        let ghost mid = f@;
        if field.prop.is_required() {
            push_str(f, "\n    ");
            if field.prop.is_parameter() {
                push_str(f, "_param");
            }
            push_str(f, "_");
            push_str(f, sk.as_str());
            push_str(f, ": ");
            push_str(f, "core::marker::PhantomData<");
            push_str(f, cc.as_str());
            push_str(f, ">,");
        }
        assert(f@ =~= old(f)@ + struct_entry_text(field@, needs_container));
    }

    /// Writes the entries into the struct and the container.
    fn write_struct_entries(
        &self,
        fields: &Vec<StructField>,
        needs_container: bool,
        f: &mut String,
        container: &mut String,
    )
        ensures
            final(f)@ == old(f)@ + struct_entries_text(field_views(fields@), needs_container),
            needs_container ==> final(container)@ == old(container)@ + container_entries_text(field_views(fields@)),
            !needs_container ==> final(container)@ == old(container)@,
    {
        let ghost views = field_views(fields@);
        let mut i: usize = 0;
        assert(views.take(0) =~= Seq::<FieldView>::empty());
        while i < fields.len()
            invariant
                i <= fields@.len(),
                views == field_views(fields@),
                f@ == old(f)@ + struct_entries_text(views.take(i as int), needs_container),
                needs_container ==> container@ == old(container)@ + container_entries_text(views.take(i as int)),
                !needs_container ==> container@ == old(container)@,
            decreases fields.len() - i,
        {
            let field = fields[i];
            assert(views.take(i + 1).drop_last() =~= views.take(i as int));
            assert(views.take(i + 1).last() == field@);
            self.write_struct_entry(&field, needs_container, f, container);
            i = i + 1;
        }
        assert(views.take(fields@.len() as int) =~= views);
    }

    /// Writes the head of the struct definition.
    #[verifier::spinoff_prover]
    #[verifier::rlimit(40)]
    fn write_definition_head(&self, f: &mut String)
        ensures
            final(f)@ == old(f)@ + self.spec_definition_head(),
    {
        self.write_doc_line(f);
        // If the builder "needs" parameters/fields, then we go for a separate
        // container which holds both the body (if any) and the parameters,
        // so that we can make the actual builder `#[repr(transparent)]`
        // for safe transmuting.
        if self.needs_container() {
            push_str(f, "#[repr(transparent)]\n");
        }
        push_str(f, "#[derive(Debug, Clone)]\npub struct ");
        self.write_name(f);
        self.write_generics_if_necessary(f, TypeParameters::Generic);
        assert(f@ =~= old(f)@ + self.spec_definition_head());
    }

    /// Writes the opening of the struct body.
    #[verifier::spinoff_prover]
    #[verifier::rlimit(40)]
    fn write_definition_open(&self, needs_container: bool, has_fields: bool, f: &mut String)
        requires
            needs_container == self.spec_needs_container(),
            has_fields == self.spec_has_atleast_one_field(),
        ensures
            final(f)@ == old(f)@ + self.spec_definition_open(),
    {
        if has_fields || self.body_required || needs_container {
            push_str(f, " {");
        }
        let ghost mid = f@;
        if needs_container {
            push_str(f, "\n    inner: ");
            self.write_container_name(f);
            push_str(f, ",");
        } else {
            self.write_body_field_if_required(f);
        }
        assert(f@ =~= old(f)@ + self.spec_definition_open());
    }

    /// The head of the container (before its parameters).
    fn container_head(&self) -> (c: String)
        ensures
            c@ + container_entries_text(self.spec_struct_fields()) == self.spec_container(),
    {
        let mut container = String::new();
        push_str(&mut container, "#[derive(Debug, Default, Clone)]\nstruct ");
        self.write_container_name(&mut container);
        push_str(&mut container, " {");
        self.write_body_field_if_required(&mut container);
        assert(container@ + container_entries_text(self.spec_struct_fields()) =~= self.spec_container());
        container
    }

    /// Writes the closing of the struct and the container.
    #[verifier::spinoff_prover]
    #[verifier::rlimit(40)]
    fn write_definition_close(&self, needs_container: bool, has_fields: bool, container: &String, f: &mut String)
        requires
            needs_container == self.spec_needs_container(),
            has_fields == self.spec_has_atleast_one_field(),
            needs_container ==> container@ == self.spec_container(),
        ensures
            final(f)@ == old(f)@ + self.spec_definition_close(),
    {
        if has_fields || self.body_required {
            push_str(f, "\n}\n");
        } else {
            push_str(f, ";\n");
        }
        let ghost mid = f@;
        if needs_container {
            push_str(f, "\n");
            push_str(f, container.as_str());
            push_str(f, "\n}\n");
        }
        assert(f@ =~= old(f)@ + self.spec_definition_close());
    }

    /// Writes the struct definition of this builder (and its container, when
    /// one is needed).
    #[verifier::spinoff_prover]
    #[verifier::rlimit(40)]
    pub fn fmt(&self, f: &mut String)
        ensures
            final(f)@ == old(f)@ + self.spec_definition(),
    {
        self.write_definition_head(f);
        let needs_container = self.needs_container();
        // If structs don't have any fields, then we go for unit structs.
        let has_fields = self.has_atleast_one_field();
        let ghost a = f@;
        self.write_definition_open(needs_container, has_fields, f);
        let ghost b = f@;
        let mut container = self.container_head();
        let ghost c0 = container@;
        let fields = self.struct_fields_iter();
        self.write_struct_entries(&fields, needs_container, f, &mut container);
        let ghost c = f@;
        self.write_definition_close(needs_container, has_fields, &container, f);
        assert(f@ =~= old(f)@ + self.spec_definition());
    }
}

} // verus!
