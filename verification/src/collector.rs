//! Collecting the requirements of operations: their parameters, the
//! response they give, and the object each operation is bound to.

use vstd::prelude::*;
use crate::definitions::{
    camel_name, error_spec, known_of, ns_names, views, law_reuse_gives_known_type, opt_view, spec_build, str_views,
    DefaultEmitter, ErrorSpec, PaperClipError, Schema,
};
use crate::emitter::DefinitionContext;
use crate::emitter::{
    opt_items, resolve_parameter_type, resolved_type, validate_collection_format, validated_formats,
    Items,
};
use crate::models::{CollectionFormat, DataType, DataTypeFormat, HttpMethod, ParameterIn};
use crate::object::{paths_sorted, ApiObject, OpRequirement, Parameter};
use crate::requirements::bound_path;
use crate::text::push_str;
use crate::apis::string_views;

verus! {

/* ---------------------------------------------------------------------- */
/* Parameters                                                             */
/* ---------------------------------------------------------------------- */

/// A parameter as the specification gives it.
#[derive(Debug)]
pub struct ParameterSpec {
    /// Name of the parameter.
    pub name: String,
    /// Description, if any.
    pub description: Option<String>,
    /// Where the parameter lives.
    pub in_: ParameterIn,
    /// Whether the parameter is required.
    pub required: bool,
    /// Data type, if any.
    pub data_type: Option<DataType>,
    /// Format of the data type, if any.
    pub format: Option<DataTypeFormat>,
    /// Items of an array parameter.
    pub items: Option<Items>,
    /// Collection format of an array parameter.
    pub collection_format: Option<CollectionFormat>,
}

/// Whether a parameter was collected as `p` from `s`: its type resolved and
/// its collection formats validated; a path parameter is always required.
pub open spec fn collected_from(p: Parameter, s: ParameterSpec) -> bool {
    match resolved_type(s.data_type, s.format, s.items) {
        Some((ty, fmts)) => {
            &&& p.name@ == s.name@
            &&& opt_view(p.description) == opt_view(s.description)
            &&& p.ty_path@ == ty
            &&& p.presence == s.in_
            &&& p.required == (s.required || s.in_ == ParameterIn::Path)
            &&& p.delimiting@ == validated_formats(s.data_type, s.in_, s.collection_format, fmts)
        },
        None => false,
    }
}

/// Enforces that the parameter is an allowed type and collects it; none for
/// a parameter of an unknown type.
pub fn collect_parameter(s: &ParameterSpec) -> (r: Option<Parameter>)
    ensures
        r is None <==> resolved_type(s.data_type, s.format, s.items) is None,
        r matches Some(p) ==> collected_from(p, *s),
{
    let items: Option<&Items> = match &s.items {
        Some(i) => Some(i),
        None => None,
    };
    assert(opt_items(items) == s.items);
    let (ty, mut it_fmts) = match resolve_parameter_type(s.data_type, s.format, items) {
        Some(t) => t,
        None => return None,
    };
    let ghost fmts = it_fmts@;
    validate_collection_format(s.name.as_str(), s.data_type, s.in_, s.collection_format, &mut it_fmts);
    let description = match &s.description {
        Some(d) => Some(d.clone()),
        None => None,
    };
    Some(
        Parameter {
            name: s.name.clone(),
            description,
            ty_path: ty,
            required: s.required || s.in_ == ParameterIn::Path,
            presence: s.in_,
            delimiting: it_fmts,
        },
    )
}

/// The content of a parameter.
#[verifier::ext_equal]
pub ghost struct ParamContent {
    pub name: Seq<char>,
    pub description: Option<Seq<char>>,
    pub ty_path: Seq<char>,
    pub required: bool,
    pub presence: ParameterIn,
    pub delimiting: Seq<CollectionFormat>,
}

/// The content of a parameter.
pub open spec fn param_content(p: Parameter) -> ParamContent {
    ParamContent {
        name: p.name@,
        description: opt_view(p.description),
        ty_path: p.ty_path@,
        required: p.required,
        presence: p.presence,
        delimiting: p.delimiting@,
    }
}

/// The contents of parameters.
pub open spec fn contents(ps: Seq<Parameter>) -> Seq<ParamContent> {
    Seq::new(ps.len(), |i: int| param_content(ps[i]))
}

/// Whether some parameter has the given name.
pub open spec fn has_name(ps: Seq<ParamContent>, name: Seq<char>) -> bool {
    exists|i: int| 0 <= i < ps.len() && (#[trigger] ps[i]).name == name
}

/// The parameters of an operation followed by the path's parameters whose
/// names they do not have yet, in order.
pub open spec fn with_unused(params: Seq<ParamContent>, unused: Seq<ParamContent>) -> Seq<ParamContent>
    decreases unused.len(),
{
    if unused.len() == 0 {
        params
    } else {
        let prev = with_unused(params, unused.drop_last());
        if has_name(prev, unused.last().name) {
            prev
        } else {
            prev.push(unused.last())
        }
    }
}

/// The parameters without those in form data.
pub open spec fn non_form(ps: Seq<ParamContent>) -> Seq<ParamContent>
    decreases ps.len(),
{
    if ps.len() == 0 {
        ps
    } else if ps.last().presence == ParameterIn::FormData {
        non_form(ps.drop_last())
    } else {
        non_form(ps.drop_last()).push(ps.last())
    }
}

/// The parameters of an operation: its own, then the path's unused ones;
/// form data parameters are left out when the operation has a body.
pub open spec fn merged_parameters(params: Seq<ParamContent>, unused: Seq<ParamContent>, has_body: bool) -> Seq<ParamContent> {
    if has_body {
        non_form(with_unused(params, unused))
    } else {
        with_unused(params, unused)
    }
}

/// Whether `v` holds a parameter named `name`.
fn has_named(v: &Vec<Parameter>, name: &str) -> (r: bool)
    ensures
        r == has_name(contents(v@), name@),
{
    let mut i: usize = 0;
    while i < v.len()
        invariant
            i <= v@.len(),
            forall|k: int| 0 <= k < i ==> v@[k].name@ != name@,
        decreases v.len() - i,
    {
        if crate::object::str_eq(v[i].name.as_str(), name) {
            assert(contents(v@)[i as int].name == name@);
            return true;
        }
        i = i + 1;
    }
    assert forall|k: int| 0 <= k < contents(v@).len() implies (#[trigger] contents(v@)[k]).name != name@ by {
        assert(contents(v@)[k].name == v@[k].name@);
    }
    false
}

/// Clones a parameter.
fn clone_parameter(p: &Parameter) -> (r: Parameter)
    ensures
        param_content(r) == param_content(*p),
{
    let mut delimiting: Vec<CollectionFormat> = Vec::new();
    let mut i: usize = 0;
    while i < p.delimiting.len()
        invariant
            i <= p.delimiting@.len(),
            delimiting@ == p.delimiting@.take(i as int),
        decreases p.delimiting.len() - i,
    {
        delimiting.push(p.delimiting[i]);
        assert(delimiting@ =~= p.delimiting@.take(i + 1));
        i = i + 1;
    }
    assert(p.delimiting@.take(p.delimiting@.len() as int) =~= p.delimiting@);
    let r = Parameter {
        name: p.name.clone(),
        description: match &p.description {
            Some(d) => Some(d.clone()),
            None => None,
        },
        ty_path: p.ty_path.clone(),
        required: p.required,
        presence: p.presence,
        delimiting,
    };
    assert(param_content(r) =~= param_content(*p));
    r
}

/// Adds the path's parameters that the operation does not have, and leaves
/// out form data parameters when the operation already has a body.
pub fn merge_parameters(params: Vec<Parameter>, unused: &[Parameter], has_body: bool) -> (r: Vec<Parameter>)
    ensures
        contents(r@) == merged_parameters(contents(params@), contents(unused@), has_body),
{
    let mut all = params;
    let ghost start = contents(all@);
    let mut i: usize = 0;
    assert(unused@.take(0) =~= Seq::<Parameter>::empty());
    while i < unused.len()
        invariant
            i <= unused@.len(),
            contents(all@) == with_unused(start, contents(unused@.take(i as int))),
        decreases unused.len() - i,
    {
        assert(contents(unused@.take(i + 1)).drop_last() =~= contents(unused@.take(i as int)));
        assert(contents(unused@.take(i + 1)).last() == param_content(unused@[i as int]));
        if !has_named(&all, unused[i].name.as_str()) {
            let ghost before = contents(all@);
            let c = clone_parameter(&unused[i]);
            all.push(c);
            assert(contents(all@) =~= before.push(param_content(c)));
        }
        i = i + 1;
    }
    assert(unused@.take(unused@.len() as int) =~= unused@);
    if !has_body {
        return all;
    }
    let mut kept: Vec<Parameter> = Vec::new();
    let ghost merged = contents(all@);
    let mut j: usize = 0;
    assert(contents(kept@) =~= non_form(merged.take(0)));
    while j < all.len()
        invariant
            j <= all@.len(),
            merged == contents(all@),
            contents(kept@) == non_form(merged.take(j as int)),
        decreases all.len() - j,
    {
        assert(merged.take(j + 1).drop_last() =~= merged.take(j as int));
        assert(merged.take(j + 1).last() == param_content(all@[j as int]));
        if all[j].presence != ParameterIn::FormData {
            let ghost before = contents(kept@);
            let c = clone_parameter(&all[j]);
            kept.push(c);
            assert(contents(kept@) =~= before.push(param_content(c)));
        }
        j = j + 1;
    }
    assert(merged.take(merged.len() as int) =~= merged);
    kept
}

/// A parameter of an operation as the collector reads it: one with a schema
/// (a body), by the module path of its schema and whether objects are
/// registered for that module; or any other, by its specification.
#[derive(Debug)]
pub enum ParameterInput {
    Schema { module: String, registered: bool },
    Plain(ParameterSpec),
}

/// The content of the parameter collected from `s`, if its type is known.
pub open spec fn collected_content(s: ParameterSpec) -> Option<ParamContent> {
    match resolved_type(s.data_type, s.format, s.items) {
        Some((ty, fmts)) => Some(
            ParamContent {
                name: s.name@,
                description: opt_view(s.description),
                ty_path: ty,
                required: s.required || s.in_ == ParameterIn::Path,
                presence: s.in_,
                delimiting: validated_formats(s.data_type, s.in_, s.collection_format, fmts),
            },
        ),
        None => None,
    }
}

/// The parameters collected from the inputs, in order: each plain one of a
/// known type; those with a schema are no parameters.
pub open spec fn collected_params(ins: Seq<ParameterInput>) -> Seq<ParamContent>
    decreases ins.len(),
{
    if ins.len() == 0 {
        Seq::empty()
    } else {
        let prev = collected_params(ins.drop_last());
        match ins.last() {
            ParameterInput::Plain(s) => match collected_content(s) {
                Some(c) => prev.push(c),
                None => prev,
            },
            ParameterInput::Schema { .. } => prev,
        }
    }
}

/// The module of the last parameter whose schema has registered objects.
pub open spec fn schema_path_of(ins: Seq<ParameterInput>) -> Option<Seq<char>>
    decreases ins.len(),
{
    if ins.len() == 0 {
        None
    } else {
        match ins.last() {
            ParameterInput::Schema { module, registered } => if registered {
                Some(module@)
            } else {
                schema_path_of(ins.drop_last())
            },
            ParameterInput::Plain(_) => schema_path_of(ins.drop_last()),
        }
    }
}

/// The names without `n`.
pub open spec fn remove_name(names: Seq<Seq<char>>, n: Seq<char>) -> Seq<Seq<char>>
    decreases names.len(),
{
    if names.len() == 0 {
        names
    } else {
        let prev = remove_name(names.drop_last(), n);
        if names.last() == n {
            prev
        } else {
            prev.push(names.last())
        }
    }
}

/// The names of the path template that are left once the plain path
/// parameters among the inputs are found, in the order of the inputs.
pub open spec fn unmatched_names(names: Seq<Seq<char>>, ins: Seq<ParameterInput>) -> Seq<Seq<char>>
    decreases ins.len(),
{
    if ins.len() == 0 {
        names
    } else {
        let prev = unmatched_names(names, ins.drop_last());
        match ins.last() {
            ParameterInput::Plain(s) => if s.in_ == ParameterIn::Path {
                remove_name(prev, s.name@)
            } else {
                prev
            },
            ParameterInput::Schema { .. } => prev,
        }
    }
}

/// The collected parameter has the content that its specification gives.
proof fn lemma_collected_content(p: Parameter, s: ParameterSpec)
    requires
        collected_from(p, s),
    ensures
        collected_content(s) == Some(param_content(p)),
{
    assert(collected_content(s)->0 =~= param_content(p));
}

/// Removes every `name` from `names`.
fn remove_from(names: &mut Vec<String>, name: &str)
    ensures
        string_views(final(names)@) == remove_name(string_views(old(names)@), name@),
{
    let mut kept: Vec<String> = Vec::new();
    let ghost all = string_views(names@);
    let mut i: usize = 0;
    while i < names.len()
        invariant
            i <= names@.len(),
            all == string_views(names@),
            string_views(kept@) == remove_name(all.take(i as int), name@),
        decreases names.len() - i,
    {
        assert(all.take(i + 1).drop_last() =~= all.take(i as int));
        assert(all.take(i + 1).last() == names@[i as int]@);
        if !crate::object::str_eq(names[i].as_str(), name) {
            let ghost before = string_views(kept@);
            kept.push(names[i].clone());
            assert(string_views(kept@) =~= before.push(names@[i as int]@));
        }
        i = i + 1;
    }
    assert(all.take(all.len() as int) =~= all);
    *names = kept;
}

/// Validates and collects the parameters of an operation or a path: the
/// plain ones of a known type, and the module of the last schema with
/// registered objects; a path parameter's name is no longer awaited in the
/// path template.
pub fn collect_parameters(inputs: &Vec<ParameterInput>, template_params: &mut Vec<String>) -> (r: (Vec<Parameter>, Option<String>))
    ensures
        contents(r.0@) == collected_params(inputs@),
        opt_view(r.1) == schema_path_of(inputs@),
        string_views(final(template_params)@) == unmatched_names(string_views(old(template_params)@), inputs@),
{
    let mut params: Vec<Parameter> = Vec::new();
    let mut schema_path: Option<String> = None;
    let ghost names0 = string_views(template_params@);
    let mut i: usize = 0;
    while i < inputs.len()
        invariant
            i <= inputs@.len(),
            contents(params@) == collected_params(inputs@.take(i as int)),
            opt_view(schema_path) == schema_path_of(inputs@.take(i as int)),
            string_views(template_params@) == unmatched_names(names0, inputs@.take(i as int)),
        decreases inputs.len() - i,
    {
        let ghost t = inputs@.take(i + 1);
        assert(t.drop_last() =~= inputs@.take(i as int));
        assert(t.last() == inputs@[i as int]);
        match &inputs[i] {
            ParameterInput::Schema { module, registered } => {
                if *registered {
                    schema_path = Some(module.clone());
                }
            },
            ParameterInput::Plain(spec) => {
                if spec.in_ == ParameterIn::Path {
                    remove_from(template_params, spec.name.as_str());
                }
                match collect_parameter(spec) {
                    Some(p) => {
                        proof {
                            lemma_collected_content(p, *spec);
                        }
                        let ghost before = contents(params@);
                        params.push(p);
                        assert(contents(params@) =~= before.push(param_content(p)));
                    },
                    None => {},
                }
            },
        }
        i = i + 1;
    }
    assert(inputs@.take(inputs@.len() as int) =~= inputs@);
    (params, schema_path)
}

/// Collects the parameters of an operation: its own, then those of its path
/// that it does not have; form data parameters are left out when a
/// parameter gives the operation a body. Returns them with the module of
/// that body's schema.
pub fn collect_from_operation(
    inputs: &Vec<ParameterInput>,
    unused: &[Parameter],
    template_params: &mut Vec<String>,
) -> (r: (Vec<Parameter>, Option<String>))
    ensures
        contents(r.0@) == merged_parameters(collected_params(inputs@), contents(unused@), schema_path_of(inputs@) is Some),
        opt_view(r.1) == schema_path_of(inputs@),
        string_views(final(template_params)@) == unmatched_names(string_views(old(template_params)@), inputs@),
{
    let (params, schema_path) = collect_parameters(inputs, template_params);
    let has_body = schema_path.is_some();
    let merged = merge_parameters(params, unused, has_body);
    (merged, schema_path)
}

/// **Law.** A parameter that lives in the path is always collected as a
/// required one.
pub proof fn law_path_parameters_required(ins: Seq<ParameterInput>)
    ensures
        forall|i: int| 0 <= i < collected_params(ins).len() && (#[trigger] collected_params(ins)[i]).presence
            == ParameterIn::Path ==> collected_params(ins)[i].required,
    decreases ins.len(),
{
    if ins.len() > 0 {
        law_path_parameters_required(ins.drop_last());
    }
}

/// **Law.** An operation's own parameters take precedence over those of its
/// path: they come first, as they are, and every path parameter is there by
/// its name, whether the operation's or the path's.
pub proof fn law_own_parameters_first(params: Seq<ParamContent>, unused: Seq<ParamContent>)
    ensures
        with_unused(params, unused).len() >= params.len(),
        with_unused(params, unused).take(params.len() as int) == params,
        forall|i: int| 0 <= i < unused.len() ==> has_name(with_unused(params, unused), (#[trigger] unused[i]).name),
    decreases unused.len(),
{
    if unused.len() > 0 {
        let prev = with_unused(params, unused.drop_last());
        law_own_parameters_first(params, unused.drop_last());
        let w = with_unused(params, unused);
        if !has_name(prev, unused.last().name) {
            assert(w.take(params.len() as int) =~= prev.take(params.len() as int));
            assert(w[prev.len() as int].name == unused.last().name);
        }
        assert forall|i: int| 0 <= i < unused.len() implies has_name(w, (#[trigger] unused[i]).name) by {
            if i < unused.len() - 1 {
                assert(unused.drop_last()[i] == unused[i]);
                assert(has_name(prev, unused[i].name));
                let k = choose|k: int| 0 <= k < prev.len() && (#[trigger] prev[k]).name == unused[i].name;
                assert(w[k] == prev[k]);
            }
        }
    }
}

/* ---------------------------------------------------------------------- */
/* Responses and requirements                                             */
/* ---------------------------------------------------------------------- */

/// An operation of a path, by what the collector reads of it.
#[derive(Debug)]
pub struct PathOperation {
    /// The operation's ID, if any.
    pub operation_id: Option<String>,
    /// The operation's description, if any.
    pub description: Option<String>,
    /// The responses by status code, in the order of their codes, each with
    /// its schema if it has one.
    pub responses: Vec<(String, Option<Schema>)>,
}

/// The first schema of a `2xx` response.
pub open spec fn first_2xx(rs: Seq<(String, Option<Schema>)>) -> Option<Schema>
    decreases rs.len(),
{
    if rs.len() == 0 {
        None
    } else if rs[0].0@.len() > 0 && rs[0].0@[0] == '2' && rs[0].1 is Some {
        rs[0].1
    } else {
        first_2xx(rs.drop_first())
    }
}

/// The view of an optional schema reference.
pub open spec fn opt_schema(o: Option<&Schema>) -> Option<Schema> {
    match o {
        Some(s) => Some(*s),
        None => None,
    }
}

/// Returns the first 2xx response schema in this operation.
///
/// **NOTE:** This assumes that 2xx response schemas are the same for an operation.
pub fn get_2xx_response_schema(op: &PathOperation) -> (r: Option<&Schema>)
    ensures
        opt_schema(r) == first_2xx(op.responses@),
{
    let mut i: usize = 0;
    assert(op.responses@.skip(0) =~= op.responses@);
    while i < op.responses.len()
        invariant
            i <= op.responses@.len(),
            first_2xx(op.responses@) == first_2xx(op.responses@.skip(i as int)),
        decreases op.responses.len() - i,
    {
        let (code, schema) = &op.responses[i];
        assert(op.responses@.skip(i as int)[0] == op.responses@[i as int]);
        assert(op.responses@.skip(i as int).drop_first() =~= op.responses@.skip(i + 1));
        let v = crate::text::chars_of(code.as_str());
        if v.len() > 0 && v[0] == '2' {
            if let Some(s) = schema {
                return Some(s);
            }
        }
        i = i + 1;
    }
    assert(op.responses@.skip(i as int) =~= Seq::<(String, Option<Schema>)>::empty());
    None
}

/// Copies an optional string.
fn copy_opt(o: &Option<String>) -> (r: Option<String>)
    ensures
        opt_view(r) == opt_view(*o),
{
    match o {
        Some(s) => Some(s.clone()),
        None => None,
    }
}

/// Whether `q` is the requirement of `op` with the given parameters, body
/// and listing flags, and response type.
pub open spec fn is_requirement(
    q: OpRequirement,
    op: PathOperation,
    params: Seq<Parameter>,
    body_required: bool,
    listable: bool,
    response: Option<Seq<char>>,
) -> bool {
    &&& opt_view(q.id) == opt_view(op.operation_id)
    &&& opt_view(q.description) == opt_view(op.description)
    &&& q.params@ == params
    &&& q.body_required == body_required
    &&& q.listable == listable
    &&& opt_view(q.response_ty_path) == response
}

/// Where an operation that no body schema claims is bound.
#[derive(Debug, Clone, Copy, PartialEq, Eq, Structural)]
pub enum BlindTarget {
    /// To the object of its response.
    Response,
    /// To the object of the items of its response (a list of objects).
    Items,
    /// To the object for operations that fit no other module.
    Miscellaneous,
}

/// Whether the response lists objects.
pub open spec fn lists_objects(s: Schema) -> bool {
    s.items matches Some(i) && i.data_type == Some(DataType::Object)
}

/// Where an operation with the given response is bound: an object response
/// to its object, a list of objects to the items' object, anything else to
/// the miscellaneous object.
pub open spec fn blind_target(s: Schema) -> BlindTarget {
    if s.data_type == Some(DataType::Object) {
        BlindTarget::Response
    } else if lists_objects(s) {
        BlindTarget::Items
    } else {
        BlindTarget::Miscellaneous
    }
}

/// The module names of a definition, when it has a name.
pub open spec fn module_names_of(e: DefaultEmitter, s: Schema) -> Option<Seq<Seq<char>>> {
    match s.name {
        Some(n) => Some(ns_names(n@, e.ns_sep@)),
        None => None,
    }
}

/// The module that an operation bound by its response goes to: that of the
/// response's object, that of the items' object, or the miscellaneous one;
/// none when the object has no name.
pub open spec fn blind_module_names(e: DefaultEmitter, target: BlindTarget, response: Schema) -> Option<Seq<Seq<char>>> {
    match target {
        BlindTarget::Miscellaneous => Some(seq!["miscellaneous"@]),
        BlindTarget::Response => module_names_of(e, response),
        BlindTarget::Items => match response.items {
            Some(i) => module_names_of(e, *i),
            None => None,
        },
    }
}

impl DefaultEmitter {
    /// The names of the module that an operation bound by its response goes
    /// to (see `blind_requirement` for the target).
    pub fn blind_module(&self, target: BlindTarget, response: &Schema) -> (r: Option<Vec<String>>)
        ensures
            match r {
                Some(v) => blind_module_names(*self, target, *response) == Some(views(v@)),
                None => blind_module_names(*self, target, *response) is None,
            },
    {
        match target {
            BlindTarget::Miscellaneous => {
                let mut m = String::new();
                push_str(&mut m, "miscellaneous");
                let mut v: Vec<String> = Vec::new();
                v.push(m);
                assert(views(v@) =~= seq!["miscellaneous"@]);
                Some(v)
            },
            BlindTarget::Response => self.def_ns_name(response).ok(),
            BlindTarget::Items => match &response.items {
                Some(i) => self.def_ns_name(i).ok(),
                None => None,
            },
        }
    }
}

/// What `DefaultEmitter::blind_requirement` gives for an operation with
/// the given parameters: nothing without a response schema; else the
/// target its response leads to and the operation's requirement, or the
/// error of building a miscellaneous response.
pub open spec fn blind_result(
    e: DefaultEmitter,
    op: PathOperation,
    params: Seq<Parameter>,
    r: Result<Option<(BlindTarget, OpRequirement)>, PaperClipError>,
) -> bool {
    match first_2xx(op.responses@) {
        None => r == Ok::<Option<(BlindTarget, OpRequirement)>, PaperClipError>(None),
        Some(s) => match blind_target(s) {
            BlindTarget::Miscellaneous => match spec_build(e, s, false, Seq::empty()) {
                Err(x) => r matches Err(y) && error_spec(y) == x,
                Ok(u) => r matches Ok(Some((t, q))) && t == BlindTarget::Miscellaneous && is_requirement(
                    q,
                    op,
                    params,
                    false,
                    lists_objects(s),
                    Some(known_of(u)),
                ),
            },
            BlindTarget::Response => r matches Ok(Some((t, q))) && t == BlindTarget::Response && is_requirement(
                q,
                op,
                params,
                false,
                lists_objects(s),
                match s.name {
                    Some(n) => Some(camel_name(n@, e.ns_sep@)),
                    None => None,
                },
            ),
            BlindTarget::Items => r matches Ok(Some((t, q))) && t == BlindTarget::Items && is_requirement(
                q,
                op,
                params,
                false,
                true,
                match s.items->0.name {
                    Some(n) => Some(camel_name(n@, e.ns_sep@)),
                    None => None,
                },
            ),
        },
    }
}

impl DefaultEmitter {
    /// The object for operations that cannot be added to any other module:
    /// a unit struct named `Miscellaneous`.
    pub fn unknown_op_object(&self) -> (r: ApiObject)
        ensures
            r.name@ == "Miscellaneous"@,
            opt_view(r.description) == Some("Namespace for operations that cannot be added to any other modules."@),
            r.fields@.len() == 0,
            r.paths@.len() == 0,
    {
        let mut obj = ApiObject::with_name("Miscellaneous");
        let mut d = String::new();
        push_str(&mut d, "Namespace for operations that cannot be added to any other modules.");
        obj.description = Some(d);
        obj
    }

    /// The requirement of an operation whose body is an object: the object
    /// is required in the body, and the response type is that of the first
    /// `2xx` response schema.
    pub fn schema_requirement(&self, op: &PathOperation, params: Vec<Parameter>) -> (r: Result<OpRequirement, PaperClipError>)
        ensures
            match first_2xx(op.responses@) {
                None => r matches Ok(q) && is_requirement(q, *op, params@, true, false, None),
                Some(s) => match spec_build(*self, s, false, Seq::empty()) {
                    Err(x) => r matches Err(y) && error_spec(y) == x,
                    Ok(u) => r matches Ok(q) && is_requirement(q, *op, params@, true, false, Some(known_of(u))),
                },
            },
    {
        let response_ty_path = match get_2xx_response_schema(op) {
            Some(s) => {
                let ctx = DefinitionContext { define: false, parents: Vec::new() };
                assert(str_views(ctx.parents@) =~= Seq::<Seq<char>>::empty());
                let u = self.build_def(s, ctx)?;
                proof {
                    law_reuse_gives_known_type(*self, *s, Seq::empty());
                }
                Some(u.known_type())
            },
            None => None,
        };
        Ok(
            OpRequirement {
                id: copy_opt(&op.operation_id),
                description: copy_opt(&op.description),
                params,
                body_required: true,
                listable: false,
                response_ty_path,
            },
        )
    }

    /// The requirement of an operation that no body schema claims, with where
    /// it is bound; none when it has no `2xx` response schema. The body is not
    /// required; the operation lists objects when its response is an array of
    /// objects; the response type is the name of the object it is bound to,
    /// or, for the miscellaneous object, the type of the response.
    pub fn blind_requirement(&self, op: &PathOperation, params: Vec<Parameter>) -> (r: Result<Option<(BlindTarget, OpRequirement)>, PaperClipError>)
        ensures
            blind_result(*self, *op, params@, r),
    {
        // Let's try from the response maybe...
        let s = match get_2xx_response_schema(op) {
            Some(s) => s,
            None => return Ok(None),
        };
        let listable = match &s.items {
            Some(i) => i.data_type == Some(DataType::Object),
            None => false,
        };
        let (target, response_ty_path) = if s.data_type == Some(DataType::Object) {
            (BlindTarget::Response, match self.def_name(s) {
                Ok(n) => Some(n),
                Err(_) => None,
            })
        } else if listable {
            let items: &Schema = match &s.items {
                Some(i) => &**i,
                None => return Ok(None),
            };
            (BlindTarget::Items, match self.def_name(items) {
                Ok(n) => Some(n),
                Err(_) => None,
            })
        } else {
            // We can't deal with simple types or nested arrays, so the
            // operation goes to the miscellaneous object.
            let ctx = DefinitionContext { define: false, parents: Vec::new() };
            assert(str_views(ctx.parents@) =~= Seq::<Seq<char>>::empty());
            let u = self.build_def(s, ctx)?;
            proof {
                law_reuse_gives_known_type(*self, *s, Seq::empty());
            }
            (BlindTarget::Miscellaneous, Some(u.known_type()))
        };
        Ok(
            Some(
                (
                    target,
                    OpRequirement {
                        id: copy_opt(&op.operation_id),
                        description: copy_opt(&op.description),
                        params,
                        body_required: false,
                        listable,
                        response_ty_path,
                    },
                ),
            ),
        )
    }
}

/// Binds a requirement to the first object of a module (the globally
/// defined object).
pub fn bind_to_first(objects: &mut Vec<ApiObject>, path: &str, meth: HttpMethod, req: OpRequirement)
    requires
        old(objects)@.len() > 0,
        paths_sorted(old(objects)@[0].paths@),
    ensures
        final(objects)@.len() == old(objects)@.len(),
        paths_sorted(final(objects)@[0].paths@),
        final(objects)@[0].spec_paths() == old(objects)@[0].spec_paths().insert(
            path@,
            bound_path(old(objects)@[0].spec_paths(), path@, meth, req),
        ),
        final(objects)@[0].name == old(objects)@[0].name,
        final(objects)@[0].fields == old(objects)@[0].fields,
        forall|i: int| 0 < i < final(objects)@.len() ==> final(objects)@[i] == old(objects)@[i],
{
    let mut first = objects.remove(0);
    first.bind_operation(path, meth, req);
    objects.insert(0, first);
    assert(forall|i: int| 0 < i < objects@.len() ==> objects@[i] == old(objects)@[i]);
}

impl DefaultEmitter {
    /// Binds an operation to the object of its body's schema (the first object
    /// of that schema's module).
    pub fn bind_schema_to_operation(
        &self,
        objects: &mut Vec<ApiObject>,
        path: &str,
        meth: HttpMethod,
        op: &PathOperation,
        params: Vec<Parameter>,
    ) -> (r: Result<(), PaperClipError>)
        requires
            old(objects)@.len() > 0,
            paths_sorted(old(objects)@[0].paths@),
        ensures
            r is Err ==> final(objects)@ == old(objects)@,
            r is Err ==> (first_2xx(op.responses@) matches Some(s) && spec_build(*self, s, false, Seq::empty()) is Err),
            r is Ok ==> exists|q: OpRequirement| {
                &&& is_requirement(q, *op, params@, true, false, match first_2xx(op.responses@) {
                    Some(s) => Some(known_of(spec_build(*self, s, false, Seq::empty())->Ok_0)),
                    None => None,
                })
                &&& final(objects)@[0].spec_paths() == old(objects)@[0].spec_paths().insert(
                    path@,
                    bound_path(old(objects)@[0].spec_paths(), path@, meth, q),
                )
            },
            final(objects)@.len() == old(objects)@.len(),
            paths_sorted(final(objects)@[0].paths@),
    {
        let q = self.schema_requirement(op, params)?;
        bind_to_first(objects, path, meth, q);
        Ok(())
    }
}

/* ---------------------------------------------------------------------- */
/* Path templates                                                         */
/* ---------------------------------------------------------------------- */

/// The index of the first `}` at or after `i`, when no line break comes
/// before it.
pub open spec fn close_at(s: Seq<char>, i: int) -> Option<int>
    decreases s.len() - i,
{
    if i < 0 || i >= s.len() {
        None
    } else if s[i] == '}' {
        Some(i)
    } else if s[i] == '\n' {
        None
    } else {
        close_at(s, i + 1)
    }
}

/// The path from `i` on with each template parameter (`{`, any text
/// without a line break, and the first `}` after it) replaced by `:`, and
/// the names of those parameters in order.
pub open spec fn template_from(s: Seq<char>, i: int) -> (Seq<char>, Seq<Seq<char>>)
    decreases s.len() - i,
{
    if i < 0 || i >= s.len() {
        (Seq::empty(), Seq::empty())
    } else if s[i] == '{' && close_at(s, i + 1) is Some && i < close_at(s, i + 1)->0 < s.len() {
        let b = close_at(s, i + 1)->0;
        let rest = template_from(s, b + 1);
        (":"@ + rest.0, seq![s.subrange(i + 1, b)] + rest.1)
    } else {
        let rest = template_from(s, i + 1);
        (seq![s[i]] + rest.0, rest.1)
    }
}


/// The first `}` at or after `i` before any line break.
fn find_close(v: &Vec<char>, i: usize) -> (r: Option<usize>)
    ensures
        match r {
            Some(b) => close_at(v@, i as int) == Some(b as int),
            None => close_at(v@, i as int) is None,
        },
{
    let mut j = i;
    while j < v.len()
        invariant
            i <= j,
            close_at(v@, i as int) == close_at(v@, j as int),
        decreases v.len() - j,
    {
        if v[j] == '}' {
            return Some(j);
        }
        if v[j] == '\n' {
            return None;
        }
        j = j + 1;
    }
    None
}

/// The path with each template parameter replaced by `:`, and the names of
/// those parameters in order.
pub fn path_template(path: &str) -> (r: (String, Vec<String>))
    ensures
        (r.0@, views(r.1@)) == template_from(path@, 0),
{
    let v = crate::text::chars_of(path);
    let mut out = String::new();
    let mut names: Vec<String> = Vec::new();
    let mut i: usize = 0;
    assert(views(names@) =~= Seq::<Seq<char>>::empty());
    while i < v.len()
        invariant
            v@ == path@,
            i <= v@.len(),
            out@ + template_from(v@, i as int).0 == template_from(v@, 0).0,
            views(names@) + template_from(v@, i as int).1 == template_from(v@, 0).1,
        decreases v.len() - i,
    {
        let ghost here = template_from(v@, i as int);
        if v[i] == '{' {
            if let Some(b) = find_close(&v, i + 1) {
                if i < b && b < v.len() {
                    let ghost rest = template_from(v@, b + 1);
                    let ghost before_out = out@;
                    let ghost before_names = views(names@);
                    push_str(&mut out, ":");
                    let name = crate::text::string_of_range(&v, i + 1, b);
                    names.push(name);
                    proof {
                        assert(here == (":"@ + rest.0, seq![v@.subrange(i + 1, b as int)] + rest.1));
                        assert(out@ + rest.0 =~= before_out + here.0);
                        assert(views(names@) =~= before_names.push(v@.subrange(i + 1, b as int)));
                        assert(views(names@) + rest.1 =~= before_names + here.1);
                    }
                    i = b + 1;
                    continue;
                }
            }
        }
        let ghost before_out = out@;
        crate::text::push_char(&mut out, v[i]);
        proof {
            let rest = template_from(v@, i + 1);
            assert(here == (seq![v@[i as int]] + rest.0, rest.1));
            assert(out@ + rest.0 =~= before_out + here.0);
        }
        i = i + 1;
    }
    (out, names)
}

/// Whether some text of `v` is `t`.
fn has_text(v: &Vec<String>, t: &str) -> (r: bool)
    ensures
        r == views(v@).contains(t@),
{
    let mut i: usize = 0;
    while i < v.len()
        invariant
            i <= v@.len(),
            forall|k: int| 0 <= k < i ==> v@[k]@ != t@,
        decreases v.len() - i,
    {
        if crate::object::str_eq(v[i].as_str(), t) {
            assert(views(v@)[i as int] == t@);
            return true;
        }
        i = i + 1;
    }
    assert forall|k: int| 0 <= k < views(v@).len() implies views(v@)[k] != t@ by {
        assert(views(v@)[k] == v@[k]@);
    }
    false
}

/// The names `acc` holds after adding each of `ns` in order, each only
/// when it is not held yet.
pub open spec fn names_added(acc: Seq<Seq<char>>, ns: Seq<Seq<char>>) -> Seq<Seq<char>>
    decreases ns.len(),
{
    if ns.len() == 0 {
        acc
    } else {
        let prev = names_added(acc, ns.drop_last());
        if prev.contains(ns.last()) {
            prev
        } else {
            prev.push(ns.last())
        }
    }
}

/// Records the names of the path's template parameters in
/// `template_params` (each once), then checks that the path is unlike every
/// path seen so far (paths are alike when they differ only in the names of
/// their template parameters) and records it. The names are recorded
/// whether or not the path is unique.
pub fn validate_path_and_add_params(
    rel_paths: &mut Vec<String>,
    template_params: &mut Vec<String>,
    path: &str,
) -> (r: Result<(), PaperClipError>)
    ensures
        ({
            let t = template_from(path@, 0);
            &&& views(final(template_params)@) == names_added(views(old(template_params)@), t.1)
            &&& views(old(rel_paths)@).contains(t.0) ==> {
                &&& r matches Err(e) && error_spec(e) == ErrorSpec::RelativePathNotUnique(path@)
                &&& final(rel_paths)@ == old(rel_paths)@
            }
            &&& !views(old(rel_paths)@).contains(t.0) ==> {
                &&& r is Ok
                &&& views(final(rel_paths)@) == views(old(rel_paths)@).push(t.0)
            }
        }),
{
    let (fmt, names) = path_template(path);
    let mut i: usize = 0;
    let ghost ns = views(names@);
    let ghost start = views(template_params@);
    assert(ns.take(0) =~= Seq::<Seq<char>>::empty());
    while i < names.len()
        invariant
            i <= names@.len(),
            ns == views(names@),
            views(template_params@) == names_added(start, ns.take(i as int)),
        decreases names.len() - i,
    {
        assert(ns.take(i + 1).drop_last() =~= ns.take(i as int));
        assert(ns.take(i + 1).last() == names@[i as int]@);
        if !has_text(template_params, names[i].as_str()) {
            let ghost before = views(template_params@);
            template_params.push(names[i].clone());
            assert(views(template_params@) =~= before.push(names@[i as int]@));
        }
        i = i + 1;
    }
    assert(ns.take(ns.len() as int) =~= ns);
    if has_text(rel_paths, fmt.as_str()) {
        let mut p = String::new();
        push_str(&mut p, path);
        return Err(PaperClipError::RelativePathNotUnique(p));
    }
    let ghost before = views(rel_paths@);
    rel_paths.push(fmt);
    assert(views(rel_paths@) =~= before.push(template_from(path@, 0).0));
    Ok(())
}

/// Checks that every name of the path template was defined by a path
/// parameter: the names left are an error.
pub fn check_template_params(path: &str, remaining: Vec<String>) -> (r: Result<(), PaperClipError>)
    ensures
        remaining@.len() == 0 <==> r is Ok,
        r matches Err(e) ==> error_spec(e) == ErrorSpec::MissingParametersInPath(path@, views(remaining@)),
{
    if remaining.len() == 0 {
        Ok(())
    } else {
        let mut p = String::new();
        push_str(&mut p, path);
        Err(PaperClipError::MissingParametersInPath(p, remaining))
    }
}

} // verus!
