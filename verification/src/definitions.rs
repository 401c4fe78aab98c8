//! Building Rust definitions from schemas: the names and module paths of
//! definitions, and the Rust type or the objects that a schema stands for.

use vstd::prelude::*;
use crate::emitter::{
    any_generic_parameter, file_marker, matching_unit_type, unit_type, DefinitionContext,
    EmittedUnit,
};
use crate::models::{DataType, DataTypeFormat};
use crate::object::{ApiObject, ObjectField};
use crate::text::{
    camel_case_of, chars_of, debug_text, debug_text_of, push_char, push_str, snake_case_of,
    string_of, string_of_range, to_camel_case, to_snake_case,
};

verus! {

/* ---------------------------------------------------------------------- */
/* Errors                                                                 */
/* ---------------------------------------------------------------------- */

/// Errors found while building definitions and collecting operations.
#[derive(Debug, Clone, PartialEq, Eq)]
pub enum PaperClipError {
    /// Paths listed in the spec must be unique.
    RelativePathNotUnique(String),
    /// The given schema object is an array, but the `items` field is missing.
    MissingArrayItem(Option<String>),
    /// The name for the given definition is missing.
    MissingDefinitionName,
    /// Currently, we only support OpenAPI v2, and eventually v3.
    UnsupportedOpenAPIVersion,
    /// A valid module path cannot be obtained for a definition.
    InvalidDefinitionPath(String),
    /// The host cannot be parsed (with the text of the URL error).
    InvalidHost(String, String),
    /// The base URL cannot be parsed (with the text of the URL error).
    InvalidBasePathURL(String, String),
    /// Names of the path template that no path parameter defines (each
    /// once, in the order of the template), with the path.
    MissingParametersInPath(String, Vec<String>),
}

/// The `Debug` forms of texts, separated by `, ` (as a set of texts is
/// shown, in the given order).
pub open spec fn debug_list(ns: Seq<Seq<char>>) -> Seq<char>
    decreases ns.len(),
{
    if ns.len() == 0 {
        Seq::empty()
    } else if ns.len() == 1 {
        debug_text_of(ns[0])
    } else {
        debug_list(ns.drop_last()) + ", "@ + debug_text_of(ns.last())
    }
}

/// Appends the `Debug` forms of texts, separated by `, `.
fn push_debug_list(s: &mut String, ns: &Vec<String>)
    ensures
        final(s)@ == old(s)@ + debug_list(views(ns@)),
{
    let mut i: usize = 0;
    assert(views(ns@).take(0) =~= Seq::<Seq<char>>::empty());
    while i < ns.len()
        invariant
            i <= ns@.len(),
            s@ == old(s)@ + debug_list(views(ns@).take(i as int)),
        decreases ns.len() - i,
    {
        assert(views(ns@).take(i + 1).drop_last() =~= views(ns@).take(i as int));
        if i > 0 {
            push_str(s, ", ");
        }
        let d = debug_text(ns[i].as_str());
        push_str(s, d.as_str());
        assert(s@ =~= old(s)@ + debug_list(views(ns@).take(i + 1)));
        i = i + 1;
    }
    assert(views(ns@).take(ns@.len() as int) =~= views(ns@));
}

impl PaperClipError {
    /// The text of the error.
    pub open spec fn spec_message(self) -> Seq<char> {
        match self {
            PaperClipError::RelativePathNotUnique(p) => "Path similar to "@ + debug_text_of(p@)
                + " already exists."@,
            PaperClipError::MissingArrayItem(n) => "Mising item schema for array: "@ + match n {
                Some(s) => "Some("@ + debug_text_of(s@) + ")"@,
                None => "None"@,
            },
            PaperClipError::MissingDefinitionName => "Missing name for definition"@,
            PaperClipError::UnsupportedOpenAPIVersion => "This version of OpenAPI is unsupported."@,
            PaperClipError::InvalidDefinitionPath(p) => "Invalid path for definition: "@ + debug_text_of(p@),
            PaperClipError::InvalidHost(h, e) => "Cannot parse host "@ + debug_text_of(h@) + ": "@ + e@,
            PaperClipError::InvalidBasePathURL(u, e) => "Cannot set URL "@ + debug_text_of(u@) + ": "@ + e@,
            PaperClipError::MissingParametersInPath(p, ns) => "Parameter(s) {"@ + debug_list(views(ns@))
                + "} aren't defined for templated path "@ + debug_text_of(p@),
        }
    }

    /// Describes the error as its `Display` form does.
    pub fn message(&self) -> (r: String)
        ensures
            r@ == self.spec_message(),
    {
        let mut s = String::new();
        match self {
            PaperClipError::RelativePathNotUnique(p) => {
                push_str(&mut s, "Path similar to ");
                let d = debug_text(p.as_str());
                push_str(&mut s, d.as_str());
                push_str(&mut s, " already exists.");
            },
            PaperClipError::MissingArrayItem(n) => {
                push_str(&mut s, "Mising item schema for array: ");
                match n {
                    Some(name) => {
                        push_str(&mut s, "Some(");
                        let d = debug_text(name.as_str());
                        push_str(&mut s, d.as_str());
                        push_str(&mut s, ")");
                    },
                    None => push_str(&mut s, "None"),
                }
            },
            PaperClipError::MissingDefinitionName => push_str(&mut s, "Missing name for definition"),
            PaperClipError::UnsupportedOpenAPIVersion => push_str(
                &mut s,
                "This version of OpenAPI is unsupported.",
            ),
            PaperClipError::InvalidDefinitionPath(p) => {
                push_str(&mut s, "Invalid path for definition: ");
                let d = debug_text(p.as_str());
                push_str(&mut s, d.as_str());
            },
            PaperClipError::InvalidHost(h, e) => {
                push_str(&mut s, "Cannot parse host ");
                let d = debug_text(h.as_str());
                push_str(&mut s, d.as_str());
                push_str(&mut s, ": ");
                push_str(&mut s, e.as_str());
            },
            PaperClipError::InvalidBasePathURL(u, e) => {
                push_str(&mut s, "Cannot set URL ");
                let d = debug_text(u.as_str());
                push_str(&mut s, d.as_str());
                push_str(&mut s, ": ");
                push_str(&mut s, e.as_str());
            },
            PaperClipError::MissingParametersInPath(p, ns) => {
                push_str(&mut s, "Parameter(s) {");
                push_debug_list(&mut s, ns);
                push_str(&mut s, "} aren't defined for templated path ");
                let d = debug_text(p.as_str());
                push_str(&mut s, d.as_str());
            },
        }
        s
    }
}

/* ---------------------------------------------------------------------- */
/* Splitting names into namespaces                                        */
/* ---------------------------------------------------------------------- */

/// The pieces of `s` between the non-overlapping occurrences of `sep`,
/// scanning from the left (what `str::split` yields for a non-empty
/// separator): at least one piece, empty pieces included.
pub open spec fn split_text(s: Seq<char>, sep: Seq<char>) -> Seq<Seq<char>>
    decreases s.len(),
{
    if sep.len() == 0 || s.len() == 0 {
        seq![s]
    } else if sep.len() <= s.len() && s.take(sep.len() as int) == sep {
        seq![Seq::<char>::empty()] + split_text(s.skip(sep.len() as int), sep)
    } else {
        let r = split_text(s.skip(1), sep);
        r.update(0, seq![s[0]] + r[0])
    }
}

/// `split_text` yields at least one piece.
pub proof fn lemma_split_text_nonempty(s: Seq<char>, sep: Seq<char>)
    ensures
        split_text(s, sep).len() >= 1,
    decreases s.len(),
{
    if sep.len() > 0 && s.len() > 0 {
        if sep.len() <= s.len() && s.take(sep.len() as int) == sep {
            lemma_split_text_nonempty(s.skip(sep.len() as int), sep);
        } else {
            lemma_split_text_nonempty(s.skip(1), sep);
        }
    }
}

/// The pieces with `cur` put before the first one.
pub open spec fn prepend_first(cur: Seq<char>, r: Seq<Seq<char>>) -> Seq<Seq<char>> {
    r.update(0, cur + r[0])
}

/// Whether `p` occurs in `v` at position `i`.
fn occurs_at(v: &Vec<char>, p: &Vec<char>, i: usize) -> (b: bool)
    requires
        i <= v@.len(),
    ensures
        b == (p@.len() <= v@.skip(i as int).len() && v@.skip(i as int).take(p@.len() as int)
            == p@),
{
    if p.len() > v.len() - i {
        return false;
    }
    let mut j: usize = 0;
    while j < p.len()
        invariant
            i + p@.len() <= v@.len(),
            j <= p@.len(),
            forall|k: int| 0 <= k < j ==> v@[i + k] == p@[k],
        decreases p.len() - j,
    {
        assert(v@.len() == v.len());
        if v[i + j] != p[j] {
            assert(v@.skip(i as int).take(p@.len() as int)[j as int] == v@[i + j]);
            return false;
        }
        j = j + 1;
    }
    assert(v@.skip(i as int).take(p@.len() as int) =~= p@);
    true
}

/// The views of owned strings.
pub open spec fn views(v: Seq<String>) -> Seq<Seq<char>> {
    Seq::new(v.len(), |i: int| v[i]@)
}

/// Splits `s` at the occurrences of a non-empty separator.
pub fn split(s: &str, sep: &str) -> (r: Vec<String>)
    requires
        sep@.len() > 0,
    ensures
        views(r@) == split_text(s@, sep@),
{
    let v = chars_of(s);
    let p = chars_of(sep);
    let mut done: Vec<String> = Vec::new();
    let mut cur: Vec<char> = Vec::new();
    let mut i: usize = 0;
    assert(v@.skip(0) =~= v@);
    proof {
        lemma_split_text_nonempty(s@, sep@);
        assert(prepend_first(Seq::<char>::empty(), split_text(s@, sep@)) =~= split_text(s@, sep@));
        assert(views(done@) + prepend_first(cur@, split_text(v@.skip(0), sep@)) =~= split_text(
            s@,
            sep@,
        ));
    }
    while i < v.len()
        invariant
            i <= v@.len(),
            v@ == s@,
            p@ == sep@,
            p@.len() > 0,
            split_text(s@, sep@) == views(done@) + prepend_first(cur@, split_text(v@.skip(i as int), sep@)),
        decreases v.len() - i,
    {
        let ghost rest = v@.skip(i as int);
        if occurs_at(&v, &p, i) {
            proof {
                lemma_split_text_nonempty(rest.skip(p@.len() as int), sep@);
                assert(rest.skip(p@.len() as int) =~= v@.skip(i + p@.len()));
                let x = split_text(v@.skip(i + p@.len()), sep@);
                assert(split_text(rest, sep@) == seq![Seq::<char>::empty()] + x);
                assert(prepend_first(cur@, split_text(rest, sep@)) =~= seq![cur@] + prepend_first(
                    Seq::<char>::empty(),
                    x,
                ));
            }
            let ghost old_done = views(done@);
            let ghost old_cur = cur@;
            let piece = string_of(&cur);
            done.push(piece);
            assert(views(done@) =~= old_done.push(old_cur));
            cur = Vec::new();
            i = i + p.len();
            proof {
                let x = split_text(v@.skip(i as int), sep@);
                lemma_split_text_nonempty(v@.skip(i as int), sep@);
                assert(prepend_first(cur@, x) =~= x);
                assert(prepend_first(Seq::<char>::empty(), x) =~= x);
                assert(split_text(s@, sep@) =~= views(done@) + prepend_first(cur@, x));
            }
        } else {
            proof {
                lemma_split_text_nonempty(rest.skip(1), sep@);
                assert(rest.skip(1) =~= v@.skip(i + 1));
                assert(rest[0] == v@[i as int]);
                let x = split_text(v@.skip(i + 1), sep@);
                assert(split_text(rest, sep@) == x.update(0, seq![rest[0]] + x[0]));
                assert(cur@ + (seq![v@[i as int]] + x[0]) =~= cur@.push(v@[i as int]) + x[0]);
                assert(prepend_first(cur@, split_text(rest, sep@)) =~= prepend_first(
                    cur@.push(v@[i as int]),
                    x,
                ));
            }
            cur.push(v[i]);
            i = i + 1;
        }
    }
    proof {
        assert(v@.skip(i as int) =~= Seq::<char>::empty());
        assert(prepend_first(cur@, split_text(Seq::<char>::empty(), sep@)) =~= seq![cur@]);
    }
    let last = string_of(&cur);
    done.push(last);
    assert(views(done@) =~= split_text(s@, sep@));
    done
}

/// Splits `s` at the occurrences of `sep`. For an empty separator, as
/// `str::split` does, the pieces are an empty one, each character, and an
/// empty one.
pub open spec fn split_any(s: Seq<char>, sep: Seq<char>) -> Seq<Seq<char>> {
    if sep.len() == 0 {
        seq![Seq::<char>::empty()] + Seq::new(s.len(), |i: int| seq![s[i]]) + seq![Seq::<char>::empty()]
    } else {
        split_text(s, sep)
    }
}

/// Splits `s` at the occurrences of `sep`, as `str::split` does.
pub fn split_at_separator(s: &str, sep: &str) -> (r: Vec<String>)
    ensures
        views(r@) == split_any(s@, sep@),
{
    let p = chars_of(sep);
    if p.len() > 0 {
        return split(s, sep);
    }
    let v = chars_of(s);
    let mut out: Vec<String> = Vec::new();
    out.push(String::new());
    let mut i: usize = 0;
    while i < v.len()
        invariant
            i <= v@.len(),
            v@ == s@,
            views(out@) == seq![Seq::<char>::empty()] + Seq::new(i as nat, |k: int| seq![s@[k]]),
        decreases v.len() - i,
    {
        let mut one = String::new();
        push_char(&mut one, v[i]);
        let ghost before = views(out@);
        out.push(one);
        assert(views(out@) =~= before.push(seq![s@[i as int]]));
        assert(seq![Seq::<char>::empty()] + Seq::new((i + 1) as nat, |k: int| seq![s@[k]]) =~= before.push(
            seq![s@[i as int]],
        ));
        i = i + 1;
    }
    let ghost before = views(out@);
    out.push(String::new());
    assert(views(out@) =~= before.push(Seq::<char>::empty()));
    assert(views(out@) =~= split_any(s@, sep@));
    out
}

/* ---------------------------------------------------------------------- */
/* Schemas                                                                */
/* ---------------------------------------------------------------------- */

/// The additional properties of an object schema.
#[derive(Debug)]
pub enum Extra {
    /// Whether any additional property is allowed.
    Allowed(bool),
    /// The schema of the additional properties.
    Schema(Box<Schema>),
}

/// A schema definition, by what the emitter reads of it.
#[derive(Debug)]
pub struct Schema {
    /// The name of the definition, if it has one (namespaces separated by
    /// the emitter's separator).
    pub name: Option<String>,
    /// The description, if any.
    pub description: Option<String>,
    /// The data type, if any.
    pub data_type: Option<DataType>,
    /// The format of the data type, if any.
    pub format: Option<DataTypeFormat>,
    /// The schema of the items of an array.
    pub items: Option<Box<Schema>>,
    /// The properties of an object, ordered by name.
    pub properties: Option<Vec<(String, Schema)>>,
    /// The names of the required properties, ordered.
    pub required: Option<Vec<String>>,
    /// The additional properties of an object, if specified.
    pub additional_properties: Option<Extra>,
    /// Whether the schema refers to itself (so that a field of its type must be boxed).
    pub cyclic: bool,
    /// Whether the schema is or holds a value of any type (so that a field
    /// of its type needs the `Any` type parameter).
    pub contains_any: bool,
}

/// The number of properties of a schema.
pub open spec fn prop_count(def: Schema) -> nat {
    match def.properties {
        Some(ps) => ps@.len(),
        None => 0,
    }
}

/// The view of an optional string.
pub open spec fn opt_view(o: Option<String>) -> Option<Seq<char>> {
    match o {
        Some(s) => Some(s@),
        None => None,
    }
}

/// The emitter's configuration as the naming of definitions reads it.
#[derive(Debug, Clone)]
pub struct DefaultEmitter {
    /// Namespace separation string.
    pub ns_sep: String,
    /// Module prefix for using in generated code.
    pub mod_prefix: String,
}

/// The snake-cased namespaces of a name.
pub open spec fn ns_names(name: Seq<char>, sep: Seq<char>) -> Seq<Seq<char>> {
    Seq::new(split_any(name, sep).len(), |i: int| snake_case_of(split_any(name, sep)[i]))
}

/// The camel-cased name of a definition: its last namespace.
pub open spec fn camel_name(name: Seq<char>, sep: Seq<char>) -> Seq<char> {
    camel_case_of(ns_names(name, sep).last())
}

/// The parents, each followed by `_`.
pub open spec fn joined_parents(parents: Seq<Seq<char>>) -> Seq<char>
    decreases parents.len(),
{
    if parents.len() == 0 {
        Seq::empty()
    } else {
        joined_parents(parents.drop_last()) + parents.last() + seq!['_']
    }
}

/// The name generated for an anonymous definition from its parents.
pub open spec fn anon_name(parents: Seq<Seq<char>>) -> Option<Seq<char>> {
    if joined_parents(parents).len() == 0 {
        None
    } else {
        Some(camel_case_of(joined_parents(parents)))
    }
}

/// The views of string slices.
pub open spec fn str_views(v: Seq<&str>) -> Seq<Seq<char>> {
    Seq::new(v.len(), |i: int| v[i]@)
}

/// A text without the `:` at its start and at its end.
pub open spec fn trim_colons(s: Seq<char>) -> Seq<char>
    decreases s.len(),
{
    if s.len() > 0 && s[0] == ':' {
        trim_colons(s.drop_first())
    } else if s.len() > 0 && s.last() == ':' {
        trim_colons(s.drop_last())
    } else {
        s
    }
}

/// The path of a named definition's type: the trimmed module prefix, then
/// for each namespace `::` and the namespace; the last one is followed by
/// `::` and its camel-cased form.
pub open spec fn named_type_path(prefix: Seq<char>, names: Seq<Seq<char>>) -> Seq<char>
    decreases names.len(),
{
    if names.len() == 0 {
        trim_colons(prefix)
    } else {
        named_type_path(prefix, names.drop_last()) + "::"@ + names.last()
    }
}

/// The same, with the last namespace followed by `::` and its camel-cased form.
pub open spec fn known_type_path(prefix: Seq<char>, names: Seq<Seq<char>>) -> Seq<char> {
    named_type_path(prefix, names) + "::"@ + camel_case_of(names.last())
}

impl DefaultEmitter {
    /// Returns the path components of the given definition: the pieces of its
    /// name between separators, snake-cased.
    pub fn def_ns_name(&self, def: &Schema) -> (r: Result<Vec<String>, PaperClipError>)
        ensures
            match def.name {
                Some(n) => r matches Ok(v) && views(v@) == ns_names(n@, self.ns_sep@),
                None => r == Err::<Vec<String>, PaperClipError>(PaperClipError::MissingDefinitionName),
            },
    {
        match &def.name {
            Some(n) => {
                let pieces = split_at_separator(n.as_str(), self.ns_sep.as_str());
                let mut out: Vec<String> = Vec::new();
                let mut i: usize = 0;
                while i < pieces.len()
                    invariant
                        i <= pieces@.len(),
                        views(pieces@) == split_any(n@, self.ns_sep@),
                        views(out@) == Seq::new(i as nat, |k: int| snake_case_of(split_any(n@, self.ns_sep@)[k])),
                    decreases pieces.len() - i,
                {
                    let c = to_snake_case(pieces[i].as_str());
                    let ghost before = views(out@);
                    out.push(c);
                    assert(pieces@[i as int]@ == split_any(n@, self.ns_sep@)[i as int]);
                    assert(views(out@) =~= before.push(c@));
                    assert(views(out@) =~= Seq::new((i + 1) as nat, |k: int| snake_case_of(split_any(n@, self.ns_sep@)[k])));
                    i = i + 1;
                }
                Ok(out)
            },
            None => Err(PaperClipError::MissingDefinitionName),
        }
    }

    /// Returns the camel-cased name for the given definition.
    pub fn def_name(&self, def: &Schema) -> (r: Result<String, PaperClipError>)
        ensures
            match def.name {
                Some(n) => r matches Ok(s) && s@ == camel_name(n@, self.ns_sep@),
                None => r == Err::<String, PaperClipError>(PaperClipError::MissingDefinitionName),
            },
    {
        let names = self.def_ns_name(def)?;
        proof {
            lemma_split_any_nonempty(def.name->0@, self.ns_sep@);
            assert(views(names@).len() == names@.len());
        }
        let last = &names[names.len() - 1];
        Ok(to_camel_case(last.as_str()))
    }

    /// Returns the camel-cased name for some definition based on its parent
    /// names: each parent followed by `_`; none when that is empty.
    pub fn def_anon_name(&self, def: &Schema, parents: &[&str]) -> (r: Option<String>)
        ensures
            opt_view(r) == anon_name(str_views(parents@)),
    {
        let mut name = String::new();
        let mut i: usize = 0;
        while i < parents.len()
            invariant
                i <= parents@.len(),
                name@ == joined_parents(str_views(parents@.take(i as int))),
            decreases parents.len() - i,
        {
            assert(str_views(parents@.take(i + 1)).drop_last() =~= str_views(parents@.take(i as int)));
            push_str(&mut name, parents[i]);
            push_char(&mut name, '_');
            i = i + 1;
        }
        assert(parents@.take(parents@.len() as int) =~= parents@);
        if name.as_str().is_empty() {
            None
        } else {
            Some(to_camel_case(name.as_str()))
        }
    }
}

/// `split_any` yields at least one piece.
pub proof fn lemma_split_any_nonempty(s: Seq<char>, sep: Seq<char>)
    ensures
        split_any(s, sep).len() >= 1,
{
    lemma_split_text_nonempty(s, sep);
}

/* ---------------------------------------------------------------------- */
/* What a schema stands for                                               */
/* ---------------------------------------------------------------------- */

/// The content of an object field.
#[verifier::ext_equal]
pub ghost struct FieldSpec {
    pub name: Seq<char>,
    pub ty_path: Seq<char>,
    pub description: Option<Seq<char>>,
    pub is_required: bool,
    pub needs_any: bool,
    pub boxed: bool,
    pub children_req: Seq<Seq<char>>,
}

/// The content of an object.
#[verifier::ext_equal]
pub ghost struct ObjectSpec {
    pub name: Seq<char>,
    pub description: Option<Seq<char>>,
    pub path: Seq<char>,
    pub fields: Seq<FieldSpec>,
    pub paths: nat,
}

/// The content of an emitted unit.
pub ghost enum UnitSpec {
    Known(Seq<char>),
    Objects(Seq<ObjectSpec>),
    KnownButAnonymous(Seq<char>, Seq<ObjectSpec>),
    Nothing,
}

/// The content of an error.
pub ghost enum ErrorSpec {
    RelativePathNotUnique(Seq<char>),
    MissingArrayItem(Option<Seq<char>>),
    MissingDefinitionName,
    UnsupportedOpenAPIVersion,
    InvalidDefinitionPath(Seq<char>),
    InvalidHost(Seq<char>, Seq<char>),
    InvalidBasePathURL(Seq<char>, Seq<char>),
    MissingParametersInPath(Seq<char>, Seq<Seq<char>>),
}

/// The view of an object field.
pub open spec fn field_spec(f: ObjectField) -> FieldSpec {
    FieldSpec {
        name: f.name@,
        ty_path: f.ty_path@,
        description: opt_view(f.description),
        is_required: f.is_required,
        needs_any: f.needs_any,
        boxed: f.boxed,
        children_req: views(f.children_req@),
    }
}

/// The view of an object.
pub open spec fn object_spec(o: ApiObject) -> ObjectSpec {
    ObjectSpec {
        name: o.name@,
        description: opt_view(o.description),
        path: o.path@,
        fields: Seq::new(o.fields@.len(), |i: int| field_spec(o.fields@[i])),
        paths: o.paths@.len(),
    }
}

/// The views of objects.
pub open spec fn objects_spec(os: Seq<ApiObject>) -> Seq<ObjectSpec> {
    Seq::new(os.len(), |i: int| object_spec(os[i]))
}

/// The view of an emitted unit.
pub open spec fn unit_spec(u: EmittedUnit) -> UnitSpec {
    match u {
        EmittedUnit::Known(s) => UnitSpec::Known(s@),
        EmittedUnit::Objects(o) => UnitSpec::Objects(objects_spec(o@)),
        EmittedUnit::KnownButAnonymous(s, o) => UnitSpec::KnownButAnonymous(s@, objects_spec(o@)),
        EmittedUnit::Nothing => UnitSpec::Nothing,
    }
}

/// The view of an error.
pub open spec fn error_spec(e: PaperClipError) -> ErrorSpec {
    match e {
        PaperClipError::RelativePathNotUnique(p) => ErrorSpec::RelativePathNotUnique(p@),
        PaperClipError::MissingArrayItem(n) => ErrorSpec::MissingArrayItem(opt_view(n)),
        PaperClipError::MissingDefinitionName => ErrorSpec::MissingDefinitionName,
        PaperClipError::UnsupportedOpenAPIVersion => ErrorSpec::UnsupportedOpenAPIVersion,
        PaperClipError::InvalidDefinitionPath(p) => ErrorSpec::InvalidDefinitionPath(p@),
        PaperClipError::InvalidHost(h, e) => ErrorSpec::InvalidHost(h@, e@),
        PaperClipError::InvalidBasePathURL(u, e) => ErrorSpec::InvalidBasePathURL(u@, e@),
        PaperClipError::MissingParametersInPath(p, ns) => ErrorSpec::MissingParametersInPath(p@, views(ns@)),
    }
}

/// The view of the result of building a definition.
pub open spec fn build_spec(r: Result<EmittedUnit, PaperClipError>) -> Result<UnitSpec, ErrorSpec> {
    match r {
        Ok(u) => Ok(unit_spec(u)),
        Err(e) => Err(error_spec(e)),
    }
}

/// The known type of a unit.
pub open spec fn known_of(u: UnitSpec) -> Seq<char> {
    match u {
        UnitSpec::Known(s) => s,
        UnitSpec::KnownButAnonymous(s, _) => s,
        _ => Seq::empty(),
    }
}

/// The anonymous objects that come with a known type.
pub open spec fn anon_objects(u: UnitSpec) -> Seq<ObjectSpec> {
    match u {
        UnitSpec::KnownButAnonymous(_, o) => o,
        _ => Seq::empty(),
    }
}

/// Whether a unit carries a known type.
pub open spec fn is_known_spec(u: UnitSpec) -> bool {
    u is Known || u is KnownButAnonymous
}

/// A known unit with its type replaced, keeping its objects.
pub open spec fn with_known(u: UnitSpec, ty: Seq<char>) -> UnitSpec {
    match u {
        UnitSpec::KnownButAnonymous(_, o) => UnitSpec::KnownButAnonymous(ty, o),
        _ => UnitSpec::Known(ty),
    }
}

/// The order of the measure: defining comes before reusing.
pub open spec fn flag(define: bool) -> nat {
    if define {
        0
    } else {
        1
    }
}

/// The requirements of the "deepest" child type of a schema: those of the
/// value schema of a map, of the items of an array, or the required
/// properties of an object.
pub open spec fn children_reqs(schema: Schema) -> Seq<Seq<char>>
    decreases schema,
{
    match schema.data_type {
        Some(DataType::Object) => match schema.additional_properties {
            Some(Extra::Schema(s)) => children_reqs(*s),
            _ => match schema.required {
                Some(r) => views(r@),
                None => Seq::empty(),
            },
        },
        Some(DataType::Array) => match schema.items {
            Some(i) => children_reqs(*i),
            None => Seq::empty(),
        },
        _ => Seq::empty(),
    }
}

/// Whether the required properties of a schema hold `name`.
pub open spec fn required_holds(required: Option<Vec<String>>, name: Seq<char>) -> bool {
    match required {
        Some(r) => exists|k: int| 0 <= k < r@.len() && (#[trigger] r@[k])@ == name,
        None => false,
    }
}

/// The field collecting additional properties.
pub open spec fn extra_field() -> FieldSpec {
    FieldSpec {
        name: "other_fields"@,
        ty_path: "std::collections::BTreeMap<String, Any>"@,
        description: None,
        is_required: false,
        needs_any: true,
        boxed: false,
        children_req: Seq::empty(),
    }
}

/// What a schema stands for, in the given context: the unit type or
/// nothing (when defining), an array, an object, the file marker, or the
/// generic `Any` (nothing when defining).
pub open spec fn spec_build(e: DefaultEmitter, def: Schema, define: bool, parents: Seq<Seq<char>>) -> Result<UnitSpec, ErrorSpec>
    decreases def, flag(define), prop_count(def) + 3,
{
    match unit_type(def.format, def.data_type) {
        Some(t) => Ok(
            if define {
                UnitSpec::Nothing
            } else {
                UnitSpec::Known(t)
            },
        ),
        None => match def.data_type {
            Some(DataType::Array) => spec_array(e, def, define, parents),
            Some(DataType::Object) => spec_object(e, def, define, parents),
            Some(DataType::File) => Ok(UnitSpec::Known(file_marker())),
            Some(_) => Ok(UnitSpec::Nothing),
            None => Ok(
                if define {
                    UnitSpec::Nothing
                } else {
                    UnitSpec::Known(any_generic_parameter())
                },
            ),
        },
    }
}

/// The parents for the items of an array: the array's name if it has one,
/// then `item` if the items have no name.
pub open spec fn item_parents(def: Schema, it: Schema, parents: Seq<Seq<char>>) -> Seq<Seq<char>> {
    let p1 = match def.name {
        Some(n) => parents.push(n@),
        None => parents,
    };
    if it.name is None {
        p1.push("item"@)
    } else {
        p1
    }
}

/// What an array stands for: when defining, the objects of its anonymous
/// items (or nothing); else a `Vec` of the items' type.
pub open spec fn spec_array(e: DefaultEmitter, def: Schema, define: bool, parents: Seq<Seq<char>>) -> Result<UnitSpec, ErrorSpec>
    decreases def, flag(define), 0nat,
{
    match def.items {
        None => Err(ErrorSpec::MissingArrayItem(
            match def.name {
                Some(n) => Some(camel_name(n@, e.ns_sep@)),
                None => None,
            },
        )),
        Some(it) => {
            let ps = item_parents(def, *it, parents);
            if define {
                if it.name is None {
                    match spec_build(e, *it, true, ps) {
                        Err(x) => Err(x),
                        Ok(UnitSpec::Objects(o)) => Ok(UnitSpec::Objects(o)),
                        Ok(_) => Ok(UnitSpec::Nothing),
                    }
                } else {
                    Ok(UnitSpec::Nothing)
                }
            } else {
                match spec_build(e, *it, false, ps) {
                    Err(x) => Err(x),
                    Ok(u) => Ok(with_known(u, "Vec<"@ + known_of(u) + ">"@)),
                }
            }
        },
    }
}

/// What an object stands for: a map when it has a schema for additional
/// properties; else its struct when defining, or the path of its type.
pub open spec fn spec_object(e: DefaultEmitter, def: Schema, define: bool, parents: Seq<Seq<char>>) -> Result<UnitSpec, ErrorSpec>
    decreases def, flag(define), prop_count(def) + 2,
{
    match spec_map(e, def, define, parents) {
        Err(x) => Err(x),
        Ok(UnitSpec::Nothing) => if !define {
            spec_known_path(e, def, parents)
        } else {
            spec_struct(e, def, parents)
        },
        Ok(u) => Ok(u),
    }
}

/// What an object with a schema for additional properties stands for, when
/// not defining: a `BTreeMap` from `String` to the values' type.
pub open spec fn spec_map(e: DefaultEmitter, def: Schema, define: bool, parents: Seq<Seq<char>>) -> Result<UnitSpec, ErrorSpec>
    decreases def, flag(define), 0nat,
{
    if define {
        Ok(UnitSpec::Nothing)
    } else {
        match def.additional_properties {
            Some(Extra::Schema(s)) => match spec_build(e, *s, false, parents) {
                Err(x) => Err(x),
                Ok(u) => Ok(UnitSpec::Known("std::collections::BTreeMap<String, "@ + known_of(u) + ">"@)),
            },
            _ => Ok(UnitSpec::Nothing),
        }
    }
}

/// The path of an object's type: for an anonymous object, in the module of
/// its first parent, with its objects; else the path of its namespaces.
pub open spec fn spec_known_path(e: DefaultEmitter, def: Schema, parents: Seq<Seq<char>>) -> Result<UnitSpec, ErrorSpec>
    decreases def, 1nat, 1nat,
{
    match def.name {
        Some(n) => Ok(UnitSpec::Known(known_type_path(e.mod_prefix@, ns_names(n@, e.ns_sep@)))),
        None => match spec_build(e, def, true, parents) {
            Err(x) => Err(x),
            Ok(UnitSpec::Objects(o)) => match anon_name(parents) {
                Some(name) => Ok(UnitSpec::KnownButAnonymous(
                    trim_colons(e.mod_prefix@) + "::"@ + snake_case_of(parents[0]) + "::"@ + name,
                    o,
                )),
                None => Err(ErrorSpec::MissingDefinitionName),
            },
            Ok(_) => Ok(UnitSpec::Nothing),
        },
    }
}

/// The struct of an object, first, then the anonymous objects of its fields.
pub open spec fn spec_struct(e: DefaultEmitter, def: Schema, parents: Seq<Seq<char>>) -> Result<UnitSpec, ErrorSpec>
    decreases def, 0nat, prop_count(def) + 1,
{
    let name_opt = match def.name {
        Some(n) => Some(camel_name(n@, e.ns_sep@)),
        None => anon_name(parents),
    };
    match name_opt {
        None => Err(ErrorSpec::MissingDefinitionName),
        Some(name) => {
            let ps = if parents.len() == 0 && def.name is Some {
                seq![name]
            } else {
                parents
            };
            match spec_fields(e, def, prop_count(def), ps) {
                Err(x) => Err(x),
                Ok((fields, objs)) => {
                    let all = if def.properties is Some && (def.additional_properties matches Some(
                        Extra::Allowed(b),
                    ) && b) {
                        fields.push(extra_field())
                    } else {
                        fields
                    };
                    Ok(UnitSpec::Objects(
                        seq![
                            ObjectSpec {
                                name,
                                description: opt_view(def.description),
                                path: Seq::empty(),
                                fields: all,
                                paths: 0,
                            },
                        ] + objs,
                    ))
                },
            }
        },
    }
}

/// The fields of the first `i` properties of an object and the anonymous
/// objects of their types.
pub open spec fn spec_fields(e: DefaultEmitter, def: Schema, i: nat, parents: Seq<Seq<char>>) -> Result<(Seq<FieldSpec>, Seq<ObjectSpec>), ErrorSpec>
    decreases def, 0nat, i,
{
    if i == 0 || i > prop_count(def) {
        Ok((Seq::empty(), Seq::empty()))
    } else {
        match spec_fields(e, def, (i - 1) as nat, parents) {
            Err(x) => Err(x),
            Ok((fs, os)) => {
                let entry = def.properties->0@[i - 1];
                match spec_build(e, entry.1, false, parents.push(entry.0@)) {
                    Err(x) => Err(x),
                    Ok(u) => Ok(
                        (
                            fs.push(
                                FieldSpec {
                                    name: entry.0@,
                                    ty_path: known_of(u),
                                    description: opt_view(entry.1.description),
                                    is_required: required_holds(def.required, entry.0@),
                                    needs_any: entry.1.contains_any,
                                    boxed: entry.1.cyclic,
                                    children_req: children_reqs(entry.1),
                                },
                            ),
                            os + anon_objects(u),
                        ),
                    ),
                }
            },
        }
    }
}

/* ---------------------------------------------------------------------- */
/* Facts about what a schema stands for                                   */
/* ---------------------------------------------------------------------- */

/// An object that is not a unit type, built for definition, is its objects
/// (or an error).
proof fn lemma_defined_object(e: DefaultEmitter, def: Schema, parents: Seq<Seq<char>>)
    requires
        unit_type(def.format, def.data_type) is None,
        def.data_type == Some(DataType::Object),
    ensures
        spec_build(e, def, true, parents) is Err || spec_build(e, def, true, parents) matches Ok(
            UnitSpec::Objects(_),
        ),
{
    assert(spec_map(e, def, true, parents) == Ok::<UnitSpec, ErrorSpec>(UnitSpec::Nothing));
    assert(spec_object(e, def, true, parents) == spec_struct(e, def, parents));
    assert(spec_build(e, def, true, parents) == spec_object(e, def, true, parents));
}

/// **Law.** Building any schema for reuse (not for definition) gives a
/// known Rust type, possibly with anonymous objects, unless it fails.
pub proof fn law_reuse_gives_known_type(e: DefaultEmitter, def: Schema, parents: Seq<Seq<char>>)
    ensures
        spec_build(e, def, false, parents) matches Ok(u) ==> is_known_spec(u),
{
    lemma_reused_is_known(e, def, parents);
}

/// **Law.** The fields of an object are its properties, in order, each
/// named after its property and typed by what the property's schema stands
/// for.
pub proof fn law_fields_follow_properties(
    e: DefaultEmitter,
    def: Schema,
    i: nat,
    parents: Seq<Seq<char>>,
)
    ensures
        spec_fields(e, def, i, parents) matches Ok((fs, os)) ==> {
            &&& i <= prop_count(def) ==> fs.len() == i
            &&& forall|k: int|
                0 <= k < fs.len() && i <= prop_count(def) ==> ((#[trigger] fs[k]).name
                    == def.properties->0@[k].0@ && (spec_build(
                    e,
                    def.properties->0@[k].1,
                    false,
                    parents.push(def.properties->0@[k].0@),
                ) matches Ok(u) && fs[k].ty_path == known_of(u)))
            &&& forall|k: int|
                0 <= k < fs.len() && i <= prop_count(def) ==> (#[trigger] fs[k]).boxed
                    == def.properties->0@[k].1.cyclic && fs[k].needs_any == def.properties->0@[k].1.contains_any
                    && fs[k].is_required == required_holds(def.required, def.properties->0@[k].0@)
        },
    decreases i,
{
    if i > 0 && i <= prop_count(def) {
        law_fields_follow_properties(e, def, (i - 1) as nat, parents);
    }
}

/// **Law.** The struct built for an object schema has a field for each of
/// its properties, in order, named after the property and boxed exactly
/// when the property's schema refers back to the schema being defined
/// (`cyclic`), so that a recursive type has a finite size.
pub proof fn law_struct_fields_boxed_when_cyclic(e: DefaultEmitter, def: Schema, parents: Seq<Seq<char>>)
    ensures
        spec_struct(e, def, parents) matches Ok(UnitSpec::Objects(objs)) ==> {
            &&& objs.len() > 0
            &&& objs[0].fields.len() >= prop_count(def)
            &&& forall|k: int|
                0 <= k < prop_count(def) ==> (#[trigger] objs[0].fields[k]).name == def.properties->0@[k].0@
                    && objs[0].fields[k].boxed == def.properties->0@[k].1.cyclic
        },
{
    let name_opt = match def.name {
        Some(n) => Some(camel_name(n@, e.ns_sep@)),
        None => anon_name(parents),
    };
    if let Some(name) = name_opt {
        let ps = if parents.len() == 0 && def.name is Some {
            seq![name]
        } else {
            parents
        };
        law_fields_follow_properties(e, def, prop_count(def), ps);
        if let Ok((fields, objs)) = spec_fields(e, def, prop_count(def), ps) {
            let all = if def.properties is Some && (def.additional_properties matches Some(Extra::Allowed(b)) && b) {
                fields.push(extra_field())
            } else {
                fields
            };
            assert forall|k: int| 0 <= k < prop_count(def) implies (#[trigger] all[k]).name == def.properties->0@[k].0@
                && all[k].boxed == def.properties->0@[k].1.cyclic by {
                assert(all[k] == fields[k]);
            }
        }
    }
}

/// A schema built for reuse gives a known type (or an error).
proof fn lemma_reused_is_known(e: DefaultEmitter, def: Schema, parents: Seq<Seq<char>>)
    ensures
        spec_build(e, def, false, parents) matches Ok(u) ==> is_known_spec(u),
{
    if unit_type(def.format, def.data_type) is None {
        match def.data_type {
            Some(DataType::Array) => {
                assert(spec_build(e, def, false, parents) == spec_array(e, def, false, parents));
            },
            Some(DataType::Object) => {
                assert(spec_build(e, def, false, parents) == spec_object(e, def, false, parents));
                if spec_map(e, def, false, parents) == Ok::<UnitSpec, ErrorSpec>(UnitSpec::Nothing) {
                    assert(spec_object(e, def, false, parents) == spec_known_path(e, def, parents));
                    if def.name is None {
                        lemma_defined_object(e, def, parents);
                    }
                }
            },
            _ => {},
        }
    }
}

/// Once the fields fail, they fail with the same error.
proof fn lemma_fields_error(e: DefaultEmitter, def: Schema, i: nat, j: nat, parents: Seq<Seq<char>>)
    requires
        i <= j <= prop_count(def),
        spec_fields(e, def, i, parents) is Err,
    ensures
        spec_fields(e, def, j, parents) == spec_fields(e, def, i, parents),
    decreases j - i,
{
    if j > i {
        lemma_fields_error(e, def, i, (j - 1) as nat, parents);
    }
}

/// The name of a struct and the parents of its fields.
pub open spec fn struct_name(e: DefaultEmitter, def: Schema, parents: Seq<Seq<char>>) -> Option<Seq<char>> {
    match def.name {
        Some(n) => Some(camel_name(n@, e.ns_sep@)),
        None => anon_name(parents),
    }
}

/// The parents of the fields of a struct named `name`.
pub open spec fn field_parents(def: Schema, parents: Seq<Seq<char>>, name: Seq<char>) -> Seq<Seq<char>> {
    if parents.len() == 0 && def.name is Some {
        seq![name]
    } else {
        parents
    }
}

/// When the fields of a struct fail, the struct fails with their error.
proof fn lemma_struct_error(e: DefaultEmitter, def: Schema, parents: Seq<Seq<char>>, name: Seq<char>)
    requires
        struct_name(e, def, parents) == Some(name),
        spec_fields(e, def, prop_count(def), field_parents(def, parents, name)) is Err,
    ensures
        spec_struct(e, def, parents) == match spec_fields(e, def, prop_count(def), field_parents(def, parents, name)) {
            Err(x) => Err::<UnitSpec, ErrorSpec>(x),
            Ok(_) => Err::<UnitSpec, ErrorSpec>(ErrorSpec::MissingDefinitionName),
        },
{
}

/// Whether an object collects its additional properties into a field.
pub open spec fn has_extra_field(def: Schema) -> bool {
    def.properties is Some && (def.additional_properties matches Some(Extra::Allowed(b)) && b)
}

/// When the fields of a struct succeed, the struct is its object followed
/// by the fields' anonymous objects.
proof fn lemma_struct_ok(
    e: DefaultEmitter,
    def: Schema,
    parents: Seq<Seq<char>>,
    name: Seq<char>,
    fs: Seq<FieldSpec>,
    os: Seq<ObjectSpec>,
)
    requires
        struct_name(e, def, parents) == Some(name),
        spec_fields(e, def, prop_count(def), field_parents(def, parents, name)) == Ok::<(Seq<FieldSpec>, Seq<ObjectSpec>), ErrorSpec>((fs, os)),
    ensures
        spec_struct(e, def, parents) == Ok::<UnitSpec, ErrorSpec>(UnitSpec::Objects(
            seq![
                ObjectSpec {
                    name,
                    description: opt_view(def.description),
                    path: Seq::empty(),
                    fields: if has_extra_field(def) {
                        fs.push(extra_field())
                    } else {
                        fs
                    },
                    paths: 0,
                },
            ] + os,
        )),
{
}

/// A nonempty name from parents means there are parents.
proof fn lemma_anon_name_parents(parents: Seq<Seq<char>>)
    ensures
        anon_name(parents) is Some ==> parents.len() > 0,
{
}

/* ---------------------------------------------------------------------- */
/* Building definitions                                                   */
/* ---------------------------------------------------------------------- */

/// A copy of the names of parents.
fn copy_parents<'a>(v: &Vec<&'a str>) -> (r: Vec<&'a str>)
    ensures
        r@ == v@,
{
    let mut parents: Vec<&'a str> = Vec::new();
    let mut i: usize = 0;
    while i < v.len()
        invariant
            i <= v@.len(),
            parents@ == v@.take(i as int),
        decreases v.len() - i,
    {
        parents.push(v[i]);
        assert(parents@ =~= v@.take(i + 1));
        i = i + 1;
    }
    assert(v@.take(v@.len() as int) =~= v@);
    parents
}

/// A copy of a context.
fn copy_context<'a>(ctx: &DefinitionContext<'a>) -> (r: DefinitionContext<'a>)
    ensures
        r.define == ctx.define,
        r.parents@ == ctx.parents@,
{
    DefinitionContext { define: ctx.define, parents: copy_parents(&ctx.parents) }
}

/// Copies an optional string.
fn copy_opt(o: &Option<String>) -> (r: Option<String>)
    ensures
        opt_view(r) == opt_view(*o),
{
    match o {
        Some(s) => Some(s.clone()),
        None => None,
    }
}

/// Copies strings.
fn copy_strings(v: &Vec<String>) -> (r: Vec<String>)
    ensures
        views(r@) == views(v@),
{
    let mut out: Vec<String> = Vec::new();
    let mut i: usize = 0;
    while i < v.len()
        invariant
            i <= v@.len(),
            out@.len() == i,
            views(out@) == views(v@.take(i as int)),
        decreases v.len() - i,
    {
        let c = v[i].clone();
        assert(c@ == v@[i as int]@);
        let ghost before = out@;
        out.push(c);
        assert(out@ == before.push(c));
        assert(views(out@)[i as int] == c@);
        assert(views(v@.take(i + 1))[i as int] == v@[i as int]@);
        assert forall|k: int| 0 <= k < i + 1 implies #[trigger] views(out@)[k] == views(v@.take(i + 1))[k] by {
            if k < i {
                assert(views(before)[k] == views(v@.take(i as int))[k]);
            }
        }
        assert(views(out@) =~= views(v@.take(i + 1)));
        i = i + 1;
    }
    assert(v@.take(v@.len() as int) =~= v@);
    out
}

/// Whether the required properties hold `name`.
fn required_contains(required: &Option<Vec<String>>, name: &str) -> (r: bool)
    ensures
        r == required_holds(*required, name@),
{
    match required {
        Some(v) => {
            assert(*required == Some(*v));
            let mut i: usize = 0;
            while i < v.len()
                invariant
                    i <= v@.len(),
                    *required == Some(*v),
                    forall|k: int| 0 <= k < i ==> v@[k]@ != name@,
                decreases v.len() - i,
            {
                if crate::object::str_eq(v[i].as_str(), name) {
                    assert(v@[i as int]@ == name@);
                    assert((*required)->0@[i as int]@ == name@);
                    assert(required_holds(*required, name@));
                    return true;
                }
                i = i + 1;
            }
            false
        },
        None => false,
    }
}

/// The text without the `:` at its start and at its end.
fn trimmed_colons(s: &str) -> (r: String)
    ensures
        r@ == trim_colons(s@),
{
    let v = chars_of(s);
    let mut lo: usize = 0;
    assert(v@.subrange(0, v@.len() as int) =~= v@);
    while lo < v.len() && v[lo] == ':'
        invariant
            lo <= v@.len(),
            v@ == s@,
            trim_colons(s@) == trim_colons(v@.subrange(lo as int, v@.len() as int)),
        decreases v.len() - lo,
    {
        assert(v@.subrange(lo as int, v@.len() as int).drop_first() =~= v@.subrange(lo + 1, v@.len() as int));
        lo = lo + 1;
    }
    let mut hi: usize = v.len();
    while hi > lo && v[hi - 1] == ':'
        invariant
            lo <= hi <= v@.len(),
            v@ == s@,
            lo < v@.len() ==> v@[lo as int] != ':',
            trim_colons(s@) == trim_colons(v@.subrange(lo as int, hi as int)),
        decreases hi,
    {
        assert(v@.subrange(lo as int, hi as int).drop_last() =~= v@.subrange(lo as int, hi - 1));
        hi = hi - 1;
    }
    string_of_range(&v, lo, hi)
}

impl DefaultEmitter {
    /// Given a schema definition, generates the Rust objects that it defines:
    /// none when it only stands for a type.
    pub fn generate_from_definition(&self, def: &Schema) -> (r: Result<Vec<ApiObject>, PaperClipError>)
        ensures
            match spec_build(*self, *def, true, Seq::empty()) {
                Err(x) => r matches Err(y) && error_spec(y) == x,
                Ok(UnitSpec::Objects(o)) => r matches Ok(v) && objects_spec(v@) == o,
                Ok(_) => r matches Ok(v) && v@.len() == 0,
            },
    {
        let ctx = DefinitionContext { define: true, parents: Vec::new() };
        assert(str_views(ctx.parents@) =~= Seq::<Seq<char>>::empty());
        match self.build_def(def, ctx)? {
            EmittedUnit::Objects(o) => Ok(o),
            // We don't care about type aliases because we resolve them anyway.
            _ => Ok(Vec::new()),
        }
    }

    /// Returns the requirements of the "deepest" child type in the given definition.
    pub fn children_requirements(&self, schema: &Schema) -> (r: Vec<String>)
        ensures
            views(r@) == children_reqs(*schema),
        decreases *schema,
    {
        match schema.data_type {
            Some(DataType::Object) => {
                if let Some(Extra::Schema(s)) = &schema.additional_properties {
                    return self.children_requirements(&**s);
                } else if let Some(r) = &schema.required {
                    return copy_strings(r);
                }
            },
            Some(DataType::Array) => {
                if let Some(s) = &schema.items {
                    return self.children_requirements(&**s);
                }
            },
            _ => {},
        }
        let out: Vec<String> = Vec::new();
        assert(views(out@) =~= Seq::<Seq<char>>::empty());
        out
    }

    /// Builds a schema: resolves it to a known type, or (when the context
    /// defines it) to the objects it defines.
    pub fn build_def<'a>(&self, def: &'a Schema, ctx: DefinitionContext<'a>) -> (r: Result<EmittedUnit, PaperClipError>)
        ensures
            build_spec(r) == spec_build(*self, *def, ctx.define, str_views(ctx.parents@)),
        decreases *def, flag(ctx.define), prop_count(*def) + 3,
    {
        if let Some(ty) = matching_unit_type(def.format, def.data_type) {
            if ctx.define {
                return Ok(EmittedUnit::Nothing);
            }
            return Ok(EmittedUnit::Known(ty.to_owned()));
        }
        match def.data_type {
            Some(DataType::Array) => self.emit_array(def, ctx),
            Some(DataType::Object) => self.emit_object(def, ctx),
            Some(DataType::File) => {
                let mut s = String::new();
                push_str(&mut s, "--FILE--");
                Ok(EmittedUnit::Known(s))
            },
            Some(_) => Ok(EmittedUnit::Nothing),
            None => {
                if ctx.define {
                    Ok(EmittedUnit::Nothing)
                } else {
                    // `Any` is a known type in the context of the emitted generic struct.
                    let mut s = String::new();
                    push_str(&mut s, "Any");
                    Ok(EmittedUnit::Known(s))
                }
            },
        }
    }

    /// Assumes that the given definition is an array and returns the
    /// corresponding vector type for it.
    fn emit_array<'a>(&self, def: &'a Schema, ctx: DefinitionContext<'a>) -> (r: Result<EmittedUnit, PaperClipError>)
        ensures
            build_spec(r) == spec_array(*self, *def, ctx.define, str_views(ctx.parents@)),
        decreases *def, flag(ctx.define), 0nat,
    {
        let it: &'a Schema = match &def.items {
            Some(b) => &**b,
            None => {
                let name = match self.def_name(def) {
                    Ok(n) => Some(n),
                    Err(_) => None,
                };
                return Err(PaperClipError::MissingArrayItem(name));
            },
        };
        let ghost ps0 = str_views(ctx.parents@);
        let mut ctx = ctx;
        if let Some(n) = &def.name {
            ctx = ctx.add_parent(n.as_str());
        }
        if it.name.is_none() {
            ctx = ctx.add_parent("item");
        }
        proof {
            assert(str_views(ctx.parents@) =~= item_parents(*def, *it, ps0));
        }
        if ctx.define {
            if it.name.is_none() {
                let u = self.build_def(it, ctx)?;
                if let EmittedUnit::Objects(_) = u {
                    return Ok(u);
                }
            }
            return Ok(EmittedUnit::Nothing);
        }
        let obj = self.build_def(it, ctx.define(false))?;
        proof {
            lemma_reused_is_known(*self, *it, item_parents(*def, *it, ps0));
        }
        let inner = obj.known_type();
        let mut ty = String::new();
        push_str(&mut ty, "Vec<");
        push_str(&mut ty, inner.as_str());
        push_str(&mut ty, ">");
        Ok(obj.map_known(ty))
    }

    /// Assumes that the given definition is an object and returns the
    /// corresponding Rust struct / map.
    fn emit_object<'a>(&self, def: &'a Schema, ctx: DefinitionContext<'a>) -> (r: Result<EmittedUnit, PaperClipError>)
        requires
            unit_type(def.format, def.data_type) is None,
            def.data_type == Some(DataType::Object),
        ensures
            build_spec(r) == spec_object(*self, *def, ctx.define, str_views(ctx.parents@)),
        decreases *def, flag(ctx.define), prop_count(*def) + 2,
    {
        match self.try_emit_map(def, &ctx)? {
            EmittedUnit::Nothing => {},
            x => return Ok(x),
        }
        if !ctx.define {
            return self.emit_known_object_path(def, ctx);
        }
        self.emit_struct(def, ctx)
    }

    /// Checks if the given definition is a simple map and returns the
    /// corresponding `BTreeMap`.
    fn try_emit_map<'a>(&self, def: &'a Schema, ctx: &DefinitionContext<'a>) -> (r: Result<EmittedUnit, PaperClipError>)
        ensures
            build_spec(r) == spec_map(*self, *def, ctx.define, str_views(ctx.parents@)),
        decreases *def, flag(ctx.define), 0nat,
    {
        if ctx.define {
            return Ok(EmittedUnit::Nothing);
        }
        match &def.additional_properties {
            Some(Extra::Schema(s)) => {
                let c = copy_context(ctx).define(false);
                let u = self.build_def(&**s, c)?;
                proof {
                    lemma_reused_is_known(*self, **s, str_views(ctx.parents@));
                }
                let ty = u.known_type();
                let mut map = String::new();
                push_str(&mut map, "std::collections::BTreeMap<String, ");
                push_str(&mut map, ty.as_str());
                push_str(&mut map, ">");
                Ok(EmittedUnit::Known(map))
            },
            _ => Ok(EmittedUnit::Nothing),
        }
    }

    /// The path of an object's type.
    fn emit_known_object_path<'a>(&self, def: &'a Schema, ctx: DefinitionContext<'a>) -> (r: Result<EmittedUnit, PaperClipError>)
        requires
            !ctx.define,
            unit_type(def.format, def.data_type) is None,
            def.data_type == Some(DataType::Object),
        ensures
            build_spec(r) == spec_known_path(*self, *def, str_views(ctx.parents@)),
        decreases *def, 1nat, 1nat,
    {
        // Use absolute paths to save some pain.
        let mut ty_path = trimmed_colons(self.mod_prefix.as_str());
        // If this is an anonymous object, then address it directly.
        if def.name.is_none() {
            let c = copy_context(&ctx).define(true);
            let objects = match self.build_def(def, c)? {
                EmittedUnit::Objects(o) => o,
                _ => {
                    proof {
                        lemma_defined_object(*self, *def, str_views(ctx.parents@));
                    }
                    return Err(PaperClipError::MissingDefinitionName);
                },
            };
            // If the object has an anonymous name, then it would definitely
            // be in its own module, which is identified by the initial parent name.
            if let Some(name) = self.def_anon_name(def, ctx.parents.as_slice()) {
                proof {
                    lemma_anon_name_parents(str_views(ctx.parents@));
                }
                push_str(&mut ty_path, "::");
                let parent = to_snake_case(ctx.parents[0]);
                push_str(&mut ty_path, parent.as_str());
                push_str(&mut ty_path, "::");
                push_str(&mut ty_path, name.as_str());
                return Ok(EmittedUnit::KnownButAnonymous(ty_path, objects));
            }
        }
        let names = self.def_ns_name(def)?;
        proof {
            lemma_split_any_nonempty(def.name->0@, self.ns_sep@);
            assert(views(names@).len() == names@.len());
        }
        let last = names.len() - 1;
        let mut i: usize = 0;
        assert(views(names@).take(0) =~= Seq::<Seq<char>>::empty());
        while i < last
            invariant
                i <= last,
                last + 1 == names@.len(),
                ty_path@ == named_type_path(self.mod_prefix@, views(names@).take(i as int)),
            decreases last - i,
        {
            assert(views(names@).take(i + 1).drop_last() =~= views(names@).take(i as int));
            push_str(&mut ty_path, "::");
            push_str(&mut ty_path, names[i].as_str());
            i = i + 1;
        }
        assert(views(names@).take(names@.len() as int) =~= views(names@));
        assert(views(names@).take(names@.len() as int).drop_last() =~= views(names@).take(last as int));
        push_str(&mut ty_path, "::");
        push_str(&mut ty_path, names[last].as_str());
        push_str(&mut ty_path, "::");
        let camel = to_camel_case(names[last].as_str());
        push_str(&mut ty_path, camel.as_str());
        Ok(EmittedUnit::Known(ty_path))
    }

    /// Returns the Rust struct definition for the given object, first, then
    /// the anonymous objects of its fields.
    fn emit_struct<'a>(&self, def: &'a Schema, ctx: DefinitionContext<'a>) -> (r: Result<EmittedUnit, PaperClipError>)
        ensures
            build_spec(r) == spec_struct(*self, *def, str_views(ctx.parents@)),
        decreases *def, 0nat, prop_count(*def) + 1,
    {
        let name = match self.def_name(def) {
            Ok(n) => n,
            Err(e) => match self.def_anon_name(def, ctx.parents.as_slice()) {
                Some(n) => n,
                None => return Err(e),
            },
        };
        let ghost sname = if def.name is Some {
            Some(camel_name(def.name->0@, self.ns_sep@))
        } else {
            anon_name(str_views(ctx.parents@))
        };
        assert(sname == Some(name@));
        let mut obj = ApiObject::with_name(name.as_str());
        obj.description = copy_opt(&def.description);
        // If we don't have any parents and there's a name for this object,
        // then it's the root object - add the name to parents before checking
        // its properties.
        let mut parents: Vec<&str> = Vec::new();
        if ctx.parents.len() == 0 && def.name.is_some() {
            parents.push(name.as_str());
        } else {
            parents = copy_parents(&ctx.parents);
        }
        let ghost ps = str_views(parents@);
        proof {
            assert(ps =~= (if str_views(ctx.parents@).len() == 0 && def.name is Some {
                seq![name@]
            } else {
                str_views(ctx.parents@)
            }));
        }
        // Anonymous objects that we've collected along the way.
        let mut objects: Vec<ApiObject> = Vec::new();
        if let Some(props) = &def.properties {
            let mut i: usize = 0;
            assert(objects_spec(objects@) =~= Seq::<ObjectSpec>::empty());
            assert(Seq::new(obj.fields@.len(), |k: int| field_spec(obj.fields@[k])) =~= Seq::<FieldSpec>::empty());
            while i < props.len()
                invariant
                    i <= props@.len(),
                    def.properties == Some(*props),
                    sname == Some(name@),
                    ps == field_parents(*def, str_views(ctx.parents@), name@),
                    struct_name(*self, *def, str_views(ctx.parents@)) == Some(name@),
                    str_views(parents@) == ps,
                    obj.name@ == name@,
                    obj.path@.len() == 0,
                    obj.paths@.len() == 0,
                    opt_view(obj.description) == opt_view(def.description),
                    spec_fields(*self, *def, i as nat, ps) == Ok::<(Seq<FieldSpec>, Seq<ObjectSpec>), ErrorSpec>(
                        (Seq::new(obj.fields@.len(), |k: int| field_spec(obj.fields@[k])), objects_spec(objects@)),
                    ),
                decreases props.len() - i,
            {
                let pname: &str = props[i].0.as_str();
                let prop: &Schema = &props[i].1;
                let mut child: Vec<&str> = copy_parents(&parents);
                child.push(pname);
                proof {
                    assert(str_views(child@) =~= ps.push(pname@));
                }
                let c = DefinitionContext { define: false, parents: child };
                let ty = match self.build_def(prop, c) {
                    Ok(t) => t,
                    Err(x) => {
                        proof {
                            assert(def.properties->0@[i as int] == props@[i as int]);
                            assert(spec_fields(*self, *def, (i + 1) as nat, ps) == Err::<(Seq<FieldSpec>, Seq<ObjectSpec>), ErrorSpec>(error_spec(x)));
                            lemma_fields_error(*self, *def, (i + 1) as nat, props@.len(), ps);
                            assert(prop_count(*def) == props@.len());
                            assert(spec_fields(*self, *def, prop_count(*def), ps) == Err::<(Seq<FieldSpec>, Seq<ObjectSpec>), ErrorSpec>(error_spec(x)));
                            lemma_struct_error(*self, *def, str_views(ctx.parents@), name@);
                        }
                        return Err(x);
                    },
                };
                proof {
                    lemma_reused_is_known(*self, *prop, ps.push(pname@));
                }
                let ty_path = ty.known_type();
                let children = self.children_requirements(prop);
                let field = ObjectField {
                    name: props[i].0.clone(),
                    ty_path,
                    description: copy_opt(&prop.description),
                    is_required: required_contains(&def.required, pname),
                    needs_any: prop.contains_any,
                    boxed: prop.cyclic,
                    children_req: children,
                };
                let ghost fields_before = Seq::new(obj.fields@.len(), |k: int| field_spec(obj.fields@[k]));
                let ghost objects_before = objects_spec(objects@);
                obj.fields.push(field);
                assert(Seq::new(obj.fields@.len(), |k: int| field_spec(obj.fields@[k])) =~= fields_before.push(
                    field_spec(field),
                ));
                match ty {
                    EmittedUnit::KnownButAnonymous(_, o) => {
                        let mut o = o;
                        let ghost added = objects_spec(o@);
                        objects.append(&mut o);
                        assert(objects_spec(objects@) =~= objects_before + added);
                    },
                    _ => {
                        assert(objects_spec(objects@) =~= objects_before + Seq::<ObjectSpec>::empty());
                    },
                }
                i = i + 1;
            }
            // If additional properties are enabled, then collect them into
            // a separate field for flattening.
            let ghost fs = Seq::new(obj.fields@.len(), |k: int| field_spec(obj.fields@[k]));
            let ghost os = objects_spec(objects@);
            proof {
                assert(prop_count(*def) == i);
                lemma_struct_ok(*self, *def, str_views(ctx.parents@), name@, fs, os);
            }
            if let Some(Extra::Allowed(true)) = &def.additional_properties {
                let mut n = String::new();
                push_str(&mut n, "other_fields");
                let mut t = String::new();
                push_str(&mut t, "std::collections::BTreeMap<String, Any>");
                let extra = ObjectField {
                    name: n,
                    ty_path: t,
                    description: None,
                    is_required: false,
                    needs_any: true,
                    boxed: false,
                    children_req: Vec::new(),
                };
                obj.fields.push(extra);
                assert(views(extra.children_req@) =~= Seq::<Seq<char>>::empty());
                assert(field_spec(extra) == extra_field());
                assert(Seq::new(obj.fields@.len(), |k: int| field_spec(obj.fields@[k])) =~= fs.push(extra_field()));
            }
            assert(obj.path@ =~= Seq::<char>::empty());
            assert(object_spec(obj) =~= (ObjectSpec {
                name: name@,
                description: opt_view(def.description),
                path: Seq::empty(),
                fields: if has_extra_field(*def) {
                    fs.push(extra_field())
                } else {
                    fs
                },
                paths: 0,
            }));
        } else {
            proof {
                assert(prop_count(*def) == 0);
                assert(spec_fields(*self, *def, 0, ps) == Ok::<(Seq<FieldSpec>, Seq<ObjectSpec>), ErrorSpec>((Seq::empty(), Seq::empty())));
                lemma_struct_ok(*self, *def, str_views(ctx.parents@), name@, Seq::empty(), Seq::empty());
                assert(Seq::new(obj.fields@.len(), |k: int| field_spec(obj.fields@[k])) =~= Seq::<FieldSpec>::empty());
                assert(obj.path@ =~= Seq::<char>::empty());
            assert(object_spec(obj) =~= (ObjectSpec {
                    name: name@,
                    description: opt_view(def.description),
                    path: Seq::empty(),
                    fields: Seq::empty(),
                    paths: 0,
                }));
            }
            assert(objects_spec(objects@) =~= Seq::<ObjectSpec>::empty());
        }
        let ghost objs_spec = objects_spec(objects@);
        let ghost head = object_spec(obj);
        objects.insert(0, obj);
        assert(objects_spec(objects@) =~= seq![head] + objs_spec);
        Ok(EmittedUnit::Objects(objects))
    }
}

/* ---------------------------------------------------------------------- */
/* Enum variants                                                          */
/* ---------------------------------------------------------------------- */

/// A possible value of an enum schema, by what naming its variant reads.
#[derive(Debug, Clone)]
pub enum EnumValue {
    /// A number, by its JSON text.
    Number(String),
    /// A boolean.
    Bool(bool),
    /// A string.
    String(String),
    /// Anything else (null, an array, an object).
    Other,
}

/// The name of the variant for a possible value of an enum: `Number_` and
/// the number's text with `-` and `.` replaced by `_`; the camel-cased text
/// of a boolean; the camel-cased string with `.` replaced by `_`; none for
/// anything else.
pub open spec fn variant_name(v: EnumValue) -> Option<Seq<char>> {
    match v {
        EnumValue::Number(n) => Some(
            "Number_"@ + crate::text::replace_all(crate::text::replace_all(n@, "-"@, "_"@), "."@, "_"@),
        ),
        EnumValue::Bool(b) => Some(camel_case_of(if b {
            "true"@
        } else {
            "false"@
        })),
        EnumValue::String(s) => Some(crate::text::replace_all(camel_case_of(s@), "."@, "_"@)),
        EnumValue::Other => None,
    }
}

impl DefaultEmitter {
    /// Returns the name of the enum variant for a possible value.
    pub fn enum_variant(&self, value: &EnumValue) -> (r: Option<String>)
        ensures
            opt_view(r) == variant_name(*value),
    {
        proof {
            reveal_strlit("-");
            reveal_strlit(".");
        }
        match value {
            EnumValue::Number(n) => {
                let mut once = String::new();
                crate::text::push_replaced(&mut once, n.as_str(), "-", "_");
                let mut name = String::new();
                push_str(&mut name, "Number_");
                crate::text::push_replaced(&mut name, once.as_str(), ".", "_");
                Some(name)
            },
            EnumValue::Bool(b) => {
                if *b {
                    Some(to_camel_case("true"))
                } else {
                    Some(to_camel_case("false"))
                }
            },
            EnumValue::String(s) => {
                let c = to_camel_case(s.as_str());
                let mut name = String::new();
                crate::text::push_replaced(&mut name, c.as_str(), ".", "_");
                Some(name)
            },
            EnumValue::Other => None,
        }
    }
}

} // verus!
