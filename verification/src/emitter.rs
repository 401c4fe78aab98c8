//! What the emitter works with while it walks a specification: the units
//! it emits, the context of a definition, and the resolution of parameter
//! types and their collection formats.

use vstd::prelude::*;
use crate::models::{CollectionFormat, DataType, DataTypeFormat, ParameterIn};
use crate::object::ApiObject;
use crate::text::push_str;

verus! {

/// Identifier used for file types in schema. This will be replaced with `ResponseStream`.
pub open spec fn file_marker() -> Seq<char> {
    "--FILE--"@
}

/// Identifier used for `Any` generic parameters in struct definitions.
pub open spec fn any_generic_parameter() -> Seq<char> {
    "Any"@
}

/// Some "thing" emitted by the emitter.
#[derive(Debug)]
pub enum EmittedUnit {
    /// Some Rust type.
    Known(String),
    /// Bunch of emitted Rust objects.
    Objects(Vec<ApiObject>),
    /// We've identified the Rust type, but then we also have a
    /// bunch of generated Rust objects. This happens in the
    /// presence of anonymously defined schema.
    KnownButAnonymous(String, Vec<ApiObject>),
    /// Nothing to do.
    Nothing,
}

impl EmittedUnit {
    /// Whether the unit carries a known Rust type.
    pub open spec fn is_known(self) -> bool {
        self is Known || self is KnownButAnonymous
    }

    /// The known Rust type of the unit.
    pub open spec fn spec_known_type(self) -> Seq<char>
        recommends
            self.is_known(),
    {
        match self {
            EmittedUnit::Known(s) => s@,
            EmittedUnit::KnownButAnonymous(s, _) => s@,
            _ => Seq::empty(),
        }
    }

    /// The anonymous objects carried along with the unit.
    pub open spec fn spec_objects(self) -> Seq<ApiObject> {
        match self {
            EmittedUnit::Objects(o) => o@,
            EmittedUnit::KnownButAnonymous(_, o) => o@,
            _ => Seq::empty(),
        }
    }

    /// Returns the known Rust type of this unit.
    pub fn known_type(&self) -> (r: String)
        requires
            self.is_known(),
        ensures
            r@ == self.spec_known_type(),
    {
        match self {
            EmittedUnit::Known(s) => s.clone(),
            EmittedUnit::KnownButAnonymous(s, _) => s.clone(),
            _ => String::new(),
        }
    }

    /// Replaces the known Rust type of this unit, keeping its objects.
    pub fn map_known(self, ty: String) -> (r: EmittedUnit)
        requires
            self.is_known(),
        ensures
            r.is_known(),
            r.spec_known_type() == ty@,
            r is Known <==> self is Known,
            r.spec_objects() == self.spec_objects(),
    {
        match self {
            EmittedUnit::KnownButAnonymous(_, o) => EmittedUnit::KnownButAnonymous(ty, o),
            _ => EmittedUnit::Known(ty),
        }
    }
}

/// Context for building definitions.
#[derive(Debug, Clone)]
pub struct DefinitionContext<'a> {
    /// Whether we're planning to define the Rust type or whether we're
    /// reusing an existing type.
    pub define: bool,
    /// Names of parents, used to name anonymous objects.
    pub parents: Vec<&'a str>,
}

impl<'a> Default for DefinitionContext<'a> {
    /// A context that reuses types and has no parents.
    fn default() -> (r: DefinitionContext<'a>)
        ensures
            !r.define,
            r.parents@.len() == 0,
    {
        DefinitionContext { define: false, parents: Vec::new() }
    }
}

impl<'a> DefinitionContext<'a> {
    /// Specify whether the object needs to be defined.
    pub fn define(self, define: bool) -> (r: DefinitionContext<'a>)
        ensures
            r.define == define,
            r.parents@ == self.parents@,
    {
        DefinitionContext { define, parents: self.parents }
    }

    /// Creates a new context by appending the immediate parent's name.
    pub fn add_parent(self, parent: &'a str) -> (r: DefinitionContext<'a>)
        ensures
            r.define == self.define,
            r.parents@ == self.parents@.push(parent),
    {
        let mut parents = self.parents;
        parents.push(parent);
        DefinitionContext { define: self.define, parents }
    }
}

/* ---------------------------------------------------------------------- */
/* Unit types and parameter types                                         */
/* ---------------------------------------------------------------------- */

/// The Rust type for the given format and data type, when it is a known unit type.
pub open spec fn unit_type(format: Option<DataTypeFormat>, type_: Option<DataType>) -> Option<Seq<char>> {
    match format {
        Some(DataTypeFormat::Int32) => Some("i32"@),
        Some(DataTypeFormat::Int64) => Some("i64"@),
        Some(DataTypeFormat::Float) => Some("f32"@),
        Some(DataTypeFormat::Double) => Some("f64"@),
        _ => match type_ {
            Some(DataType::Integer) => Some("i64"@),
            Some(DataType::Number) => Some("f64"@),
            Some(DataType::Boolean) => Some("bool"@),
            Some(DataType::String) => Some("String"@),
            _ => None,
        },
    }
}

/// Checks if the given type/format matches a known Rust type and returns it.
pub fn matching_unit_type(format: Option<DataTypeFormat>, type_: Option<DataType>) -> (r: Option<&'static str>)
    ensures
        opt_static_view(r) == unit_type(format, type_),
{
    match format {
        Some(DataTypeFormat::Int32) => Some("i32"),
        Some(DataTypeFormat::Int64) => Some("i64"),
        Some(DataTypeFormat::Float) => Some("f32"),
        Some(DataTypeFormat::Double) => Some("f64"),
        _ => match type_ {
            Some(DataType::Integer) => Some("i64"),
            Some(DataType::Number) => Some("f64"),
            Some(DataType::Boolean) => Some("bool"),
            Some(DataType::String) => Some("String"),
            _ => None,
        },
    }
}

/// The view of an optional static string.
pub open spec fn opt_static_view(o: Option<&'static str>) -> Option<Seq<char>> {
    match o {
        Some(s) => Some(s@),
        None => None,
    }
}

/// **Law.** Each OpenAPI format has its fixed Rust type, whatever the data
/// type: `int32` is `i32`, `int64` is `i64`, `float` is `f32` and `double`
/// is `f64`. Without one of these formats the data type decides: an
/// integer is `i64`, a number `f64`, a boolean `bool`, a string `String`,
/// and anything else has no unit type.
pub proof fn law_unit_types(format: Option<DataTypeFormat>, type_: Option<DataType>)
    ensures
        unit_type(Some(DataTypeFormat::Int32), type_) == Some("i32"@),
        unit_type(Some(DataTypeFormat::Int64), type_) == Some("i64"@),
        unit_type(Some(DataTypeFormat::Float), type_) == Some("f32"@),
        unit_type(Some(DataTypeFormat::Double), type_) == Some("f64"@),
        !(format == Some(DataTypeFormat::Int32) || format == Some(DataTypeFormat::Int64) || format == Some(
            DataTypeFormat::Float,
        ) || format == Some(DataTypeFormat::Double)) ==> unit_type(format, type_) == match type_ {
            Some(DataType::Integer) => Some("i64"@),
            Some(DataType::Number) => Some("f64"@),
            Some(DataType::Boolean) => Some("bool"@),
            Some(DataType::String) => Some("String"@),
            _ => None::<Seq<char>>,
        },
{
}

/// The items of an array parameter.
#[derive(Debug)]
pub struct Items {
    /// Data type of the items.
    pub data_type: Option<DataType>,
    /// Format of the items.
    pub format: Option<DataTypeFormat>,
    /// Collection format of the items.
    pub collection_format: Option<CollectionFormat>,
    /// Items of the items (for nested arrays).
    pub items: Option<Box<Items>>,
}

/// The resolved Rust type of a parameter and the collection formats of its
/// nested arrays (outermost first): a unit type, the file marker, or a
/// `Vec` of a resolved item type.
pub open spec fn resolved_type(
    dt: Option<DataType>,
    dt_fmt: Option<DataTypeFormat>,
    items: Option<Items>,
) -> Option<(Seq<char>, Seq<CollectionFormat>)>
    decreases items,
{
    match unit_type(dt_fmt, dt) {
        Some(t) => Some((t, Seq::empty())),
        None => if dt == Some(DataType::File) {
            Some((file_marker(), Seq::empty()))
        } else if dt == Some(DataType::Array) {
            match items {
                Some(i) => match i.items {
                    Some(bx) => match resolved_type(i.data_type, i.format, Some(*bx)) {
                        Some((ty, fmts)) => Some(
                            (
                                "Vec<"@ + ty + ">"@,
                                seq![collection_format_or_default(i.collection_format)] + fmts,
                            ),
                        ),
                        None => None,
                    },
                    None => match resolved_type(i.data_type, i.format, None) {
                        Some((ty, fmts)) => Some(
                            (
                                "Vec<"@ + ty + ">"@,
                                seq![collection_format_or_default(i.collection_format)] + fmts,
                            ),
                        ),
                        None => None,
                    },
                },
                None => None,
            }
        } else {
            None
        },
    }
}

/// The collection format, or the default one.
pub open spec fn collection_format_or_default(c: Option<CollectionFormat>) -> CollectionFormat {
    match c {
        Some(f) => f,
        None => CollectionFormat::Csv,
    }
}

/// The view of an optional reference to items.
pub open spec fn opt_items(o: Option<&Items>) -> Option<Items> {
    match o {
        Some(i) => Some(*i),
        None => None,
    }
}

/// Ensures that a parameter type is either a simple type or an array
/// and returns the resolved Rust type.
pub fn resolve_parameter_type(
    dt: Option<DataType>,
    dt_fmt: Option<DataTypeFormat>,
    items: Option<&Items>,
) -> (r: Option<(String, Vec<CollectionFormat>)>)
    ensures
        match r {
            Some((ty, fmts)) => resolved_type(dt, dt_fmt, opt_items(items)) == Some((ty@, fmts@)),
            None => resolved_type(dt, dt_fmt, opt_items(items)) is None,
        },
    decreases opt_items(items),
{
    match matching_unit_type(dt_fmt, dt) {
        Some(t) => return Some((t.to_owned(), Vec::new())),
        None => {},
    }
    if dt == Some(DataType::File) {
        let mut s = String::new();
        push_str(&mut s, "--FILE--");
        return Some((s, Vec::new()));
    }
    if dt == Some(DataType::Array) {
        if let Some(i) = items {
            let inner: Option<&Items> = match &i.items {
                Some(bx) => Some(&**bx),
                None => None,
            };
            if let Some((ty, fmts)) = resolve_parameter_type(i.data_type, i.format, inner) {
                let mut all: Vec<CollectionFormat> = Vec::new();
                all.push(match i.collection_format {
                    Some(c) => c,
                    None => CollectionFormat::Csv,
                });
                let mut j: usize = 0;
                while j < fmts.len()
                    invariant
                        j <= fmts@.len(),
                        all@ == seq![collection_format_or_default(i.collection_format)] + fmts@.take(j as int),
                    decreases fmts.len() - j,
                {
                    all.push(fmts[j]);
                    assert(fmts@.take(j + 1) =~= fmts@.take(j as int).push(fmts@[j as int]));
                    j = j + 1;
                }
                assert(fmts@.take(fmts@.len() as int) =~= fmts@);
                // We collect it as `Vec` for now - we'll replace it with our
                // `Delimited` wrapper when we actually write the code.
                let mut out = String::new();
                push_str(&mut out, "Vec<");
                push_str(&mut out, ty.as_str());
                push_str(&mut out, ">");
                assert(out@ =~= "Vec<"@ + ty@ + ">"@);
                return Some((out, all));
            }
        }
    }
    None
}

/// `n` nested `Vec`s around `base`.
pub open spec fn vec_nested(base: Seq<char>, n: nat) -> Seq<char>
    decreases n,
{
    if n == 0 {
        base
    } else {
        "Vec<"@ + vec_nested(base, (n - 1) as nat) + ">"@
    }
}

/// **Law.** A resolved parameter type is a unit type or the file marker,
/// wrapped in one `Vec` per collection format (one format per nested array).
pub proof fn law_resolved_type_shape(dt: Option<DataType>, dt_fmt: Option<DataTypeFormat>, items: Option<Items>)
    ensures
        resolved_type(dt, dt_fmt, items) matches Some((ty, fmts)) ==> exists|base: Seq<char>|
            (base == file_marker() || exists|f: Option<DataTypeFormat>, t: Option<DataType>| unit_type(f, t) == Some(base))
                && ty == #[trigger] vec_nested(base, fmts.len()),
    decreases items,
{
    match resolved_type(dt, dt_fmt, items) {
        Some((ty, fmts)) => {
            match unit_type(dt_fmt, dt) {
                Some(t) => {
                    assert(vec_nested(ty, 0) == ty);
                    assert(unit_type(dt_fmt, dt) == Some(ty));
                },
                None => {
                    if dt == Some(DataType::File) {
                        assert(vec_nested(ty, 0) == ty);
                    } else {
                        let i = items->0;
                        let inner = match i.items {
                            Some(bx) => Some(*bx),
                            None => None,
                        };
                        law_resolved_type_shape(i.data_type, i.format, inner);
                        let (ity, ifmts) = resolved_type(i.data_type, i.format, inner)->0;
                        let base = choose|base: Seq<char>|
                            (base == file_marker() || exists|f: Option<DataTypeFormat>, t: Option<DataType>| unit_type(f, t) == Some(base))
                                && ity == #[trigger] vec_nested(base, ifmts.len());
                        assert(fmts.len() == ifmts.len() + 1);
                        assert(vec_nested(base, fmts.len()) == "Vec<"@ + vec_nested(base, ifmts.len()) + ">"@);
                    }
                },
            }
        },
        None => {},
    }
}

/* ---------------------------------------------------------------------- */
/* Collection formats                                                     */
/* ---------------------------------------------------------------------- */

/// The number of `Multi` formats.
pub open spec fn multi_count(s: Seq<CollectionFormat>) -> nat
    decreases s.len(),
{
    if s.len() == 0 {
        0
    } else {
        multi_count(s.drop_last()) + if s.last() == CollectionFormat::Multi { 1nat } else { 0nat }
    }
}

/// Whether the parameter location is URL-encoded (query or form data).
pub open spec fn is_url_encoded(in_: ParameterIn) -> bool {
    in_ == ParameterIn::Query || in_ == ParameterIn::FormData
}

/// The collection formats of an array parameter after validation: the
/// parameter's own format (or the default) goes first and the last (innermost,
/// unneeded) one is dropped; then every `Multi` is replaced by the default,
/// except one in the root of a URL-encoded parameter (multiple instances are
/// supported only there).
pub open spec fn validated_formats(
    data_type: Option<DataType>,
    in_: ParameterIn,
    collection_format: Option<CollectionFormat>,
    fmts: Seq<CollectionFormat>,
) -> Seq<CollectionFormat> {
    if data_type != Some(DataType::Array) {
        fmts
    } else {
        let v = (seq![collection_format_or_default(collection_format)] + fmts).drop_last();
        let url = is_url_encoded(in_);
        Seq::new(
            v.len(),
            |i: int|
                if v[i] == CollectionFormat::Multi && !(i == 0 && url) {
                    CollectionFormat::Csv
                } else {
                    v[i]
                },
        )
    }
}

/// If the parameter is an array, then validate the collection formats and
/// default if needed.
pub fn validate_collection_format(
    name: &str,
    data_type: Option<DataType>,
    in_: ParameterIn,
    collection_format: Option<CollectionFormat>,
    it_fmts: &mut Vec<CollectionFormat>,
)
    ensures
        final(it_fmts)@ == validated_formats(data_type, in_, collection_format, old(it_fmts)@),
{
    if data_type != Some(DataType::Array) {
        return;
    }
    let default_fmt = CollectionFormat::Csv;
    it_fmts.insert(
        0,
        match collection_format {
            Some(c) => c,
            None => default_fmt,
        },
    );
    assert(it_fmts@ =~= seq![collection_format_or_default(collection_format)] + old(it_fmts)@);
    it_fmts.pop();  // pop the final format, as it's unnecessary.
    let ghost v = it_fmts@;
    let is_url_encoded = in_ == ParameterIn::Query || in_ == ParameterIn::FormData;
    // Multiple instances are supported only in the root of a URL-encoded
    // parameter; any other `Multi` becomes the default.
    let mut i: usize = 0;
    while i < it_fmts.len()
        invariant
            i <= it_fmts@.len(),
            it_fmts@.len() == v.len(),
            default_fmt == CollectionFormat::Csv,
            is_url_encoded == crate::emitter::is_url_encoded(in_),
            forall|k: int|
                0 <= k < i ==> (#[trigger] it_fmts@[k]) == (if v[k] == CollectionFormat::Multi && !(k == 0
                    && is_url_encoded) {
                    CollectionFormat::Csv
                } else {
                    v[k]
                }),
            forall|k: int| i <= k < v.len() ==> (#[trigger] it_fmts@[k]) == v[k],
        decreases it_fmts.len() - i,
    {
        if it_fmts[i] == CollectionFormat::Multi {
            if !(i == 0 && is_url_encoded) {
                it_fmts.set(i, default_fmt);
            }
        }
        i = i + 1;
    }
    assert(it_fmts@ =~= validated_formats(data_type, in_, collection_format, old(it_fmts)@));
}

/// **Law.** Validation keeps the number of collection formats of an array
/// parameter, leaves no `Multi` format in a parameter that is not
/// URL-encoded, and in one that is leaves `Multi` only at the root.
pub proof fn law_validated_formats(
    data_type: Option<DataType>,
    in_: ParameterIn,
    collection_format: Option<CollectionFormat>,
    fmts: Seq<CollectionFormat>,
)
    requires
        data_type == Some(DataType::Array),
    ensures
        validated_formats(data_type, in_, collection_format, fmts).len() == fmts.len(),
        !is_url_encoded(in_) ==> multi_count(validated_formats(data_type, in_, collection_format, fmts)) == 0,
        is_url_encoded(in_) ==> multi_count(validated_formats(data_type, in_, collection_format, fmts)) <= 1,
        forall|i: int|
            0 < i < fmts.len() ==> (#[trigger] validated_formats(data_type, in_, collection_format, fmts)[i])
                != CollectionFormat::Multi,
{
    let r = validated_formats(data_type, in_, collection_format, fmts);
    lemma_multi_count_bound(r, if is_url_encoded(in_) { 1 } else { 0 });
}

/// A sequence with `Multi` only at positions below `k` has at most `k` of them.
proof fn lemma_multi_count_bound(s: Seq<CollectionFormat>, k: int)
    requires
        0 <= k,
        forall|i: int| k <= i < s.len() ==> s[i] != CollectionFormat::Multi,
    ensures
        multi_count(s) <= k,
    decreases s.len(),
{
    if s.len() > 0 {
        if s.len() - 1 >= k {
            lemma_multi_count_bound(s.drop_last(), k);
        } else {
            lemma_multi_count_le_len(s);
        }
    }
}

proof fn lemma_multi_count_le_len(s: Seq<CollectionFormat>)
    ensures
        multi_count(s) <= s.len(),
    decreases s.len(),
{
    if s.len() > 0 {
        lemma_multi_count_le_len(s.drop_last());
    }
}

} // verus!
