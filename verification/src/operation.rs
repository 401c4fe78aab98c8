//! What the operation macro of the actix plugin reads from a handler's
//! signature: which arguments become the body, path or query parameters,
//! and which return type becomes the `200` response.

use vstd::prelude::*;
use crate::text::push_str;

verus! {

/// A type as the macro reads it.
#[derive(Debug)]
pub enum TypeRepr {
    /// A path such as `web::Json<Pet>`, by its segments.
    Path(Vec<Segment>),
    /// A tuple such as `(String, u64)`, by its elements.
    Tuple(Vec<TypeRepr>),
    /// Any other type.
    Other,
}

/// A segment of a type path.
#[derive(Debug)]
pub struct Segment {
    /// The identifier of the segment.
    pub ident: String,
    /// The arguments of the segment.
    pub arguments: PathArguments,
}

/// The arguments of a path segment.
#[derive(Debug)]
pub enum PathArguments {
    /// No arguments.
    Nothing,
    /// Angle-bracketed arguments, such as `<T, U>`.
    AngleBracketed(Vec<GenericArgument>),
    /// Parenthesized arguments, such as `(A) -> B`.
    Parenthesized,
}

/// An argument in angle brackets.
#[derive(Debug)]
pub enum GenericArgument {
    /// A type.
    Type(TypeRepr),
    /// Anything else (a lifetime, a constant, a binding).
    Other,
}

/// An argument of the handler.
#[derive(Debug)]
pub enum FnArg {
    /// A captured argument (`name: Type`) with its type.
    Captured(TypeRepr),
    /// Any other argument (`self` and the like).
    Other,
}

/// The return type of the handler.
#[derive(Debug)]
pub enum ReturnType {
    /// No return type.
    Default,
    /// A return type.
    Type(TypeRepr),
}

/// The containers the macro understands.
#[derive(Debug, Clone, Copy, PartialEq, Eq, Structural)]
pub enum Container {
    Json,
    Path,
    Query,
}

impl Container {
    /// Whether this is a data format.
    pub open spec fn spec_is_format(self) -> bool {
        self is Json
    }

    /// Whether this is an extractor.
    pub open spec fn spec_is_extractor(self) -> bool {
        self is Path || self is Query
    }

    /// The name of the container.
    pub open spec fn spec_name(self) -> Seq<char> {
        match self {
            Container::Json => "Json"@,
            Container::Path => "Path"@,
            Container::Query => "Query"@,
        }
    }

    /// Checks whether this is a data format.
    pub fn is_format(self) -> (r: bool)
        ensures
            r == self.spec_is_format(),
    {
        match self {
            Container::Json => true,
            _ => false,
        }
    }

    /// Checks whether this is an extractor.
    pub fn is_extractor(self) -> (r: bool)
        ensures
            r == self.spec_is_extractor(),
    {
        match self {
            Container::Path | Container::Query => true,
            _ => false,
        }
    }

    /// The name of the container.
    pub fn as_str(self) -> (r: &'static str)
        ensures
            r@ == self.spec_name(),
    {
        match self {
            Container::Json => "Json",
            Container::Path => "Path",
            Container::Query => "Query",
        }
    }
}

/// The container named `ident`, in the order `Json`, `Path`, `Query`.
pub open spec fn container_named(ident: Seq<char>) -> Option<Container> {
    if ident == Container::Json.spec_name() {
        Some(Container::Json)
    } else if ident == Container::Path.spec_name() {
        Some(Container::Path)
    } else if ident == Container::Query.spec_name() {
        Some(Container::Query)
    } else {
        None
    }
}

/// The container a type is, with the type it contains: a path whose last
/// segment is named after a container and whose first angle-bracketed
/// argument is a type.
pub open spec fn spec_matches(ty: TypeRepr) -> Option<(Container, TypeRepr)> {
    match ty {
        TypeRepr::Path(segs) => if segs@.len() == 0 {
            None
        } else {
            let seg = segs@.last();
            match seg.arguments {
                PathArguments::AngleBracketed(args) => if args@.len() == 0 {
                    None
                } else {
                    match args@[0] {
                        GenericArgument::Type(inner) => match container_named(seg.ident@) {
                            Some(c) => Some((c, inner)),
                            None => None,
                        },
                        GenericArgument::Other => None,
                    }
                },
                _ => None,
            }
        },
        _ => None,
    }
}

/// Finds the container named `ident`.
fn find_container(ident: &str) -> (r: Option<Container>)
    ensures
        r == container_named(ident@),
{
    proof {
        reveal_strlit("Json");
        reveal_strlit("Path");
        reveal_strlit("Query");
    }
    if crate::object::str_eq(ident, Container::Json.as_str()) {
        Some(Container::Json)
    } else if crate::object::str_eq(ident, Container::Path.as_str()) {
        Some(Container::Path)
    } else if crate::object::str_eq(ident, Container::Query.as_str()) {
        Some(Container::Query)
    } else {
        None
    }
}

/// The view of an optional container and type reference.
pub open spec fn opt_match_view(o: Option<(Container, &TypeRepr)>) -> Option<(Container, TypeRepr)> {
    match o {
        Some((c, t)) => Some((c, *t)),
        None => None,
    }
}

impl Container {
    /// Checks whether this matches a container and returns it along with
    /// the contained type (if any).
    pub fn matches(ty: &TypeRepr) -> (r: Option<(Container, &TypeRepr)>)
        ensures
            opt_match_view(r) == spec_matches(*ty),
    {
        match ty {
            TypeRepr::Path(segs) => {
                if segs.len() == 0 {
                    return None;
                }
                let seg = &segs[segs.len() - 1];
                match &seg.arguments {
                    PathArguments::AngleBracketed(args) => {
                        if args.len() == 0 {
                            return None;
                        }
                        match &args[0] {
                            GenericArgument::Type(inner) => match find_container(seg.ident.as_str()) {
                                Some(c) => Some((c, inner)),
                                None => None,
                            },
                            GenericArgument::Other => None,
                        }
                    },
                    _ => None,
                }
            },
            _ => None,
        }
    }
}

/* ---------------------------------------------------------------------- */
/* Operation definitions                                                  */
/* ---------------------------------------------------------------------- */

/// The signature of a handler function.
#[derive(Debug)]
pub struct ItemFn {
    /// The arguments, in order.
    pub inputs: Vec<FnArg>,
    /// The return type.
    pub output: ReturnType,
}

/// A parameter that the operation gets from a handler's argument.
#[derive(Debug)]
pub enum ParamSource<'a> {
    /// The body parameter, with its schema's type.
    Body(&'a TypeRepr),
    /// One parameter per property of a struct (named by the last segment of
    /// its path), in the path (`Path`) or in the query (`Query`).
    Properties(Container, &'a str),
    /// One positional path parameter of the given type (an element of a tuple).
    PathElement(&'a TypeRepr),
}

/// What a parameter source stands for.
pub enum ParamView {
    Body(TypeRepr),
    Properties(Container, Seq<char>),
    PathElement(TypeRepr),
}

/// The view of a parameter source.
pub open spec fn param_view(p: ParamSource) -> ParamView {
    match p {
        ParamSource::Body(t) => ParamView::Body(*t),
        ParamSource::Properties(c, n) => ParamView::Properties(c, n@),
        ParamSource::PathElement(t) => ParamView::PathElement(*t),
    }
}

/// The views of parameter sources.
pub open spec fn param_views(ps: Seq<ParamSource>) -> Seq<ParamView> {
    Seq::new(ps.len(), |i: int| param_view(ps[i]))
}

/// The parameters that an argument of type `ty` adds: the body when it is
/// the first data format; for an extractor of a path type, the properties of
/// that type; for an extractor of a tuple, one path parameter per element;
/// else none.
pub open spec fn arg_params(body_set: bool, ty: TypeRepr) -> Seq<ParamView> {
    match spec_matches(ty) {
        Some((c, inner)) => if c.spec_is_format() && !body_set {
            seq![ParamView::Body(inner)]
        } else if c.spec_is_extractor() {
            match inner {
                TypeRepr::Path(segs) => if segs@.len() > 0 {
                    seq![ParamView::Properties(c, segs@.last().ident@)]
                } else {
                    Seq::empty()
                },
                TypeRepr::Tuple(elems) => Seq::new(elems@.len(), |i: int| ParamView::PathElement(elems@[i])),
                TypeRepr::Other => Seq::empty(),
            }
        } else {
            Seq::empty()
        },
        None => Seq::empty(),
    }
}

/// The body schema after an argument of type `ty`: the contained type of the
/// first data format.
pub open spec fn arg_body(body: Option<TypeRepr>, ty: TypeRepr) -> Option<TypeRepr> {
    match spec_matches(ty) {
        Some((c, inner)) => if c.spec_is_format() && body is None {
            Some(inner)
        } else {
            body
        },
        None => body,
    }
}

/// The parameters and the body schema from the handler's arguments, in order.
pub open spec fn inputs_plan(inputs: Seq<FnArg>) -> (Seq<ParamView>, Option<TypeRepr>)
    decreases inputs.len(),
{
    if inputs.len() == 0 {
        (Seq::empty(), None)
    } else {
        let (ps, body) = inputs_plan(inputs.drop_last());
        match inputs.last() {
            FnArg::Captured(ty) => (ps + arg_params(body is Some, ty), arg_body(body, ty)),
            FnArg::Other => (ps, body),
        }
    }
}

/// The type of the `200` response: what a data format in the return type contains.
pub open spec fn response_of(ty: TypeRepr) -> Option<TypeRepr> {
    match spec_matches(ty) {
        Some((c, inner)) => if c.spec_is_format() {
            Some(inner)
        } else {
            None
        },
        None => None,
    }
}

/// The view of an optional type reference.
pub open spec fn opt_type_view(o: Option<&TypeRepr>) -> Option<TypeRepr> {
    match o {
        Some(t) => Some(*t),
        None => None,
    }
}

/// What the macro defines for an operation.
#[derive(Debug)]
pub struct Operation<'a> {
    /// The parameters, in the order of the handler's arguments.
    pub params: Vec<ParamSource<'a>>,
    /// The type of the `200` response, if the handler returns a data format.
    pub response: Option<&'a TypeRepr>,
    /// The type whose definition the operation carries: that of the body.
    pub body_schema: Option<&'a TypeRepr>,
}

/// Factory struct for producing operation definitions.
pub struct OperationProducer<'a> {
    f: &'a ItemFn,
    body_schema: Option<&'a TypeRepr>,
    params: Vec<ParamSource<'a>>,
}

impl<'a> OperationProducer<'a> {
    /// The handler.
    pub closed spec fn spec_fn(self) -> ItemFn {
        *self.f
    }

    /// The parameters collected so far.
    pub closed spec fn spec_params(self) -> Seq<ParamView> {
        param_views(self.params@)
    }

    /// The body schema found so far.
    pub closed spec fn spec_body_schema(self) -> Option<TypeRepr> {
        opt_type_view(self.body_schema)
    }

    /// A producer for the given handler, with nothing collected yet.
    pub fn new(f: &'a ItemFn) -> (r: Self)
        ensures
            r.spec_fn() == *f,
            r.spec_params() == Seq::<ParamView>::empty(),
            r.spec_body_schema() is None,
    {
        let r = OperationProducer { f, body_schema: None, params: Vec::new() };
        assert(param_views(r.params@) =~= Seq::<ParamView>::empty());
        r
    }

    /// Checks arg type and updates the parameters as required.
    pub fn add_param_from_input_arg(&mut self, ty: &'a TypeRepr)
        ensures
            final(self).spec_fn() == old(self).spec_fn(),
            final(self).spec_params() == old(self).spec_params() + arg_params(
                old(self).spec_body_schema() is Some,
                *ty,
            ),
            final(self).spec_body_schema() == arg_body(old(self).spec_body_schema(), *ty),
    {
        let ghost before = param_views(self.params@);
        match Container::matches(ty) {
            Some((c, inner)) => {
                if c.is_format() && self.body_schema.is_none() {
                    self.body_schema = Some(inner);
                    self.params.push(ParamSource::Body(inner));
                    assert(param_views(self.params@) =~= before + seq![ParamView::Body(*inner)]);
                } else if c.is_extractor() {
                    match inner {
                        TypeRepr::Path(segs) => {
                            if segs.len() > 0 {
                                let seg = &segs[segs.len() - 1];
                                self.params.push(ParamSource::Properties(c, seg.ident.as_str()));
                                assert(param_views(self.params@) =~= before + seq![
                                    ParamView::Properties(c, segs@.last().ident@),
                                ]);
                            } else {
                                assert(param_views(self.params@) =~= before + Seq::<ParamView>::empty());
                            }
                        },
                        TypeRepr::Tuple(elems) => {
                            let mut i: usize = 0;
                            while i < elems.len()
                                invariant
                                    i <= elems@.len(),
                                    self.f == old(self).f,
                                    self.body_schema == old(self).body_schema,
                                    param_views(self.params@) == before + Seq::new(
                                        i as nat,
                                        |k: int| ParamView::PathElement(elems@[k]),
                                    ),
                                decreases elems.len() - i,
                            {
                                let ghost prev = self.params@;
                                self.params.push(ParamSource::PathElement(&elems[i]));
                                assert(self.params@ == prev.push(ParamSource::PathElement(&elems[i as int])));
                                assert(param_views(self.params@) =~= param_views(prev).push(
                                    ParamView::PathElement(elems@[i as int]),
                                ));
                                assert(param_views(self.params@) =~= before + Seq::new(
                                    (i + 1) as nat,
                                    |k: int| ParamView::PathElement(elems@[k]),
                                ));
                                i = i + 1;
                            }
                        },
                        TypeRepr::Other => {
                            assert(param_views(self.params@) =~= before + Seq::<ParamView>::empty());
                        },
                    }
                } else {
                    assert(param_views(self.params@) =~= before + Seq::<ParamView>::empty());
                }
            },
            None => {
                assert(param_views(self.params@) =~= before + Seq::<ParamView>::empty());
            },
        }
    }

    /// Attempts to come up with the operation based on the given function
    /// definition; fails when the function returns nothing.
    pub fn generate_definition(self) -> (r: Result<Operation<'a>, String>)
        requires
            self.spec_params() == Seq::<ParamView>::empty(),
            self.spec_body_schema() is None,
        ensures
            match self.spec_fn().output {
                ReturnType::Default => r is Err,
                ReturnType::Type(ty) => r matches Ok(op) && param_views(op.params@)
                    == inputs_plan(self.spec_fn().inputs@).0 && opt_type_view(op.body_schema)
                    == inputs_plan(self.spec_fn().inputs@).1 && opt_type_view(op.response)
                    == response_of(ty),
            },
            r matches Err(m) ==> m@ == "function must return something"@,
    {
        let mut this = self;
        let f = this.f;
        let mut i: usize = 0;
        while i < f.inputs.len()
            invariant
                i <= f.inputs@.len(),
                this.spec_fn() == *f,
                this.spec_params() == inputs_plan(f.inputs@.take(i as int)).0,
                this.spec_body_schema() == inputs_plan(f.inputs@.take(i as int)).1,
            decreases f.inputs.len() - i,
        {
            assert(f.inputs@.take(i + 1).drop_last() =~= f.inputs@.take(i as int));
            match &f.inputs[i] {
                FnArg::Captured(ty) => {
                    this.add_param_from_input_arg(ty);
                },
                FnArg::Other => {},
            }
            i = i + 1;
        }
        assert(f.inputs@.take(f.inputs@.len() as int) =~= f.inputs@);
        let ret = match &f.output {
            ReturnType::Default => {
                let mut m = String::new();
                push_str(&mut m, "function must return something");
                return Err(m);
            },
            ReturnType::Type(ty) => ty,
        };
        let response = match Container::matches(ret) {
            Some((c, ty)) => if c.is_format() {
                Some(ty)
            } else {
                None
            },
            None => None,
        };
        Ok(Operation { params: this.params, response, body_schema: this.body_schema })
    }
}

} // verus!
