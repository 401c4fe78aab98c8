//! The `Sendable` impl of an operation builder for the generated client:
//! the request's method and path, the headers, form, query and body it
//! carries, the output it gives and the response headers it exposes.

use vstd::prelude::*;
use crate::definitions::opt_view;
use crate::models::{CollectionFormat, HttpMethod, ParameterIn};
use crate::object::{docs_text, doc_regex_ok, is_keyword, is_rust_keyword, ApiObject, FieldView, StructField};
use crate::text::{debug_text, debug_text_of, push_str, snake_case_of, to_snake_case, WriteError};

verus! {

/* ---------------------------------------------------------------------- */
/* What the impl reads of an operation builder                            */
/* ---------------------------------------------------------------------- */

/// A media range with its coder: the function that encodes a body and the
/// type of a value decoded without a known type.
#[derive(Debug, Clone)]
pub struct Coding {
    pub range: String,
    pub encoder_path: String,
    pub any_value: String,
}

/// A field of an operation builder as the impl reads it.
#[derive(Debug, Clone)]
pub struct SendableField {
    /// Name of the parameter, as the specification gives it.
    pub name: String,
    /// The field's identifier in the builder (after `param_`).
    pub ident: String,
    /// Whether the parameter is required.
    pub required: bool,
    /// Where the parameter lives, if it is one.
    pub param_loc: Option<ParameterIn>,
    /// Collection formats, outermost first.
    pub delimiting: Vec<CollectionFormat>,
    /// Whether the parameter is a file.
    pub needs_file: bool,
}

/// A header of the operation's responses.
#[derive(Debug, Clone)]
pub struct ResponseHeader {
    /// Name of the header.
    pub name: String,
    /// Description, if any.
    pub description: Option<String>,
    /// The type its value is parsed into, as written in the generated code.
    pub wrapped_ty: String,
}

/// An operation builder as the `Sendable` impl reads it; the type's name
/// and the `Any` generic come as the builder writes them.
#[derive(Debug, Clone)]
pub struct OperationBuilder {
    /// The builder's type: its name followed by its generics.
    pub ty_name: String,
    /// Path of the operation, relative to the base URL.
    pub rel_path: Option<String>,
    /// Method of the operation.
    pub method: Option<HttpMethod>,
    /// Prefix of the helper modules in the generated code.
    pub helper_module_prefix: String,
    /// Whether the builder has the `Any` type parameter.
    pub needs_any: bool,
    /// The generic list that declares `Any`.
    pub any_generic: String,
    /// Whether the fields are held in an inner container.
    pub needs_container: bool,
    /// Whether the operation gives a list.
    pub is_list_op: bool,
    /// Whether the operation sends a body.
    pub body_required: bool,
    /// Whether the response is a file.
    pub response_is_file: bool,
    /// Type of the response, if known.
    pub response_ty_path: Option<String>,
    /// Whether the response's type holds `Any`.
    pub response_contains_any: bool,
    /// Headers of the responses.
    pub response_headers: Vec<ResponseHeader>,
    /// How the body is encoded, when not as JSON.
    pub encoding: Option<Coding>,
    /// How the response is decoded, when known.
    pub decoding: Option<Coding>,
    /// The builder's fields, in order.
    pub fields: Vec<SendableField>,
}

impl SendableField {
    /// The field that the impl reads for an entry of a builder: named as
    /// the entry, identified by the snake-cased name (the `param_` slot that
    /// the builder declares for it), required as its property says, located
    /// and delimited as the entry is. Whether it is a file comes with it.
    pub fn of_entry(field: &StructField, needs_file: bool) -> (r: SendableField)
        ensures
            r.name@ == field.name@,
            r.ident@ == snake_case_of(field.name@),
            r.required == field.prop.spec_is_required(),
            r.param_loc == field.param_loc,
            r.delimiting@ == field.delimiting@,
            r.needs_file == needs_file,
    {
        let mut name = String::new();
        push_str(&mut name, field.name);
        let mut delimiting: Vec<CollectionFormat> = Vec::new();
        let mut i: usize = 0;
        while i < field.delimiting.len()
            invariant
                i <= field.delimiting@.len(),
                delimiting@ == field.delimiting@.take(i as int),
            decreases field.delimiting.len() - i,
        {
            delimiting.push(field.delimiting[i]);
            i = i + 1;
            assert(delimiting@ =~= field.delimiting@.take(i as int));
        }
        assert(field.delimiting@.take(field.delimiting@.len() as int) =~= field.delimiting@);
        SendableField {
            name,
            ident: to_snake_case(field.name),
            required: field.prop.is_required(),
            param_loc: field.param_loc,
            delimiting,
            needs_file,
        }
    }
}

/// Whether `r` is the field that `SendableField::of_entry` gives for an
/// entry and its file flag.
pub open spec fn is_field_of_entry(r: SendableField, field: FieldView, needs_file: bool) -> bool {
    &&& r.name@ == field.name
    &&& r.ident@ == snake_case_of(field.name)
    &&& r.required == field.prop.spec_is_required()
    &&& r.param_loc == field.param_loc
    &&& r.delimiting@ == field.delimiting
    &&& r.needs_file == needs_file
}

/// The fields that the impl reads for the entries of a builder (as
/// `struct_fields_iter` gives them), each with its file flag, in order.
pub fn sendable_fields(entries: &Vec<(StructField, bool)>) -> (r: Vec<SendableField>)
    ensures
        r@.len() == entries@.len(),
        forall|i: int| 0 <= i < entries@.len() ==> is_field_of_entry(#[trigger] r@[i], entries@[i].0@, entries@[i].1),
{
    let mut out: Vec<SendableField> = Vec::new();
    let mut i: usize = 0;
    while i < entries.len()
        invariant
            i <= entries@.len(),
            out@.len() == i,
            forall|k: int| 0 <= k < i ==> is_field_of_entry(#[trigger] out@[k], entries@[k].0@, entries@[k].1),
        decreases entries.len() - i,
    {
        let f = SendableField::of_entry(&entries[i].0, entries[i].1);
        out.push(f);
        i = i + 1;
    }
    out
}

/* ---------------------------------------------------------------------- */
/* The text of each parameter                                             */
/* ---------------------------------------------------------------------- */

/// `inner.` when the fields are held in a container.
pub open spec fn container(nc: bool) -> Seq<char> {
    if nc {
        "inner."@
    } else {
        Seq::empty()
    }
}

/// The format argument of a path parameter.
pub open spec fn path_param_text(f: SendableField, nc: bool) -> Seq<char> {
    ", "@ + f.name@ + "=self."@ + container(nc) + "param_"@ + f.ident@ + ".as_ref().expect(\"missing parameter "@
        + f.ident@ + "?\")"@
}

/// The value of a header parameter.
pub open spec fn header_ref(f: SendableField, nc: bool) -> Seq<char> {
    "&self."@ + container(nc) + "param_"@ + f.ident@ + ".as_ref().map(std::string::ToString::to_string)"@ + (
    if f.required {
        ".expect(\"missing parameter "@ + f.ident@ + "?\")"@
    } else {
        Seq::empty()
    })
}

/// The statements that set a header parameter on the request.
pub open spec fn header_param_text(f: SendableField, nc: bool) -> Seq<char> {
    if f.required {
        "\n        "@ + "req = req.header("@ + debug_text_of(f.name@) + ", "@ + header_ref(f, nc) + ");"@
    } else {
        "\n        if let Some(v) = "@ + header_ref(f, nc) + " {"@ + "\n        "@ + "    "@ + "req = req.header("@
            + debug_text_of(f.name@) + ", "@ + "&v"@ + ");"@ + "\n        }"@
    }
}

/// Whether a parameter is given as many values (multi collection format).
pub open spec fn is_multi(f: SendableField) -> bool {
    f.delimiting@.len() > 0 && f.delimiting@[0] == CollectionFormat::Multi
}

/// The call that adds a form value.
pub open spec fn form_call(mp: bool) -> Seq<char> {
    if mp {
        "form = form.text"@
    } else {
        "ser.append_pair"@
    }
}

/// The reference taken of a form value.
pub open spec fn form_amp(mp: bool) -> Seq<char> {
    if mp {
        Seq::empty()
    } else {
        "&"@
    }
}

/// The statements that add a form parameter.
pub open spec fn form_param_text(f: SendableField, nc: bool, mp: bool) -> Seq<char> {
    if is_multi(f) {
        "\n            if let Some(stuff) = self."@ + container(nc) + "param_"@ + f.ident@
            + ".as_ref() {\n                for v in stuff.iter() {\n                    "@ + form_call(mp) + "("@
            + debug_text_of(f.name@) + ", "@ + form_amp(mp) + "v.to_string());\n                }\n            }"@
    } else if f.needs_file {
        "\n            if let Some(v) = self."@ + container(nc) + "param_"@ + f.ident@
            + ".as_ref() {\n                form = form.file("@ + debug_text_of(f.name@) + ", v)?;\n            }"@
    } else {
        "\n            if let Some(v) = self."@ + container(nc) + "param_"@ + f.ident@ + ".as_ref() {\n                "@
            + form_call(mp) + "("@ + debug_text_of(f.name@) + ", "@ + form_amp(mp) + "v.to_string());\n            }"@
    }
}

/// The pairs of a query parameter given as many values.
pub open spec fn multi_query_text(f: SendableField, nc: bool) -> Seq<char> {
    "\n            &self."@ + container(nc) + "param_"@ + f.ident@
        + ".as_ref().map(|v| {\n                v.iter().map(|v| ("@ + debug_text_of(f.name@)
        + ", v.to_string())).collect::<Vec<_>>()\n            }).unwrap_or_default()"@
}

/// The pair of a query parameter.
pub open spec fn query_pair_text(f: SendableField, nc: bool) -> Seq<char> {
    "\n            ("@ + debug_text_of(f.name@) + ", self."@ + container(nc) + "param_"@ + f.ident@
        + ".as_ref().map(std::string::ToString::to_string))"@
}

/// What the parameters have written so far: the path's format arguments,
/// the header statements, the form statements, the query pairs and the
/// pairs of each query parameter with many values.
#[verifier::ext_equal]
pub ghost struct Handled {
    pub path_items: Seq<char>,
    pub headers: Seq<char>,
    pub form: Seq<char>,
    pub query: Seq<char>,
    pub multi: Seq<Seq<char>>,
}

/// What handling one more field writes.
pub open spec fn handle(h: Handled, f: SendableField, nc: bool, mp: bool) -> Handled {
    match f.param_loc {
        Some(ParameterIn::Path) => Handled { path_items: h.path_items + path_param_text(f, nc), ..h },
        Some(ParameterIn::Header) => Handled { headers: h.headers + header_param_text(f, nc), ..h },
        Some(ParameterIn::FormData) => Handled { form: h.form + form_param_text(f, nc, mp), ..h },
        Some(ParameterIn::Query) => if is_multi(f) {
            Handled { multi: h.multi.push(multi_query_text(f, nc)), ..h }
        } else {
            Handled {
                query: h.query + (if h.query.len() > 0 {
                    ","@
                } else {
                    Seq::empty()
                }) + query_pair_text(f, nc),
                ..h
            }
        },
        _ => h,
    }
}

/// Nothing written yet.
pub open spec fn nothing_handled() -> Handled {
    Handled {
        path_items: Seq::empty(),
        headers: Seq::empty(),
        form: Seq::empty(),
        query: Seq::empty(),
        multi: Seq::empty(),
    }
}

/// What handling the fields writes, in order.
pub open spec fn handled(fs: Seq<SendableField>, nc: bool, mp: bool) -> Handled
    decreases fs.len(),
{
    if fs.len() == 0 {
        nothing_handled()
    } else {
        handle(handled(fs.drop_last(), nc, mp), fs.last(), nc, mp)
    }
}

/// Whether some field is a file.
pub open spec fn any_file(fs: Seq<SendableField>) -> bool {
    exists|i: int| 0 <= i < fs.len() && (#[trigger] fs[i]).needs_file
}

/* ---------------------------------------------------------------------- */
/* The code generator                                                     */
/* ---------------------------------------------------------------------- */

/// Writes the `Sendable` impl of an operation builder.
pub struct SendableCodegen<'a> {
    builder: &'a OperationBuilder,
    needs_container: bool,
    is_multipart: bool,
    path_items: String,
    headers: String,
    form: String,
    query: String,
    multi_value_query: Vec<String>,
}

/// The texts of strings.
pub open spec fn texts(v: Seq<String>) -> Seq<Seq<char>> {
    Seq::new(v.len(), |i: int| v[i]@)
}

impl<'a> SendableCodegen<'a> {
    /// The builder it writes for.
    pub closed spec fn spec_builder(self) -> OperationBuilder {
        *self.builder
    }

    /// Whether the form is sent as multipart data.
    pub closed spec fn spec_is_multipart(self) -> bool {
        self.is_multipart
    }

    /// Whether the fields are held in a container.
    pub closed spec fn spec_needs_container(self) -> bool {
        self.needs_container
    }

    /// What the parameters handled so far have written.
    pub closed spec fn spec_handled(self) -> Handled {
        Handled {
            path_items: self.path_items@,
            headers: self.headers@,
            form: self.form@,
            query: self.query@,
            multi: texts(self.multi_value_query@),
        }
    }

    /// A generator for the builder, with nothing written yet.
    pub fn from(builder: &'a OperationBuilder) -> (r: Self)
        ensures
            r.spec_builder() == *builder,
            r.spec_needs_container() == builder.needs_container,
            r.spec_is_multipart() == any_file(builder.fields@),
            r.spec_handled() == nothing_handled(),
    {
        let mut is_multipart = false;
        let mut i: usize = 0;
        while i < builder.fields.len()
            invariant
                i <= builder.fields@.len(),
                is_multipart == exists|k: int| 0 <= k < i && (#[trigger] builder.fields@[k]).needs_file,
            decreases builder.fields.len() - i,
        {
            if builder.fields[i].needs_file {
                is_multipart = true;
            }
            i = i + 1;
        }
        let r = SendableCodegen {
            builder,
            needs_container: builder.needs_container,
            is_multipart,
            path_items: String::new(),
            headers: String::new(),
            form: String::new(),
            query: String::new(),
            multi_value_query: Vec::new(),
        };
        assert(r.spec_handled() =~= nothing_handled());
        r
    }
}

/// Appends the call that adds a form value: its name and its value.
fn push_form_call(out: &mut String, name: &String, mp: bool)
    ensures
        final(out)@ == old(out)@ + form_call(mp) + "("@ + name@ + ", "@ + form_amp(mp),
{
    if mp {
        push_str(out, "form = form.text");
    } else {
        push_str(out, "ser.append_pair");
    }
    push_str(out, "(");
    push_str(out, name.as_str());
    push_str(out, ", ");
    if !mp {
        push_str(out, "&");
    }
    assert(final(out)@ =~= old(out)@ + form_call(mp) + "("@ + name@ + ", "@ + form_amp(mp));
}

/// Appends `self.`, the container and the parameter's field.
fn push_param_field(out: &mut String, field: &SendableField, nc: bool)
    ensures
        final(out)@ == old(out)@ + container(nc) + "param_"@ + field.ident@,
{
    if nc {
        push_str(out, "inner.");
    }
    push_str(out, "param_");
    push_str(out, field.ident.as_str());
    assert(final(out)@ =~= old(out)@ + container(nc) + "param_"@ + field.ident@);
}

/// The statements that add a form parameter.
#[verifier::spinoff_prover]
fn form_param(field: &SendableField, nc: bool, mp: bool) -> (r: String)
    ensures
        r@ == form_param_text(*field, nc, mp),
{
    let name = debug_text(field.name.as_str());
    let multi = field.delimiting.len() > 0 && field.delimiting[0] == CollectionFormat::Multi;
    let mut out = String::new();
    if multi {
        push_str(&mut out, "\n            if let Some(stuff) = self.");
        push_param_field(&mut out, field, nc);
        push_str(&mut out, ".as_ref() {\n                for v in stuff.iter() {\n                    ");
        push_form_call(&mut out, &name, mp);
        push_str(&mut out, "v.to_string());\n                }\n            }");
        assert(out@ =~= form_param_text(*field, nc, mp));
    } else if field.needs_file {
        push_str(&mut out, "\n            if let Some(v) = self.");
        push_param_field(&mut out, field, nc);
        push_str(&mut out, ".as_ref() {\n                form = form.file(");
        push_str(&mut out, name.as_str());
        push_str(&mut out, ", v)?;\n            }");
        assert(out@ =~= form_param_text(*field, nc, mp));
    } else {
        push_str(&mut out, "\n            if let Some(v) = self.");
        push_param_field(&mut out, field, nc);
        push_str(&mut out, ".as_ref() {\n                ");
        push_form_call(&mut out, &name, mp);
        push_str(&mut out, "v.to_string());\n            }");
        assert(out@ =~= form_param_text(*field, nc, mp));
    }
    out
}

impl<'a> SendableCodegen<'a> {
    /// Handles a path parameter: its format argument in `rel_path`.
    pub fn handle_path_param(&mut self, field: &SendableField)
        ensures
            final(self).spec_builder() == old(self).spec_builder(),
            final(self).spec_needs_container() == old(self).spec_needs_container(),
            final(self).spec_is_multipart() == old(self).spec_is_multipart(),
            final(self).spec_handled() == (Handled {
                path_items: old(self).spec_handled().path_items + path_param_text(*field, old(self).spec_needs_container()),
                ..old(self).spec_handled()
            }),
    {
        let nc = self.needs_container;
        let ghost start = self.path_items@;
        push_str(&mut self.path_items, ", ");
        push_str(&mut self.path_items, field.name.as_str());
        push_str(&mut self.path_items, "=self.");
        if nc {
            push_str(&mut self.path_items, "inner.");
        }
        push_str(&mut self.path_items, "param_");
        push_str(&mut self.path_items, field.ident.as_str());
        push_str(&mut self.path_items, ".as_ref().expect(\"missing parameter ");
        push_str(&mut self.path_items, field.ident.as_str());
        push_str(&mut self.path_items, "?\")");
        assert(self.path_items@ =~= start + path_param_text(*field, nc));
        assert(self.spec_handled() =~= (Handled {
            path_items: old(self).spec_handled().path_items + path_param_text(*field, nc),
            ..old(self).spec_handled()
        }));
    }

    /// Handles a header parameter: the statements that set it on the
    /// request (only when it has a value, if it is optional).
    pub fn handle_header_param(&mut self, field: &SendableField)
        ensures
            final(self).spec_builder() == old(self).spec_builder(),
            final(self).spec_needs_container() == old(self).spec_needs_container(),
            final(self).spec_is_multipart() == old(self).spec_is_multipart(),
            final(self).spec_handled() == (Handled {
                headers: old(self).spec_handled().headers + header_param_text(*field, old(self).spec_needs_container()),
                ..old(self).spec_handled()
            }),
    {
        let nc = self.needs_container;
        let is_required = field.required;
        let mut param_ref = String::new();
        push_str(&mut param_ref, "&self.");
        if nc {
            push_str(&mut param_ref, "inner.");
        }
        push_str(&mut param_ref, "param_");
        push_str(&mut param_ref, field.ident.as_str());
        push_str(&mut param_ref, ".as_ref().map(std::string::ToString::to_string)");
        if is_required {
            push_str(&mut param_ref, ".expect(\"missing parameter ");
            push_str(&mut param_ref, field.ident.as_str());
            push_str(&mut param_ref, "?\")");
        }
        assert(param_ref@ =~= header_ref(*field, nc));
        let ghost start = self.headers@;
        if !is_required {
            push_str(&mut self.headers, "\n        if let Some(v) = ");
            push_str(&mut self.headers, param_ref.as_str());
            push_str(&mut self.headers, " {");
        }
        push_str(&mut self.headers, "\n        ");
        if !is_required {
            push_str(&mut self.headers, "    ");
        }
        let name = debug_text(field.name.as_str());
        push_str(&mut self.headers, "req = req.header(");
        push_str(&mut self.headers, name.as_str());
        push_str(&mut self.headers, ", ");
        if is_required {
            push_str(&mut self.headers, param_ref.as_str());
        } else {
            push_str(&mut self.headers, "&v");
        }
        push_str(&mut self.headers, ");");
        if !is_required {
            push_str(&mut self.headers, "\n        }");
        }
        assert(self.headers@ =~= start + header_param_text(*field, nc));
        assert(self.spec_handled() =~= (Handled {
            headers: old(self).spec_handled().headers + header_param_text(*field, nc),
            ..old(self).spec_handled()
        }));
    }

    /// Handles a form data parameter: the statements that add it to the
    /// form when it has a value.
    pub fn handle_form_param(&mut self, field: &SendableField)
        ensures
            final(self).spec_builder() == old(self).spec_builder(),
            final(self).spec_needs_container() == old(self).spec_needs_container(),
            final(self).spec_is_multipart() == old(self).spec_is_multipart(),
            final(self).spec_handled() == (Handled {
                form: old(self).spec_handled().form + form_param_text(
                    *field,
                    old(self).spec_needs_container(),
                    old(self).spec_is_multipart(),
                ),
                ..old(self).spec_handled()
            }),
    {
        let t = form_param(field, self.needs_container, self.is_multipart);
        push_str(&mut self.form, t.as_str());
        assert(self.spec_handled() =~= (Handled {
            form: old(self).spec_handled().form + form_param_text(*field, self.needs_container, self.is_multipart),
            ..old(self).spec_handled()
        }));
    }

    /// Handles a query parameter: its pair in the query, or, for one with
    /// many values, a query of its own.
    pub fn handle_query_param(&mut self, field: &SendableField)
        ensures
            final(self).spec_builder() == old(self).spec_builder(),
            final(self).spec_needs_container() == old(self).spec_needs_container(),
            final(self).spec_is_multipart() == old(self).spec_is_multipart(),
            final(self).spec_handled() == handle(
                old(self).spec_handled(),
                SendableField { param_loc: Some(ParameterIn::Query), ..*field },
                old(self).spec_needs_container(),
                old(self).spec_is_multipart(),
            ),
    {
        let nc = self.needs_container;
        let name = debug_text(field.name.as_str());
        let ghost g = SendableField { param_loc: Some(ParameterIn::Query), ..*field };
        assert(multi_query_text(g, nc) == multi_query_text(*field, nc));
        assert(query_pair_text(g, nc) == query_pair_text(*field, nc));
        let multi = field.delimiting.len() > 0 && field.delimiting[0] == CollectionFormat::Multi;
        if multi {
            let mut q = String::new();
            push_str(&mut q, "\n            &self.");
            if nc {
                push_str(&mut q, "inner.");
            }
            push_str(&mut q, "param_");
            push_str(&mut q, field.ident.as_str());
            push_str(&mut q, ".as_ref().map(|v| {\n                v.iter().map(|v| (");
            push_str(&mut q, name.as_str());
            push_str(&mut q, ", v.to_string())).collect::<Vec<_>>()\n            }).unwrap_or_default()");
            assert(q@ =~= multi_query_text(*field, nc));
            let ghost before = texts(self.multi_value_query@);
            self.multi_value_query.push(q);
            assert(texts(self.multi_value_query@) =~= before.push(multi_query_text(*field, nc)));
            assert(self.spec_handled() =~= handle(old(self).spec_handled(), g, nc, self.is_multipart));
            return;
        }
        let ghost start = self.query@;
        if !self.query.as_str().is_empty() {
            push_str(&mut self.query, ",");
        }
        push_str(&mut self.query, "\n            (");
        push_str(&mut self.query, name.as_str());
        push_str(&mut self.query, ", self.");
        if nc {
            push_str(&mut self.query, "inner.");
        }
        push_str(&mut self.query, "param_");
        push_str(&mut self.query, field.ident.as_str());
        push_str(&mut self.query, ".as_ref().map(std::string::ToString::to_string))");
        assert(self.query@ =~= start + (if start.len() > 0 {
            ","@
        } else {
            Seq::empty()
        }) + query_pair_text(*field, nc));
        assert(self.spec_handled() =~= handle(old(self).spec_handled(), g, nc, self.is_multipart));
    }

    /// Handles the builder's fields in order, each by where it lives.
    fn handle_fields(&mut self)
        requires
            old(self).spec_handled() == nothing_handled(),
        ensures
            final(self).spec_builder() == old(self).spec_builder(),
            final(self).spec_needs_container() == old(self).spec_needs_container(),
            final(self).spec_is_multipart() == old(self).spec_is_multipart(),
            final(self).spec_handled() == handled(
                old(self).spec_builder().fields@,
                old(self).spec_needs_container(),
                old(self).spec_is_multipart(),
            ),
    {
        let builder = self.builder;
        let ghost fs = builder.fields@;
        let ghost nc = self.needs_container;
        let ghost mp = self.is_multipart;
        let mut i: usize = 0;
        assert(fs.take(0) =~= Seq::<SendableField>::empty());
        while i < builder.fields.len()
            invariant
                self.builder == builder,
                fs == builder.fields@,
                self.needs_container == nc,
                self.is_multipart == mp,
                i <= fs.len(),
                self.spec_handled() == handled(fs.take(i as int), nc, mp),
            decreases builder.fields.len() - i,
        {
            let field = &builder.fields[i];
            assert(fs.take(i + 1).drop_last() =~= fs.take(i as int));
            assert(fs.take(i + 1).last() == *field);
            match field.param_loc {
                Some(ParameterIn::Path) => self.handle_path_param(field),
                Some(ParameterIn::Header) => self.handle_header_param(field),
                Some(ParameterIn::FormData) => self.handle_form_param(field),
                Some(ParameterIn::Query) => {
                    assert(SendableField { param_loc: Some(ParameterIn::Query), ..*field } == *field);
                    self.handle_query_param(field);
                },
                _ => {},
            }
            i = i + 1;
        }
        assert(fs.take(fs.len() as int) =~= fs);
    }
}

/* ---------------------------------------------------------------------- */
/* The text of the impl                                                   */
/* ---------------------------------------------------------------------- */

/// The coding of the response: the builder's, or else the fallback.
pub open spec fn response_coding(b: OperationBuilder, fallback: Coding) -> Coding {
    match b.decoding {
        Some(c) => c,
        None => fallback,
    }
}

/// Whether the output holds a value decoded without a known type.
pub open spec fn needs_any_value(b: OperationBuilder) -> bool {
    b.needs_any || b.response_ty_path is None || b.response_contains_any
}

/// The type of a response streamed as a file.
pub open spec fn stream_ty(p: Seq<char>) -> Seq<char> {
    p + "util::ResponseStream<<<Client as "@ + p + "client::ApiClient>::Response as "@ + p
        + "client::Response>::Bytes, <<Client as "@ + p + "client::ApiClient>::Response as "@ + p
        + "client::Response>::Error>"@
}

/// The type of the response within the output type.
pub open spec fn response_part(b: OperationBuilder) -> Seq<char> {
    if b.response_is_file {
        stream_ty(b.helper_module_prefix@)
    } else {
        match b.response_ty_path {
            Some(t) => t@,
            None => Seq::empty(),
        }
    }
}

/// The value decoded without a known type within the output type, if any.
pub open spec fn any_part(b: OperationBuilder, fallback: Coding) -> Seq<char> {
    if needs_any_value(b) {
        let a = response_coding(b, fallback).any_value@;
        if b.response_ty_path is Some {
            "<"@ + a + ">"@
        } else {
            a
        }
    } else {
        Seq::empty()
    }
}

/// The output type of the operation.
#[verifier::opaque]
pub open spec fn output_ty(b: OperationBuilder, fallback: Coding) -> Seq<char> {
    (if b.is_list_op {
        "Vec<"@
    } else {
        Seq::empty()
    }) + response_part(b) + any_part(b, fallback) + (if b.is_list_op {
        ">"@
    } else {
        Seq::empty()
    })
}

/// The media range the operation accepts, when its output holds a value
/// decoded without a known type.
pub open spec fn accepted_range(b: OperationBuilder, fallback: Coding) -> Option<Seq<char>> {
    if needs_any_value(b) {
        Some(response_coding(b, fallback).range@)
    } else {
        None
    }
}

/// The body the request carries, if any.
pub open spec fn body_text(b: OperationBuilder) -> Seq<char> {
    if b.body_required {
        "\n        "@ + (match b.encoding {
            Some(c) => ".header(http::header::CONTENT_TYPE.as_str(), "@ + debug_text_of(c.range@) + ")"@
                + "\n        .body_bytes({\n            let mut vec = vec![];\n            "@ + c.encoder_path@
                + "(&mut vec, "@,
            None => ".json("@,
        }) + "&self."@ + container(b.needs_container) + "body)"@ + (if b.encoding is Some {
            "?;\n            vec\n        })"@
        } else {
            Seq::empty()
        })
    } else {
        Seq::empty()
    }
}

/// The `Accept` header, if there is a range to accept.
pub open spec fn accept_text(r: Option<Seq<char>>) -> Seq<char> {
    match r {
        Some(r) => "\n        .header(http::header::ACCEPT.as_str(), "@ + debug_text_of(r) + ")"@,
        None => Seq::empty(),
    }
}

/// The form the request carries, if any: multipart data, or URL-encoded.
pub open spec fn form_text(p: Seq<char>, form: Seq<char>, mp: bool) -> Seq<char> {
    if form.len() > 0 && mp {
        "\n        .multipart_form_data({\n            use "@ + p
            + "client::Form;\n            let mut form = <Client::Request as Request>::Form::new();"@ + form
            + "\n            form\n        })"@
    } else if form.len() > 0 {
        "\n        .body_bytes({\n            let mut ser = url::form_urlencoded::Serializer::new(String::new());"@
            + form + "\n            ser.finish().into_bytes()\n        })"@
            + "\n        .header(http::header::CONTENT_TYPE.as_str(), \"application/x-www-form-urlencoded\")"@
    } else {
        Seq::empty()
    }
}

/// The query pairs, if any.
pub open spec fn query_text(q: Seq<char>) -> Seq<char> {
    if q.len() > 0 {
        "\n        .query(&["@ + q + "\n        ])"@
    } else {
        Seq::empty()
    }
}

/// The queries of the parameters with many values.
pub open spec fn multi_queries_text(ms: Seq<Seq<char>>) -> Seq<char>
    decreases ms.len(),
{
    if ms.len() == 0 {
        Seq::empty()
    } else {
        multi_queries_text(ms.drop_last()) + "\n        .query({"@ + ms.last() + "\n        })"@
    }
}

/// The head of the `modify` method.
pub open spec fn modify_head(p: Seq<char>) -> Seq<char> {
    "\n\n    fn modify(&self, req: Client::Request) -> Result<Client::Request, "@ + p
        + "client::ApiError<Client::Response>> {"@ + "\n        use "@ + p + "client::Request;"@
}

/// The header statements of the `modify` method, if any.
pub open spec fn headers_part(headers: Seq<char>) -> Seq<char> {
    if headers.len() > 0 {
        "\n        let mut req = req;"@ + headers + "\n"@
    } else {
        Seq::empty()
    }
}

/// The `modify` method: headers, body, accepted range, form and queries.
#[verifier::opaque]
pub open spec fn modify_text(b: OperationBuilder, h: Handled, mp: bool, accepted: Option<Seq<char>>) -> Seq<char> {
    modify_head(b.helper_module_prefix@) + headers_part(h.headers) + "\n        Ok(req"@ + body_text(b) + accept_text(
        accepted,
    ) + form_text(b.helper_module_prefix@, h.form, mp) + query_text(h.query) + multi_queries_text(h.multi)
        + ")\n    }"@
}

/// The `send` method of an operation whose response is a file.
#[verifier::opaque]
pub open spec fn file_acceptor_text(p: Seq<char>) -> Seq<char> {
    "\n\n    async fn send(&self, client: &Client) -> Result<"@ + p + "client::ResponseWrapper<Self::Output, Self>, "@
        + p + "client::ApiError<Client::Response>> {\n        use "@ + p
        + "client::Response;\n        let resp = self.send_raw(client).await?;\n        Ok("@ + p
        + "client::ResponseWrapper::wrap(resp, |r| async {\n            Ok("@ + p
        + "util::ResponseStream(r.stream()))\n        }).await.unwrap())\n    }"@
}

/// Appends the queries of the parameters with many values.
fn push_multi_queries(out: &mut String, ms: &Vec<String>)
    ensures
        final(out)@ == old(out)@ + multi_queries_text(texts(ms@)),
{
    let ghost t = texts(ms@);
    let mut i: usize = 0;
    assert(t.take(0) =~= Seq::<Seq<char>>::empty());
    while i < ms.len()
        invariant
            i <= ms@.len(),
            t == texts(ms@),
            out@ == old(out)@ + multi_queries_text(t.take(i as int)),
        decreases ms.len() - i,
    {
        assert(t.take(i + 1).drop_last() =~= t.take(i as int));
        push_str(out, "\n        .query({");
        push_str(out, ms[i].as_str());
        push_str(out, "\n        })");
        assert(out@ =~= old(out)@ + multi_queries_text(t.take(i + 1)));
        i = i + 1;
    }
    assert(t.take(t.len() as int) =~= t);
}

/// Appends the body the request carries, if any.
#[verifier::spinoff_prover]
fn push_body(out: &mut String, b: &OperationBuilder)
    ensures
        final(out)@ == old(out)@ + body_text(*b),
{
    if b.body_required {
        push_str(out, "\n        ");
        match &b.encoding {
            Some(c) => {
                let r = debug_text(c.range.as_str());
                push_str(out, ".header(http::header::CONTENT_TYPE.as_str(), ");
                push_str(out, r.as_str());
                push_str(out, ")");
                push_str(out, "\n        .body_bytes({\n            let mut vec = vec![];\n            ");
                push_str(out, c.encoder_path.as_str());
                push_str(out, "(&mut vec, ");
            },
            None => push_str(out, ".json("),
        }
        push_str(out, "&self.");
        if b.needs_container {
            push_str(out, "inner.");
        }
        push_str(out, "body)");
        if b.encoding.is_some() {
            push_str(out, "?;\n            vec\n        })");
        }
    }
    assert(final(out)@ =~= old(out)@ + body_text(*b));
}

/// Appends the form the request carries, if any.
#[verifier::spinoff_prover]
fn push_form(out: &mut String, p: &str, form: &String, mp: bool)
    ensures
        final(out)@ == old(out)@ + form_text(p@, form@, mp),
{
    let has_form = !form.as_str().is_empty();
    if has_form && mp {
        push_str(out, "\n        .multipart_form_data({\n            use ");
        push_str(out, p);
        push_str(out, "client::Form;\n            let mut form = <Client::Request as Request>::Form::new();");
        push_str(out, form.as_str());
        push_str(out, "\n            form\n        })");
    } else if has_form {
        push_str(out, "\n        .body_bytes({\n            let mut ser = url::form_urlencoded::Serializer::new(String::new());");
        push_str(out, form.as_str());
        push_str(out, "\n            ser.finish().into_bytes()\n        })");
        push_str(out, "\n        .header(http::header::CONTENT_TYPE.as_str(), \"application/x-www-form-urlencoded\")");
    }
    assert(final(out)@ =~= old(out)@ + form_text(p@, form@, mp));
}

/// Appends the type of the response within the output type.
#[verifier::spinoff_prover]
fn push_response_part(f: &mut String, b: &OperationBuilder)
    ensures
        final(f)@ == old(f)@ + response_part(*b),
{
    let p = b.helper_module_prefix.as_str();
    if b.response_is_file {
        push_str(f, p);
        push_str(f, "util::ResponseStream<<<Client as ");
        push_str(f, p);
        push_str(f, "client::ApiClient>::Response as ");
        push_str(f, p);
        push_str(f, "client::Response>::Bytes, <<Client as ");
        push_str(f, p);
        push_str(f, "client::ApiClient>::Response as ");
        push_str(f, p);
        push_str(f, "client::Response>::Error>");
        assert(f@ =~= old(f)@ + stream_ty(p@));
    } else if let Some(resp) = &b.response_ty_path {
        // A known response type is written as it is.
        push_str(f, resp.as_str());
    } else {
        assert(f@ =~= old(f)@ + response_part(*b));
    }
}

/// Appends the value decoded without a known type, if the output needs
/// one, and gives the media range it is decoded from.
#[verifier::spinoff_prover]
fn push_any_part(f: &mut String, b: &OperationBuilder, fallback: &Coding) -> (r: Option<String>)
    ensures
        final(f)@ == old(f)@ + any_part(*b, *fallback),
        opt_view(r) == accepted_range(*b, *fallback),
{
    if b.needs_any || b.response_ty_path.is_none() || b.response_contains_any {
        let coding = match &b.decoding {
            Some(c) => c,
            None => fallback,
        };
        if b.response_ty_path.is_some() {
            push_str(f, "<");
            push_str(f, coding.any_value.as_str());
            push_str(f, ">");
        } else {
            push_str(f, coding.any_value.as_str());
        }
        Some(coding.range.clone())
    } else {
        assert(f@ =~= old(f)@ + any_part(*b, *fallback));
        None
    }
}

/// Appends the head of the `modify` method and its header statements.
#[verifier::spinoff_prover]
fn push_modify_head(f: &mut String, p: &str, headers: &String)
    ensures
        final(f)@ == old(f)@ + modify_head(p@) + headers_part(headers@),
{
    push_str(f, "\n\n    fn modify(&self, req: Client::Request) -> Result<Client::Request, ");
    push_str(f, p);
    push_str(f, "client::ApiError<Client::Response>> {");
    push_str(f, "\n        use ");
    push_str(f, p);
    push_str(f, "client::Request;");
    assert(f@ =~= old(f)@ + modify_head(p@));
    let ghost a = f@;
    if !headers.as_str().is_empty() {
        push_str(f, "\n        let mut req = req;");
        push_str(f, headers.as_str());
        push_str(f, "\n");
    }
    assert(f@ =~= a + headers_part(headers@));
}

/// Appends the `Accept` header, if there is a range to accept.
fn push_accept(f: &mut String, accepted: &Option<String>)
    ensures
        final(f)@ == old(f)@ + accept_text(opt_view(*accepted)),
{
    if let Some(r) = accepted {
        let t = debug_text(r.as_str());
        push_str(f, "\n        .header(http::header::ACCEPT.as_str(), ");
        push_str(f, t.as_str());
        push_str(f, ")");
    }
    assert(f@ =~= old(f)@ + accept_text(opt_view(*accepted)));
}

/// Appends the query pairs, if any.
fn push_query(f: &mut String, q: &String)
    ensures
        final(f)@ == old(f)@ + query_text(q@),
{
    if !q.as_str().is_empty() {
        push_str(f, "\n        .query(&[");
        push_str(f, q.as_str());
        push_str(f, "\n        ])");
    }
    assert(f@ =~= old(f)@ + query_text(q@));
}

impl<'a> SendableCodegen<'a> {
    /// Writes the output type of the operation, and gives the media range
    /// it accepts when that type holds a value decoded without a known type
    /// (by the builder's decoding, or else the fallback).
    pub fn write_output_ty(&self, f: &mut String, fallback: &Coding) -> (r: Option<String>)
        ensures
            final(f)@ == old(f)@ + output_ty(self.spec_builder(), *fallback),
            opt_view(r) == accepted_range(self.spec_builder(), *fallback),
    {
        reveal(output_ty);
        let b = self.builder;
        if b.is_list_op {
            push_str(f, "Vec<");
        }
        push_response_part(f, b);
        let accepted = push_any_part(f, b, fallback);
        if b.is_list_op {
            push_str(f, ">");
        }
        accepted
    }

    /// Writes the `modify` method, with the range to accept (if any); the
    /// queries of the parameters with many values are used up.
    pub fn write_modify_method(&mut self, f: &mut String, accepted_range: Option<String>)
        ensures
            final(self).spec_builder() == old(self).spec_builder(),
            final(self).spec_needs_container() == old(self).spec_needs_container(),
            final(self).spec_is_multipart() == old(self).spec_is_multipart(),
            final(self).spec_handled() == (Handled { multi: Seq::empty(), ..old(self).spec_handled() }),
            final(f)@ == old(f)@ + modify_text(
                old(self).spec_builder(),
                old(self).spec_handled(),
                old(self).spec_is_multipart(),
                opt_view(accepted_range),
            ),
    {
        reveal(modify_text);
        let b = self.builder;
        let p = b.helper_module_prefix.as_str();
        push_modify_head(f, p, &self.headers);
        push_str(f, "\n        Ok(req");
        push_body(f, b);
        push_accept(f, &accepted_range);
        push_form(f, p, &self.form, self.is_multipart);
        push_query(f, &self.query);
        push_multi_queries(f, &self.multi_value_query);
        self.multi_value_query = Vec::new();
        push_str(f, ")\n    }");
        assert(self.spec_handled() =~= (Handled { multi: Seq::empty(), ..old(self).spec_handled() }));
    }

    /// Writes the `send` method of an operation whose response is a file.
    pub fn write_file_acceptor(&self, f: &mut String)
        ensures
            final(f)@ == old(f)@ + file_acceptor_text(self.spec_builder().helper_module_prefix@),
    {
        reveal(file_acceptor_text);
        let p = self.builder.helper_module_prefix.as_str();
        push_str(f, "\n\n    async fn send(&self, client: &Client) -> Result<");
        push_str(f, p);
        push_str(f, "client::ResponseWrapper<Self::Output, Self>, ");
        push_str(f, p);
        push_str(f, "client::ApiError<Client::Response>> {\n        use ");
        push_str(f, p);
        push_str(f, "client::Response;\n        let resp = self.send_raw(client).await?;\n        Ok(");
        push_str(f, p);
        push_str(f, "client::ResponseWrapper::wrap(resp, |r| async {\n            Ok(");
        push_str(f, p);
        push_str(f, "util::ResponseStream(r.stream()))\n        }).await.unwrap())\n    }");
        assert(f@ =~= old(f)@ + file_acceptor_text(p@));
    }
}

/* ---------------------------------------------------------------------- */
/* Response headers and the whole impl                                    */
/* ---------------------------------------------------------------------- */

/// The method that reads a response header: its docs, its name (snake-cased,
/// with `_` after a keyword) and the parsing of its value.
pub open spec fn header_method_text(h: ResponseHeader) -> Seq<char> {
    let name = snake_case_of(h.name@);
    docs_text(opt_view(h.description), 1) + (if h.description is None {
        "\n"@
    } else {
        Seq::empty()
    }) + "    #[inline]\n    pub fn "@ + name + (if is_rust_keyword(name) {
        "_"@
    } else {
        Seq::empty()
    }) + "(&self) -> Option<"@ + h.wrapped_ty@ + "> {\n        self.headers.get("@ + debug_text_of(h.name@)
        + ").and_then(|v| String::from_utf8_lossy(v.as_ref()).parse().ok())\n    }"@
}

/// The methods of all response headers, in order.
pub open spec fn header_methods_text(hs: Seq<ResponseHeader>) -> Seq<char>
    decreases hs.len(),
{
    if hs.len() == 0 {
        Seq::empty()
    } else {
        header_methods_text(hs.drop_last()) + header_method_text(hs.last())
    }
}

/// The impl that reads the response headers from the response wrapper, if
/// there are any.
#[verifier::opaque]
pub open spec fn response_headers_text(b: OperationBuilder, fallback: Coding) -> Seq<char> {
    if b.response_headers@.len() == 0 {
        Seq::empty()
    } else {
        "\nimpl"@ + (if b.needs_any {
            b.any_generic@
        } else {
            Seq::empty()
        }) + " "@ + b.helper_module_prefix@ + "client::ResponseWrapper<"@ + output_ty(b, fallback) + ", "@
            + b.ty_name@ + "> {"@ + header_methods_text(b.response_headers@) + "\n}\n"@
    }
}

/// Whether the `modify` method is needed: a body, a form, a query or a
/// header.
pub open spec fn needs_modify(b: OperationBuilder, h: Handled) -> bool {
    b.body_required || h.form.len() > 0 || h.query.len() > 0 || h.multi.len() > 0 || h.headers.len() > 0
}

/// The opening of the impl, up to its output type.
pub open spec fn impl_open(b: OperationBuilder) -> Seq<char> {
    let p = b.helper_module_prefix@;
    "\n"@ + (if b.response_is_file {
        "#[async_trait::async_trait]\n"@
    } else {
        Seq::empty()
    }) + "impl<Client: "@ + p + "client::ApiClient + Sync + 'static"@ + (if b.needs_any {
        ", Any: serde::Serialize"@
    } else {
        Seq::empty()
    }) + "> "@ + p + "client::Sendable<Client> for "@ + b.ty_name@ + " {\n    type Output = "@
}

/// The method of the operation, up to the body of `rel_path`.
pub open spec fn method_part(m: HttpMethod) -> Seq<char> {
    ";\n\n    const METHOD: http::Method = http::Method::"@ + m.spec_upper_name()
        + ";\n\n    fn rel_path(&self) -> std::borrow::Cow<'static, str> {\n        "@
}

/// The head of the impl, up to the body of `rel_path`.
#[verifier::opaque]
pub open spec fn impl_head(b: OperationBuilder, m: HttpMethod, fallback: Coding) -> Seq<char> {
    impl_open(b) + output_ty(b, fallback) + method_part(m)
}

/// The `modify` method, when it is needed.
pub open spec fn modify_part(b: OperationBuilder, h: Handled, mp: bool, accepted: Option<Seq<char>>) -> Seq<char> {
    if needs_modify(b, h) {
        modify_text(b, h, mp, accepted)
    } else {
        Seq::empty()
    }
}

/// The `send` method, for a response that is a file.
pub open spec fn file_part(b: OperationBuilder) -> Seq<char> {
    if b.response_is_file {
        file_acceptor_text(b.helper_module_prefix@)
    } else {
        Seq::empty()
    }
}

/// The `Sendable` impl of an operation builder and the impl that reads its
/// response headers; nothing for a builder that is not an operation's.
pub open spec fn sendable_impl_text(b: OperationBuilder, fallback: Coding) -> Seq<char> {
    match (b.rel_path, b.method) {
        (Some(path), Some(m)) => {
            let mp = any_file(b.fields@);
            let h = handled(b.fields@, b.needs_container, mp);
            impl_head(b, m, fallback) + crate::impls::sendable_path(path@, h.path_items) + "\n    }"@ + modify_part(
                b,
                h,
                mp,
                accepted_range(b, fallback),
            ) + file_part(b) + "\n}\n"@ + response_headers_text(b, fallback)
        },
        _ => Seq::empty(),
    }
}

/// Appends the method that reads a response header.
#[verifier::spinoff_prover]
fn push_header_method(f: &mut String, h: &ResponseHeader) -> (r: Result<(), WriteError>)
    ensures
        r is Ok ==> final(f)@ == old(f)@ + header_method_text(*h),
        doc_regex_ok() ==> r is Ok,
{
    let desc: Option<&str> = match &h.description {
        Some(d) => Some(d.as_str()),
        None => None,
    };
    let res = ApiObject::write_docs(desc, f, 1);
    if res.is_err() {
        return res;
    }
    assert(f@ == old(f)@ + docs_text(opt_view(h.description), 1));
    let ghost a = f@;
    if h.description.is_none() {
        push_str(f, "\n");
    }
    let name = to_snake_case(h.name.as_str());
    let collides = is_keyword(name.as_str());
    push_str(f, "    #[inline]\n    pub fn ");
    push_str(f, name.as_str());
    if collides {
        push_str(f, "_");
    }
    push_str(f, "(&self) -> Option<");
    push_str(f, h.wrapped_ty.as_str());
    let t = debug_text(h.name.as_str());
    push_str(f, "> {\n        self.headers.get(");
    push_str(f, t.as_str());
    push_str(f, ").and_then(|v| String::from_utf8_lossy(v.as_ref()).parse().ok())\n    }");
    assert(f@ =~= old(f)@ + header_method_text(*h));
    Ok(())
}

/// Appends the methods of all response headers.
fn push_header_methods(f: &mut String, hs: &Vec<ResponseHeader>) -> (r: Result<(), WriteError>)
    ensures
        r is Ok ==> final(f)@ == old(f)@ + header_methods_text(hs@),
        doc_regex_ok() ==> r is Ok,
{
    let mut i: usize = 0;
    assert(hs@.take(0) =~= Seq::<ResponseHeader>::empty());
    while i < hs.len()
        invariant
            i <= hs@.len(),
            f@ == old(f)@ + header_methods_text(hs@.take(i as int)),
        decreases hs.len() - i,
    {
        assert(hs@.take(i + 1).drop_last() =~= hs@.take(i as int));
        let res = push_header_method(f, &hs[i]);
        if res.is_err() {
            return res;
        }
        i = i + 1;
    }
    assert(hs@.take(hs@.len() as int) =~= hs@);
    Ok(())
}

impl<'a> SendableCodegen<'a> {
    /// Writes the impl that reads the response headers from the response
    /// wrapper, if the responses have headers.
    pub fn write_response_headers_impl(&self, f: &mut String, fallback: &Coding) -> (r: Result<(), WriteError>)
        ensures
            r is Ok ==> final(f)@ == old(f)@ + response_headers_text(self.spec_builder(), *fallback),
            doc_regex_ok() ==> r is Ok,
    {
        reveal(response_headers_text);
        let b = self.builder;
        if b.response_headers.len() == 0 {
            return Ok(());
        }
        push_str(f, "\nimpl");
        if b.needs_any {
            push_str(f, b.any_generic.as_str());
        }
        push_str(f, " ");
        push_str(f, b.helper_module_prefix.as_str());
        push_str(f, "client::ResponseWrapper<");
        let ghost a = f@;
        let _ = self.write_output_ty(f, fallback);
        let ghost c = f@;
        push_str(f, ", ");
        push_str(f, b.ty_name.as_str());
        push_str(f, "> {");
        let ghost d = f@;
        let res = push_header_methods(f, &b.response_headers);
        if res.is_err() {
            return res;
        }
        push_str(f, "\n}\n");
        assert(f@ =~= old(f)@ + response_headers_text(*b, *fallback));
        Ok(())
    }
}

/// Appends the opening of the impl, up to its output type.
#[verifier::spinoff_prover]
fn push_impl_open(f: &mut String, b: &OperationBuilder)
    ensures
        final(f)@ == old(f)@ + impl_open(*b),
{
    let p = b.helper_module_prefix.as_str();
    push_str(f, "\n");
    if b.response_is_file {
        push_str(f, "#[async_trait::async_trait]\n");
    }
    push_str(f, "impl<Client: ");
    push_str(f, p);
    push_str(f, "client::ApiClient + Sync + 'static");
    if b.needs_any {
        push_str(f, ", Any: serde::Serialize");
    }
    push_str(f, "> ");
    push_str(f, p);
    push_str(f, "client::Sendable<Client> for ");
    push_str(f, b.ty_name.as_str());
    push_str(f, " {\n    type Output = ");
    assert(f@ =~= old(f)@ + impl_open(*b));
}

/// Appends the body of `rel_path` and the end of that method.
fn push_rel_path(f: &mut String, path: &String, items: &String)
    ensures
        final(f)@ == old(f)@ + crate::impls::sendable_path(path@, items@) + "\n    }"@,
{
    // A static path when it has no parameter, else a `format!` of it.
    if items.as_str().is_empty() {
        push_str(f, "\"");
        push_str(f, path.as_str());
        push_str(f, "\".into()");
    } else {
        push_str(f, "format!(\"");
        push_str(f, path.as_str());
        push_str(f, "\"");
        push_str(f, items.as_str());
        push_str(f, ").into()");
    }
    push_str(f, "\n    }");
    assert(f@ =~= old(f)@ + crate::impls::sendable_path(path@, items@) + "\n    }"@);
}

impl<'a> SendableCodegen<'a> {
    /// Writes the head of the impl, up to the body of `rel_path`, and gives
    /// the media range to accept (if any).
    #[verifier::spinoff_prover]
    fn write_impl_head(&self, f: &mut String, m: HttpMethod, fallback: &Coding) -> (r: Option<String>)
        ensures
            final(f)@ == old(f)@ + impl_head(self.spec_builder(), m, *fallback),
            opt_view(r) == accepted_range(self.spec_builder(), *fallback),
    {
        reveal(impl_head);
        push_impl_open(f, self.builder);
        let accepted = self.write_output_ty(f, fallback);
        push_str(f, ";\n\n    const METHOD: http::Method = http::Method::");
        push_str(f, m.upper_name());
        push_str(f, ";\n\n    fn rel_path(&self) -> std::borrow::Cow<'static, str> {\n        ");
        accepted
    }

    /// Writes the `Sendable` impl of the builder, if it is an operation's,
    /// followed by the impl that reads its response headers; a response
    /// decoded without a known type is decoded by the builder's decoding,
    /// or else by the fallback.
    #[verifier::spinoff_prover]
    #[verifier::rlimit(40)]
    pub fn write_impl_if_needed(self, f: &mut String, fallback: &Coding) -> (r: Result<(), WriteError>)
        requires
            self.spec_handled() == nothing_handled(),
            self.spec_needs_container() == self.spec_builder().needs_container,
            self.spec_is_multipart() == any_file(self.spec_builder().fields@),
        ensures
            r is Ok ==> final(f)@ == old(f)@ + sendable_impl_text(self.spec_builder(), *fallback),
            doc_regex_ok() ==> r is Ok,
    {
        let mut this = self;
        let b = this.builder;
        let (path, method) = match (&b.rel_path, b.method) {
            (Some(p), Some(m)) => (p, m),
            _ => {
                assert(f@ =~= old(f)@ + sendable_impl_text(*b, *fallback));
                return Ok(());
            },
        };
        let accepted = this.write_impl_head(f, method, fallback);
        this.handle_fields();
        let ghost h = this.spec_handled();
        push_rel_path(f, path, &this.path_items);
        let ghost c = f@;
        // The `modify` method is needed for a body and the other parameters.
        if b.body_required || !this.form.as_str().is_empty() || !this.query.as_str().is_empty()
            || this.multi_value_query.len() > 0 || !this.headers.as_str().is_empty() {
            this.write_modify_method(f, accepted);
        }
        assert(f@ == c + modify_part(*b, h, this.is_multipart, accepted_range(*b, *fallback)));
        let ghost d = f@;
        if b.response_is_file {
            this.write_file_acceptor(f);
        }
        assert(f@ == d + file_part(*b));
        push_str(f, "\n}\n");
        let res = this.write_response_headers_impl(f, fallback);
        res
    }
}

} // verus!
