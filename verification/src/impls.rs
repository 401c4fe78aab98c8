//! The `impl` blocks written for API objects and their builders: builder
//! constructors, `Into` impls, CLI (clap) descriptions and matches.

use vstd::prelude::*;
use crate::models::ParameterIn;
use crate::object::{
    add_fields, add_params, docs_text, doc_regex_ok, field_entry, field_rust_name, field_views, is_keyword, parameter_text,
    is_rust_keyword, name_index, opt_str_view, params_entries, ApiObject,
    ApiObjectBuilder, FieldView, ObjectField, Parameter, ParamsMode, StructField,
    TypeParameters,
};
use crate::text::{
    ascii_char, camel_case_of, chars_of, contains_pair, debug_text, debug_text_of, ends_with,
    find, find_char, has_pair, is_ascii_char, kebab_case_of, lemma_find_char_found,
    prefix_ends_with, push_replaced, push_str, replace_all, snake_case_of, string_of_range,
    to_camel_case, to_kebab_case, to_snake_case, WriteError,
};

verus! {

/// Whether `Debug` escapes a single quote (older versions of Rust wrote `\'`).
pub open spec fn escapes_quote() -> bool {
    debug_text_of("'"@) == "\"\\'\""@
}

/// The text of a description as a quoted YAML string: its `Debug` form,
/// with `\'` turned back into `'` where `Debug` escapes single quotes.
pub open spec fn description_text(s: Seq<char>) -> Seq<char> {
    if escapes_quote() {
        replace_all(debug_text_of(s), "\\'"@, "'"@)
    } else {
        debug_text_of(s)
    }
}

/// Quotes and escapes a description so that it can be put in a YAML
/// property.
pub fn mk_description_text(s: &str) -> (r: String)
    ensures
        r@ == description_text(s@),
{
    let probe = debug_text("'");
    let d = debug_text(s);
    if !crate::object::str_eq(probe.as_str(), "\"\\'\"") {
        d
    } else {
        let mut out = String::new();
        proof {
            reveal_strlit("\\'");
        }
        push_replaced(&mut out, d.as_str(), "\\'", "'");
        out
    }
}

/// Represents the API object impl.
pub struct ApiObjectImpl<'a> {
    /// The object.
    pub inner: &'a ApiObject,
    /// The builders of the object (the object's own builder first).
    pub builders: Vec<ApiObjectBuilder<'a>>,
}

impl ApiObject {
    /// Returns a struct representing the impl for this object; its
    /// builders are to be filled in by the caller.
    pub fn impl_repr(&self) -> (r: ApiObjectImpl<'_>)
        ensures
            *r.inner == *self,
            r.builders@.len() == 0,
    {
        ApiObjectImpl { inner: self, builders: Vec::new() }
    }
}

/* ---------------------------------------------------------------------- */
/* CLI commands                                                           */
/* ---------------------------------------------------------------------- */

/// The command names (kebab-cased operation IDs) of the builders that have
/// an operation ID, each with the builder's index.
pub open spec fn cli_commands(bs: Seq<ApiObjectBuilder>) -> Seq<(Seq<char>, int)>
    decreases bs.len(),
{
    if bs.len() == 0 {
        Seq::empty()
    } else {
        let r = cli_commands(bs.drop_last());
        match bs.last().op_id {
            Some(n) => r.push((kebab_case_of(n@), bs.len() - 1)),
            None => r,
        }
    }
}

impl<'a> ApiObjectImpl<'a> {
    /// The CLI commands of this object; objects without operations (only the
    /// object's own builder) have none.
    pub open spec fn spec_cli_commands(self) -> Seq<(Seq<char>, int)> {
        if self.builders@.len() < 2 {
            Seq::empty()
        } else {
            cli_commands(self.builders@)
        }
    }

    /// The kebab-case name of each builder (operation) that can be called
    /// from the CLI, with the builder's index.
    pub fn with_cli_cmd_and_builder(&self) -> (r: Vec<(String, usize)>)
        ensures
            r@.len() == self.spec_cli_commands().len(),
            forall|k: int|
                0 <= k < r@.len() ==> (#[trigger] r@[k]).0@ == self.spec_cli_commands()[k].0 && r@[k].1
                    as int == self.spec_cli_commands()[k].1,
            forall|k: int| 0 <= k < r@.len() ==> (#[trigger] r@[k]).1 < self.builders@.len(),
    {
        let mut r: Vec<(String, usize)> = Vec::new();
        // Ignore objects without any operations (all objects have a default builder).
        if self.builders.len() < 2 {
            return r;
        }
        let mut i: usize = 0;
        assert(self.builders@.take(0) =~= Seq::<ApiObjectBuilder>::empty());
        while i < self.builders.len()
            invariant
                i <= self.builders@.len(),
                self.builders@.len() >= 2,
                r@.len() == cli_commands(self.builders@.take(i as int)).len(),
                forall|k: int|
                    0 <= k < r@.len() ==> (#[trigger] r@[k]).0@ == cli_commands(self.builders@.take(i as int))[k].0
                        && r@[k].1 as int == cli_commands(self.builders@.take(i as int))[k].1,
                forall|k: int| 0 <= k < r@.len() ==> (#[trigger] r@[k]).1 < i,
            decreases self.builders.len() - i,
        {
            assert(self.builders@.take(i + 1).drop_last() =~= self.builders@.take(i as int));
            assert(self.builders@.take(i + 1).last() == self.builders@[i as int]);
            match self.builders[i].op_id {
                Some(n) => {
                    r.push((to_kebab_case(n), i));
                },
                None => {},
            }
            i = i + 1;
        }
        assert(self.builders@.take(self.builders@.len() as int) =~= self.builders@);
        r
    }
}

/// Whether some entry is a parameter.
pub open spec fn has_parameter(es: Seq<FieldView>) -> bool {
    exists|k: int| 0 <= k < es.len() && (#[trigger] es[k]).prop.spec_is_parameter()
}

/// The clap argument for a parameter.
pub open spec fn clap_arg(e: FieldView) -> Seq<char> {
    let k = kebab_case_of(e.name);
    "\n        - "@ + k + ":"@ + "\n            long: "@ + k + (if e.prop.spec_is_required() {
        "\n            required: true"@
    } else {
        Seq::empty()
    }) + (match e.desc {
        Some(d) => "\n            help: "@ + debug_text_of(d),
        None => Seq::empty(),
    }) + "\n            takes_value: true"@
}

/// The clap arguments for the parameters among the entries.
pub open spec fn clap_args(es: Seq<FieldView>) -> Seq<char>
    decreases es.len(),
{
    if es.len() == 0 {
        Seq::empty()
    } else {
        clap_args(es.drop_last()) + if es.last().prop.spec_is_parameter() {
            clap_arg(es.last())
        } else {
            Seq::empty()
        }
    }
}

/// The clap subcommand for one builder.
pub open spec fn clap_command(name: Seq<char>, b: ApiObjectBuilder, obj: Seq<char>) -> Seq<char> {
    let es = b.spec_struct_fields();
    "\n  - "@ + name + ":"@ + (match b.description {
        Some(d) => "\n      about: "@ + debug_text_of(d@),
        None => Seq::empty(),
    }) + (if has_parameter(es) || b.body_required {
        "\n      args:"@ + if b.body_required {
            "\n        - payload:\n            long: payload\n            help: \"Path to payload (schema: "@
                + obj
                + ") or pass '-' for stdin\"\n            takes_value: true\n            required: true"@
        } else {
            Seq::empty()
        }
    } else {
        Seq::empty()
    }) + clap_args(es)
}

/// The clap subcommands for the given commands.
pub open spec fn clap_commands(cmds: Seq<(Seq<char>, int)>, bs: Seq<ApiObjectBuilder>, obj: Seq<char>) -> Seq<char>
    decreases cmds.len(),
{
    if cmds.len() == 0 {
        Seq::empty()
    } else {
        clap_commands(cmds.drop_last(), bs, obj) + clap_command(cmds.last().0, bs[cmds.last().1], obj)
    }
}

/// The match arm for one command.
pub open spec fn match_arm(name: Seq<char>, b: ApiObjectBuilder, path: Seq<char>) -> Seq<char> {
    "\n        \""@ + name + "\" =>\n            Ok("@ + b.helper_module_prefix@ + path + "::"@
        + b.spec_name() + "::from_args(sub_matches)?.send_raw(client)),"@
}

/// The match arms for the given commands.
pub open spec fn match_arms(cmds: Seq<(Seq<char>, int)>, bs: Seq<ApiObjectBuilder>, path: Seq<char>) -> Seq<char>
    decreases cmds.len(),
{
    if cmds.len() == 0 {
        Seq::empty()
    } else {
        match_arms(cmds.drop_last(), bs, path) + match_arm(cmds.last().0, bs[cmds.last().1], path)
    }
}

/// Writes the clap arguments for the parameters among `fields`.
#[verifier::spinoff_prover]
#[verifier::rlimit(40)]
fn write_clap_args(fields: &Vec<StructField>, f: &mut String)
    ensures
        final(f)@ == old(f)@ + clap_args(field_views(fields@)),
{
    let ghost views = field_views(fields@);
    let mut i: usize = 0;
    assert(views.take(0) =~= Seq::<FieldView>::empty());
    while i < fields.len()
        invariant
            i <= fields@.len(),
            views == field_views(fields@),
            f@ == old(f)@ + clap_args(views.take(i as int)),
        decreases fields.len() - i,
    {
        let field = fields[i];
        assert(views.take(i + 1).drop_last() =~= views.take(i as int));
        assert(views.take(i + 1).last() == field@);
        let ghost before = f@;
        if field.prop.is_parameter() {
            let field_name = to_kebab_case(field.name);
            push_str(f, "\n        - ");
            push_str(f, field_name.as_str());
            push_str(f, ":");
            push_str(f, "\n            long: ");
            push_str(f, field_name.as_str());
            if field.prop.is_required() {
                push_str(f, "\n            required: true");
            }
            let ghost mid = f@;
            if let Some(desc) = field.desc {
                push_str(f, "\n            help: ");
                let d = debug_text(desc);
                push_str(f, d.as_str());
            }
            let ghost mid2 = f@;
            push_str(f, "\n            takes_value: true");
            assert(f@ =~= before + clap_arg(field@));
        }
        assert(f@ =~= old(f)@ + clap_args(views.take(i + 1)));
        i = i + 1;
    }
    assert(views.take(fields@.len() as int) =~= views);
}

/// Whether some entry is a parameter.
fn any_parameter(fields: &Vec<StructField>) -> (r: bool)
    ensures
        r == has_parameter(field_views(fields@)),
{
    let ghost views = field_views(fields@);
    let mut i: usize = 0;
    while i < fields.len()
        invariant
            i <= fields@.len(),
            views == field_views(fields@),
            forall|k: int| 0 <= k < i ==> !(#[trigger] views[k]).prop.spec_is_parameter(),
        decreases fields.len() - i,
    {
        assert(views[i as int].prop == fields@[i as int].prop);
        if fields[i].prop.is_parameter() {
            return true;
        }
        i = i + 1;
    }
    false
}

/// Writes the clap subcommand for one builder.
#[verifier::spinoff_prover]
#[verifier::rlimit(40)]
fn write_clap_command(name: &str, builder: &ApiObjectBuilder, obj: &str, f: &mut String)
    ensures
        final(f)@ == old(f)@ + clap_command(name@, *builder, obj@),
{
    let ghost before = f@;
    push_str(f, "\n  - ");
    push_str(f, name);
    push_str(f, ":");
    if let Some(desc) = builder.description {
        push_str(f, "\n      about: ");
        let d = debug_text(desc);
        push_str(f, d.as_str());
    }
    let ghost after_about = f@;
    let fields = builder.struct_fields_iter();
    // Has at least one argument or body.
    if any_parameter(&fields) || builder.body_required {
        push_str(f, "\n      args:");
        if builder.body_required {
            push_str(
                f,
                "\n        - payload:\n            long: payload\n            help: \"Path to payload (schema: ",
            );
            push_str(f, obj);
            push_str(
                f,
                ") or pass '-' for stdin\"\n            takes_value: true\n            required: true",
            );
        }
    }
    let ghost after_args = f@;
    write_clap_args(&fields, f);
    assert(f@ =~= old(f)@ + clap_command(name@, *builder, obj@));
}

impl<'a> ApiObjectImpl<'a> {
    /// The clap YAML written for this object.
    pub open spec fn spec_clap_yaml(self) -> Seq<char> {
        clap_commands(self.spec_cli_commands(), self.builders@, self.inner.name@) + "\n"@
    }

    /// Writes the required "clap" subcommand for this object in YAML.
    #[verifier::spinoff_prover]
    #[verifier::rlimit(40)]
    pub fn write_clap_yaml(&self, f: &mut String)
        ensures
            final(f)@ == old(f)@ + self.spec_clap_yaml(),
    {
        let cmds = self.with_cli_cmd_and_builder();
        let ghost spec_cmds = self.spec_cli_commands();
        let mut i: usize = 0;
        assert(spec_cmds.take(0) =~= Seq::<(Seq<char>, int)>::empty());
        while i < cmds.len()
            invariant
                i <= cmds@.len(),
                spec_cmds == self.spec_cli_commands(),
                cmds@.len() == spec_cmds.len(),
                forall|k: int|
                    0 <= k < cmds@.len() ==> (#[trigger] cmds@[k]).0@ == spec_cmds[k].0 && cmds@[k].1 as int
                        == spec_cmds[k].1,
                forall|k: int| 0 <= k < cmds@.len() ==> (#[trigger] cmds@[k]).1 < self.builders@.len(),
                f@ == old(f)@ + clap_commands(spec_cmds.take(i as int), self.builders@, self.inner.name@),
            decreases cmds.len() - i,
        {
            let name = &cmds[i].0;
            let builder = &self.builders[cmds[i].1];
            assert(cmds@[i as int].0@ == spec_cmds[i as int].0);
            assert(spec_cmds.take(i + 1).drop_last() =~= spec_cmds.take(i as int));
            assert(spec_cmds.take(i + 1).last() == spec_cmds[i as int]);
            let ghost before = f@;
            write_clap_command(name.as_str(), builder, self.inner.name.as_str(), f);
            assert(f@ =~= before + clap_command(spec_cmds[i as int].0, *builder, self.inner.name@));
            i = i + 1;
        }
        assert(spec_cmds.take(cmds@.len() as int) =~= spec_cmds);
        push_str(f, "\n");
    }

    /// The match arms written for this object's operations.
    pub open spec fn spec_arg_match_arms(self) -> Seq<char> {
        match_arms(self.spec_cli_commands(), self.builders@, self.inner.path@)
    }

    /// Writes the match arms associated with this object's operations.
    #[verifier::spinoff_prover]
    #[verifier::rlimit(40)]
    pub fn write_arg_match_arms(&self, f: &mut String)
        ensures
            final(f)@ == old(f)@ + self.spec_arg_match_arms(),
    {
        let cmds = self.with_cli_cmd_and_builder();
        let ghost spec_cmds = self.spec_cli_commands();
        let mut i: usize = 0;
        assert(spec_cmds.take(0) =~= Seq::<(Seq<char>, int)>::empty());
        while i < cmds.len()
            invariant
                i <= cmds@.len(),
                spec_cmds == self.spec_cli_commands(),
                cmds@.len() == spec_cmds.len(),
                forall|k: int|
                    0 <= k < cmds@.len() ==> (#[trigger] cmds@[k]).0@ == spec_cmds[k].0 && cmds@[k].1 as int
                        == spec_cmds[k].1,
                forall|k: int| 0 <= k < cmds@.len() ==> (#[trigger] cmds@[k]).1 < self.builders@.len(),
                f@ == old(f)@ + match_arms(spec_cmds.take(i as int), self.builders@, self.inner.path@),
            decreases cmds.len() - i,
        {
            let name = &cmds[i].0;
            let builder = &self.builders[cmds[i].1];
            assert(cmds@[i as int].0@ == spec_cmds[i as int].0);
            assert(spec_cmds.take(i + 1).drop_last() =~= spec_cmds.take(i as int));
            assert(spec_cmds.take(i + 1).last() == spec_cmds[i as int]);
            let ghost before = f@;
            push_str(f, "\n        \"");
            push_str(f, name.as_str());
            push_str(f, "\" =>\n            Ok(");
            push_str(f, builder.helper_module_prefix);
            push_str(f, self.inner.path.as_str());
            push_str(f, "::");
            let ghost mid = f@;
            builder.write_name(f);
            push_str(f, "::from_args(sub_matches)?.send_raw(client)),");
            assert(f@ =~= before + match_arm(spec_cmds[i as int].0, *builder, self.inner.path@));
            i = i + 1;
        }
        assert(spec_cmds.take(cmds@.len() as int) =~= spec_cmds);
    }
}


/* ---------------------------------------------------------------------- */
/* Builder constructors and `Into` impls                                  */
/* ---------------------------------------------------------------------- */

/// The initialiser of one entry in a builder constructor.
pub open spec fn field_init(e: FieldView, needs_container: bool) -> Seq<char> {
    if e.prop.spec_is_required() {
        "\n            "@ + (if e.prop.spec_is_parameter() {
            "_param"@
        } else {
            Seq::empty()
        }) + "_"@ + snake_case_of(e.name) + ": core::marker::PhantomData,"@
    } else if e.prop.spec_is_parameter() && !needs_container {
        // If we have a container, then we store parameters inside that.
        "\n            param_"@ + snake_case_of(e.name) + ": None,"@
    } else {
        Seq::empty()
    }
}

/// The initialisers of all entries.
pub open spec fn field_inits(es: Seq<FieldView>, needs_container: bool) -> Seq<char>
    decreases es.len(),
{
    if es.len() == 0 {
        Seq::empty()
    } else {
        field_inits(es.drop_last(), needs_container) + field_init(es.last(), needs_container)
    }
}

/// The docs and the head of the constructor function for one builder.
pub open spec fn method_head(b: ApiObjectBuilder) -> Seq<char> {
    (match b.spec_con_fn_name() {
        Some(_) => docs_text(opt_str_view(b.description), 1),
        None => "\n    /// Create a builder for this object."@,
    }) + (if b.description is None {
        "\n"@
    } else {
        Seq::empty()
    }) + "    #[inline]\n    pub fn "@ + (match b.spec_con_fn_name() {
        Some(n) => n,
        None => "builder"@,
    })
}

/// The signature of the constructor function (after its name).
pub open spec fn method_sig(b: ApiObjectBuilder) -> Seq<char> {
    "() -> "@ + b.spec_name() + b.spec_generics(ParamsMode::ReplaceAll) + " {\n        "@ + b.spec_name()
}

/// The body of the constructor function.
pub open spec fn method_body(b: ApiObjectBuilder) -> Seq<char> {
    let opens = b.spec_has_atleast_one_field() || b.body_required;
    let nc = b.spec_needs_container();
    (if opens {
        " {"@
    } else {
        Seq::empty()
    }) + (if nc {
        "\n            "@ + "inner: Default::default(),"@
    } else if b.body_required {
        "\n            "@ + "body: Default::default(),"@
    } else {
        Seq::empty()
    }) + field_inits(b.spec_struct_fields(), nc) + (if opens {
        "\n        }"@
    } else {
        Seq::empty()
    }) + "\n    }\n"@
}

/// The constructor function written for one builder.
pub open spec fn builder_method(b: ApiObjectBuilder) -> Seq<char> {
    method_head(b) + method_sig(b) + method_body(b)
}

/// The constructor functions of all builders.
pub open spec fn builder_methods(bs: Seq<ApiObjectBuilder>) -> Seq<char>
    decreases bs.len(),
{
    if bs.len() == 0 {
        Seq::empty()
    } else {
        builder_methods(bs.drop_last()) + builder_method(bs.last())
    }
}

/// The `Into` impl written for a builder (only when it has a body).
pub open spec fn into_impl(b: ApiObjectBuilder, obj: Seq<char>) -> Seq<char> {
    if !b.body_required {
        Seq::empty()
    } else {
        "\nimpl Into<"@ + obj + "> for "@ + b.spec_name() + b.spec_generics(ParamsMode::ChangeAll)
            + " {\n    fn into(self) -> "@ + obj + " {\n        self."@ + (if b.spec_needs_container() {
            "inner."@
        } else {
            Seq::empty()
        }) + "body\n    }\n}\n"@
    }
}

/// The `Into` impls of all builders.
pub open spec fn into_impls(bs: Seq<ApiObjectBuilder>, obj: Seq<char>) -> Seq<char>
    decreases bs.len(),
{
    if bs.len() == 0 {
        Seq::empty()
    } else {
        into_impls(bs.drop_last(), obj) + into_impl(bs.last(), obj)
    }
}

/// Writes the initialisers of all entries.
#[verifier::spinoff_prover]
#[verifier::rlimit(40)]
fn write_field_inits(fields: &Vec<StructField>, needs_container: bool, f: &mut String)
    ensures
        final(f)@ == old(f)@ + field_inits(field_views(fields@), needs_container),
{
    let ghost views = field_views(fields@);
    let mut i: usize = 0;
    assert(views.take(0) =~= Seq::<FieldView>::empty());
    while i < fields.len()
        invariant
            i <= fields@.len(),
            views == field_views(fields@),
            f@ == old(f)@ + field_inits(views.take(i as int), needs_container),
        decreases fields.len() - i,
    {
        let field = fields[i];
        assert(views.take(i + 1).drop_last() =~= views.take(i as int));
        assert(views.take(i + 1).last() == field@);
        let ghost before = f@;
        if field.prop.is_required() {
            push_str(f, "\n            ");
            if field.prop.is_parameter() {
                push_str(f, "_param");
            }
            push_str(f, "_");
            let sk = to_snake_case(field.name);
            push_str(f, sk.as_str());
            push_str(f, ": core::marker::PhantomData,");
        } else if field.prop.is_parameter() && !needs_container {
            push_str(f, "\n            param_");
            let sk = to_snake_case(field.name);
            push_str(f, sk.as_str());
            push_str(f, ": None,");
        }
        assert(f@ =~= before + field_init(field@, needs_container));
        i = i + 1;
    }
    assert(views.take(fields@.len() as int) =~= views);
}

/// Whether the constructor function of a builder has doc text: it has a
/// name of its own and the builder a description.
pub open spec fn method_has_docs(b: ApiObjectBuilder) -> bool {
    b.spec_con_fn_name() is Some && b.description is Some
}

/// Whether the constructor functions of some builder have doc text.
pub open spec fn methods_have_docs(bs: Seq<ApiObjectBuilder>) -> bool {
    exists|i: int| 0 <= i < bs.len() && method_has_docs(#[trigger] bs[i])
}

/// Whether the setters of a builder have doc text: a field that gets a
/// setter has a description.
pub open spec fn setters_have_docs(b: ApiObjectBuilder) -> bool {
    exists|i: int|
        0 <= i < b.spec_struct_fields().len() && gets_setter(b, #[trigger] b.spec_struct_fields()[i])
            && b.spec_struct_fields()[i].desc is Some
}

/// Writes the docs and the head of the constructor function.
#[verifier::spinoff_prover]
#[verifier::rlimit(40)]
fn write_method_head(builder: &ApiObjectBuilder, f: &mut String) -> (r: Result<(), WriteError>)
    ensures
        r is Err ==> !doc_regex_ok(),
        doc_regex_ok() || !method_has_docs(*builder) ==> r is Ok,
        r is Ok ==> final(f)@ == old(f)@ + method_head(*builder),
{
    let mut temp = String::new();
    if builder.description.is_none() {
        push_str(&mut temp, "\n");
    }
    // All builder constructor functions are inlined.
    push_str(&mut temp, "    #[inline]\n    pub fn ");
    let con = builder.con_fn_name();
    match con {
        Some(name) => {
            push_str(&mut temp, name.as_str());
            let res = ApiObject::write_docs(builder.description, f, 1);
            if res.is_err() {
                return Err(WriteError);
            }
        },
        None => {
            // If we can't generate a name of a builder, then we go for a
            // simple object builder.
            push_str(f, "\n    /// Create a builder for this object.");
            push_str(&mut temp, "builder");
        },
    }
    // Now that we've written the docs, we can write the actual method signature.
    push_str(f, temp.as_str());
    assert(f@ =~= old(f)@ + method_head(*builder));
    Ok(())
}

/// Writes the body of the constructor function.
#[verifier::spinoff_prover]
#[verifier::rlimit(40)]
fn write_method_body(builder: &ApiObjectBuilder, f: &mut String)
    ensures
        final(f)@ == old(f)@ + method_body(*builder),
{
    let has_fields = builder.has_atleast_one_field();
    if has_fields || builder.body_required {
        push_str(f, " {");
    }
    let needs_container = builder.needs_container();
    if needs_container {
        push_str(f, "\n            ");
        push_str(f, "inner: Default::default(),");
    } else if builder.body_required {
        push_str(f, "\n            ");
        push_str(f, "body: Default::default(),");
    }
    let ghost before_inits = f@;
    let fields = builder.struct_fields_iter();
    write_field_inits(&fields, needs_container, f);
    let ghost after_inits = f@;
    if has_fields || builder.body_required {
        push_str(f, "\n        }");
    }
    push_str(f, "\n    }\n");
    assert(f@ =~= old(f)@ + method_body(*builder));
}

/// Writes the constructor function for one builder.
#[verifier::spinoff_prover]
#[verifier::rlimit(40)]
fn write_builder_method(builder: &ApiObjectBuilder, f: &mut String) -> (r: Result<(), WriteError>)
    ensures
        r is Err ==> !doc_regex_ok(),
        doc_regex_ok() || !method_has_docs(*builder) ==> r is Ok,
        r is Ok ==> final(f)@ == old(f)@ + builder_method(*builder),
{
    let res = write_method_head(builder, f);
    if res.is_err() {
        return Err(WriteError);
    }
    let ghost after_head = f@;
    push_str(f, "() -> ");
    builder.write_name(f);
    builder.write_generics_if_necessary(f, TypeParameters::ReplaceAll);
    push_str(f, " {\n        ");
    builder.write_name(f);
    assert(f@ =~= after_head + method_sig(*builder));
    let ghost after_sig = f@;
    write_method_body(builder, f);
    assert(f@ =~= old(f)@ + builder_method(*builder));
    Ok(())
}

/// Writes the `Into` impl for one builder.
#[verifier::spinoff_prover]
#[verifier::rlimit(40)]
fn write_into_impl_of(builder: &ApiObjectBuilder, obj: &str, f: &mut String)
    ensures
        final(f)@ == old(f)@ + into_impl(*builder, obj@),
{
    if !builder.body_required {
        assert(f@ =~= old(f)@ + into_impl(*builder, obj@));
        return;
    }
    let needs_container = builder.needs_container();
    push_str(f, "\nimpl Into<");
    push_str(f, obj);
    push_str(f, "> for ");
    builder.write_name(f);
    builder.write_generics_if_necessary(f, TypeParameters::ChangeAll);
    push_str(f, " {\n    fn into(self) -> ");
    push_str(f, obj);
    push_str(f, " {\n        self.");
    if needs_container {
        push_str(f, "inner.");
    }
    push_str(f, "body\n    }\n}\n");
    assert(f@ =~= old(f)@ + into_impl(*builder, obj@));
}

impl<'a> ApiObjectImpl<'a> {
    /// The constructor functions written for this object's builders.
    pub open spec fn spec_builder_methods(self) -> Seq<char> {
        builder_methods(self.builders@)
    }

    /// Writes the associated function for this object for instantiating builders.
    #[verifier::spinoff_prover]
    #[verifier::rlimit(40)]
    pub fn write_builder_methods(&self, f: &mut String) -> (r: Result<(), WriteError>)
        ensures
            r is Err ==> !doc_regex_ok(),
            doc_regex_ok() || !methods_have_docs(self.builders@) ==> r is Ok,
            r is Ok ==> final(f)@ == old(f)@ + self.spec_builder_methods(),
    {
        let mut i: usize = 0;
        assert(self.builders@.take(0) =~= Seq::<ApiObjectBuilder>::empty());
        while i < self.builders.len()
            invariant
                i <= self.builders@.len(),
                f@ == old(f)@ + builder_methods(self.builders@.take(i as int)),
            decreases self.builders.len() - i,
        {
            assert(self.builders@.take(i + 1).drop_last() =~= self.builders@.take(i as int));
            assert(self.builders@.take(i + 1).last() == self.builders@[i as int]);
            let res = write_builder_method(&self.builders[i], f);
            if res.is_err() {
                assert(method_has_docs(self.builders@[i as int]));
                return Err(WriteError);
            }
            i = i + 1;
        }
        assert(self.builders@.take(self.builders@.len() as int) =~= self.builders@);
        Ok(())
    }

    /// Writes the `Into` impl for fulfilled builders (if they have a body).
    #[verifier::spinoff_prover]
    #[verifier::rlimit(40)]
    pub fn write_into_impl(&self, builder: &ApiObjectBuilder, f: &mut String)
        ensures
            final(f)@ == old(f)@ + into_impl(*builder, self.inner.name@),
    {
        write_into_impl_of(builder, self.inner.name.as_str(), f);
    }

    /// The impl text written for this object (nothing when it has no builders).
    pub open spec fn spec_impl_text(self) -> Seq<char> {
        if self.builders@.len() == 0 {
            Seq::empty()
        } else {
            "impl "@ + self.inner.name@ + " {"@ + builder_methods(self.builders@) + "}\n"@ + into_impls(
                self.builders@,
                self.inner.name@,
            )
        }
    }

    /// Writes the impl block of this object followed by the `Into` impls of
    /// its builders.
    #[verifier::spinoff_prover]
    #[verifier::rlimit(40)]
    pub fn fmt(&self, f: &mut String) -> (r: Result<(), WriteError>)
        ensures
            r is Err ==> !doc_regex_ok(),
            doc_regex_ok() || !methods_have_docs(self.builders@) ==> r is Ok,
            r is Ok ==> final(f)@ == old(f)@ + self.spec_impl_text(),
    {
        if self.builders.len() == 0 {
            assert(f@ =~= old(f)@ + self.spec_impl_text());
            return Ok(());
        }
        push_str(f, "impl ");
        push_str(f, self.inner.name.as_str());
        push_str(f, " {");
        let res = self.write_builder_methods(f);
        if res.is_err() {
            return Err(WriteError);
        }
        push_str(f, "}\n");
        let ghost start = f@;
        let mut i: usize = 0;
        assert(self.builders@.take(0) =~= Seq::<ApiObjectBuilder>::empty());
        while i < self.builders.len()
            invariant
                i <= self.builders@.len(),
                f@ == start + into_impls(self.builders@.take(i as int), self.inner.name@),
            decreases self.builders.len() - i,
        {
            assert(self.builders@.take(i + 1).drop_last() =~= self.builders@.take(i as int));
            assert(self.builders@.take(i + 1).last() == self.builders@[i as int]);
            self.write_into_impl(&self.builders[i], f);
            i = i + 1;
        }
        assert(self.builders@.take(self.builders@.len() as int) =~= self.builders@);
        assert(f@ =~= old(f)@ + self.spec_impl_text());
        Ok(())
    }
}


/* ---------------------------------------------------------------------- */
/* Builder methods: parameter types and value conversions                 */
/* ---------------------------------------------------------------------- */

/// Whether the part of a type path before its first `<` ends with `Vec`.
pub open spec fn vec_prefix(ty: Seq<char>, i: int) -> bool {
    ends_with(ty.take(i), "Vec"@)
}

/// Whether the part of a type path before its first `<` ends with the
/// path of `BTreeMap`.
pub open spec fn map_prefix(ty: Seq<char>, i: int) -> bool {
    ends_with(ty.take(i), "std::collections::BTreeMap"@)
}

/// The type paths for which the type rewriting of builder methods does not
/// fail on a slice bound: a `Vec<..>` has an (ASCII) last character and room
/// for the element type; a `BTreeMap<..>` has room for its `String, `
/// key prefix (ASCII characters) and an ASCII last character; their element
/// types are well formed too.
pub open spec fn ty_path_ok(ty: Seq<char>) -> bool
    decreases ty.len(),
{
    match find_char(ty, '<') {
        Some(i) => if 0 <= i < ty.len() {
            if vec_prefix(ty, i) {
                ty.len() >= i + 2 && is_ascii_char(ty.last()) && ty_path_ok(ty.subrange(i + 1, ty.len() - 1))
            } else if map_prefix(ty, i) {
                &&& ty.len() >= i + 10
                &&& forall|k: int| i < k < i + 9 ==> is_ascii_char(#[trigger] ty[k])
                &&& is_ascii_char(ty.last())
                &&& ty_path_ok(ty.subrange(i + 9, ty.len() - 1))
            } else {
                true
            }
        } else {
            true
        },
        None => true,
    }
}

/// One `{Name}Exists` type argument.
pub open spec fn exists_item(n: Seq<char>, prefix: Seq<char>) -> Seq<char> {
    prefix + "generics::"@ + camel_case_of(n) + "Exists"@
}

/// The `{Name}Exists` type arguments separated by `", "`.
pub open spec fn exists_items(req: Seq<Seq<char>>, prefix: Seq<char>) -> Seq<char>
    decreases req.len(),
{
    if req.len() == 0 {
        Seq::empty()
    } else if req.len() == 1 {
        exists_item(req[0], prefix)
    } else {
        exists_items(req.drop_last(), prefix) + ", "@ + exists_item(req.last(), prefix)
    }
}

/// The parameter type of a builder method for a field of type `ty`: a
/// `Vec<T>` becomes `impl Iterator<Item = ..>`, a `BTreeMap<String, T>`
/// becomes `impl Iterator<Item = (String, ..)>` (recursively), a simple type
/// `impl Into<T>`, and a path type is kept, as a builder when the deepest
/// child type has requirements.
pub open spec fn builder_ty_text(ty: Seq<char>, req: Seq<Seq<char>>, prefix: Seq<char>) -> Seq<char>
    decreases ty.len(),
{
    match find_char(ty, '<') {
        Some(i) => if 0 <= i < ty.len() {
            if vec_prefix(ty, i) {
                if ty.len() >= i + 2 {
                    "impl Iterator<Item = "@ + builder_ty_text(ty.subrange(i + 1, ty.len() - 1), req, prefix) + ">"@
                } else {
                    Seq::empty()
                }
            } else if map_prefix(ty, i) {
                if ty.len() >= i + 10 {
                    "impl Iterator<Item = (String, "@ + builder_ty_text(ty.subrange(i + 9, ty.len() - 1), req, prefix)
                        + ")>"@
                } else {
                    Seq::empty()
                }
            } else {
                Seq::empty()
            }
        } else {
            Seq::empty()
        },
        None => if !contains_pair(ty, ':', ':') {
            "impl Into<"@ + ty + ">"@
        } else {
            ty + if req.len() > 0 {
                "Builder<"@ + exists_items(req, prefix) + ">"@
            } else {
                Seq::empty()
            }
        },
    }
}

/// The conversion of a builder method's `value` into the field's type:
/// collections are mapped and collected, recursively, and anything else is
/// converted with `into`.
pub open spec fn value_map_text(ty: Seq<char>) -> Seq<char>
    decreases ty.len(),
{
    match find_char(ty, '<') {
        Some(i) => if 0 <= i < ty.len() {
            if vec_prefix(ty, i) {
                if ty.len() >= i + 2 {
                    "value.map(|value| "@ + value_map_text(ty.subrange(i + 1, ty.len() - 1)) + ").collect::<Vec<_>>()"@
                } else {
                    Seq::empty()
                }
            } else if map_prefix(ty, i) {
                if ty.len() >= i + 10 {
                    "value.map(|(key, value)| (key, "@ + value_map_text(ty.subrange(i + 9, ty.len() - 1))
                        + ")).collect::<std::collections::BTreeMap<_, _>>()"@
                } else {
                    Seq::empty()
                }
            } else {
                Seq::empty()
            }
        } else {
            Seq::empty()
        },
        None => "value.into()"@,
    }
}

/// Tests `ty_path_ok`.
pub fn ty_path_is_ok(ty: &str) -> (b: bool)
    ensures
        b == ty_path_ok(ty@),
    decreases ty@.len(),
{
    let v = chars_of(ty);
    proof {
        lemma_find_char_found(v@, '<');
    }
    match find(&v, '<') {
        Some(i) => {
            if prefix_ends_with(&v, i, "Vec") {
                if v.len() - i < 2 || !ascii_char(v[v.len() - 1]) {
                    return false;
                }
                let inner = string_of_range(&v, i + 1, v.len() - 1);
                ty_path_is_ok(inner.as_str())
            } else if prefix_ends_with(&v, i, "std::collections::BTreeMap") {
                if v.len() - i < 10 || !ascii_char(v[v.len() - 1]) {
                    return false;
                }
                let mut k: usize = i + 1;
                while k - i < 9
                    invariant
                        i + 10 <= v@.len(),
                        v@ == ty@,
                        find_char(v@, '<') == Some(i as int),
                        !vec_prefix(v@, i as int),
                        map_prefix(v@, i as int),
                        i + 1 <= k <= i + 9,
                        k <= v@.len(),
                        forall|j: int| i < j < k ==> is_ascii_char(#[trigger] v@[j]),
                    decreases i + 9 - k,
                {
                    if !ascii_char(v[k]) {
                        assert(!is_ascii_char(v@[k as int]));
                        return false;
                    }
                    assert(v@.len() == v.len());
                    k = k + 1;
                }
                let inner = string_of_range(&v, i + 9, v.len() - 1);
                ty_path_is_ok(inner.as_str())
            } else {
                true
            }
        },
        None => true,
    }
}

/// A builder together with the impl blocks written for it.
pub struct ApiObjectBuilderImpl<'a, 'b>(pub &'a ApiObjectBuilder<'b>);

impl<'b> ApiObjectBuilder<'b> {
    /// Returns a struct representing the impl for this builder.
    pub fn impl_repr(&self) -> (r: ApiObjectBuilderImpl<'_, 'b>)
        ensures
            *r.0 == *self,
    {
        ApiObjectBuilderImpl(self)
    }
}

/// Writes the `{Name}Exists` type arguments.
#[verifier::spinoff_prover]
#[verifier::rlimit(40)]
fn write_exists_items(req: &[String], prefix: &str, f: &mut String)
    ensures
        final(f)@ == old(f)@ + exists_items(req@.map_values(|s: String| s@), prefix@),
{
    let ghost names = req@.map_values(|s: String| s@);
    let mut i: usize = 0;
    assert(names.take(0) =~= Seq::<Seq<char>>::empty());
    while i < req.len()
        invariant
            i <= req@.len(),
            names == req@.map_values(|s: String| s@),
            f@ == old(f)@ + exists_items(names.take(i as int), prefix@),
        decreases req.len() - i,
    {
        assert(names.take(i + 1).drop_last() =~= names.take(i as int));
        assert(names.take(i + 1).last() == req@[i as int]@);
        if i > 0 {
            push_str(f, ", ");
        }
        let ghost mid = f@;
        push_str(f, prefix);
        push_str(f, "generics::");
        let cc = to_camel_case(req[i].as_str());
        push_str(f, cc.as_str());
        push_str(f, "Exists");
        proof {
            if i == 0 {
                assert(names.take(1)[0] == req@[0]@);
            }
        }
        assert(f@ =~= old(f)@ + exists_items(names.take(i + 1), prefix@));
        i = i + 1;
    }
    assert(names.take(req@.len() as int) =~= names);
}

impl<'a, 'b> ApiObjectBuilderImpl<'a, 'b> {
    /// Builds the method parameter type using the actual field type.
    ///
    /// For example, if a field is `Vec<T>`, then we replace it (in builder method)
    /// with `impl Iterator<Item=Into<T>>`, and if we had `BTreeMap<String, T>`,
    /// then we replace it with `impl Iterator<Item = (String, T)>` and
    /// we do this... recursively.
    #[verifier::spinoff_prover]
    #[verifier::rlimit(40)]
    pub fn write_builder_ty(&self, ty: &str, req: &[String], f: &mut String)
        requires
            ty_path_ok(ty@),
        ensures
            final(f)@ == old(f)@ + builder_ty_text(ty@, req@.map_values(|s: String| s@), self.0.helper_module_prefix@),
        decreases ty@.len(),
    {
        let ghost reqv = req@.map_values(|s: String| s@);
        let ghost prefix = self.0.helper_module_prefix@;
        let v = chars_of(ty);
        let simple_type = !has_pair(&v, ':', ':');
        proof {
            lemma_find_char_found(v@, '<');
        }
        match find(&v, '<') {
            Some(i) => {
                if prefix_ends_with(&v, i, "Vec") {
                    assert(v@.len() == v.len());
                    assert(v@.len() >= i + 2);
                    push_str(f, "impl Iterator<Item = ");
                    let inner = string_of_range(&v, i + 1, v.len() - 1);
                    self.write_builder_ty(inner.as_str(), req, f);
                    push_str(f, ">");
                } else if prefix_ends_with(&v, i, "std::collections::BTreeMap") {
                    assert(v@.len() == v.len());
                    assert(v@.len() >= i + 10);
                    push_str(f, "impl Iterator<Item = (String, ");
                    let inner = string_of_range(&v, i + 9, v.len() - 1);
                    self.write_builder_ty(inner.as_str(), req, f);
                    push_str(f, ")>");
                }
            },
            None => {
                if simple_type {
                    push_str(f, "impl Into<");
                    push_str(f, ty);
                    push_str(f, ">");
                } else {
                    push_str(f, ty);
                    if req.len() > 0 {
                        push_str(f, "Builder<");
                        write_exists_items(req, self.0.helper_module_prefix, f);
                        push_str(f, ">");
                    }
                }
            },
        }
        assert(f@ =~= old(f)@ + builder_ty_text(ty@, reqv, prefix));
    }

    /// Builds the value conversion block using the actual field type.
    ///
    /// Once we get the value from a builder method (whose type is
    /// generated by `Self::write_builder_ty`), we need to convert it
    /// appropriately. So, whenever we encounter collections, we recursively
    /// collect the iterator items and if it's not a collection, we go for
    /// `value.into()`.
    #[verifier::spinoff_prover]
    #[verifier::rlimit(40)]
    pub fn write_value_map(ty: &str, f: &mut String)
        requires
            ty_path_ok(ty@),
        ensures
            final(f)@ == old(f)@ + value_map_text(ty@),
        decreases ty@.len(),
    {
        let v = chars_of(ty);
        proof {
            lemma_find_char_found(v@, '<');
        }
        match find(&v, '<') {
            Some(i) => {
                if prefix_ends_with(&v, i, "Vec") {
                    assert(v@.len() == v.len());
                    assert(v@.len() >= i + 2);
                    push_str(f, "value.map(|value| ");
                    let inner = string_of_range(&v, i + 1, v.len() - 1);
                    Self::write_value_map(inner.as_str(), f);
                    push_str(f, ").collect::<Vec<_>>()");
                } else if prefix_ends_with(&v, i, "std::collections::BTreeMap") {
                    assert(v@.len() == v.len());
                    assert(v@.len() >= i + 10);
                    push_str(f, "value.map(|(key, value)| (key, ");
                    let inner = string_of_range(&v, i + 9, v.len() - 1);
                    Self::write_value_map(inner.as_str(), f);
                    push_str(f, ")).collect::<std::collections::BTreeMap<_, _>>()");
                }
            },
            None => {
                push_str(f, "value.into()");
            },
        }
        assert(f@ =~= old(f)@ + value_map_text(ty@));
    }
}


/* ---------------------------------------------------------------------- */
/* Builder methods: property setters                                      */
/* ---------------------------------------------------------------------- */

/// The Rust name of an entry's setter (snake-cased).
pub open spec fn setter_name(e: FieldView) -> Seq<char> {
    snake_case_of(e.name)
}

/// Whether the assigned field needs a trailing `_` (a body field whose name
/// is a keyword).
pub open spec fn needs_trailing_dash(e: FieldView) -> bool {
    e.prop.spec_is_field() && is_rust_keyword(setter_name(e))
}

/// The docs and signature of a setter.
#[verifier::opaque]
pub open spec fn setter_head(b: ApiObjectBuilder, e: FieldView) -> Seq<char> {
    docs_text(e.desc, 1) + "    #[inline]\n    pub fn "@ + (if is_rust_keyword(setter_name(e)) {
        "r#"@
    } else {
        Seq::empty()
    }) + setter_name(e) + "(mut self, value: "@ + builder_ty_text(e.ty, e.strict_children, b.helper_module_prefix@)
        + ") -> "@ + if e.prop.spec_is_required() {
        b.spec_name() + b.spec_generics(ParamsMode::ChangeOne(e.name))
    } else {
        "Self"@
    }
}

/// The assigned place of a setter (after `self.`).
#[verifier::opaque]
pub open spec fn setter_target(b: ApiObjectBuilder, e: FieldView) -> Seq<char> {
    (if b.spec_needs_container() {
        "inner."@
    } else {
        Seq::empty()
    }) + (if e.prop.spec_is_parameter() {
        "param_"@
    } else if b.body_required {
        // If it's not a parameter, then it's definitely a body field.
        "body."@
    } else {
        Seq::empty()
    }) + setter_name(e) + if needs_trailing_dash(e) {
        "_"@
    } else {
        Seq::empty()
    }
}

/// The assigned value of a setter. When a parameter overrides a body field
/// of the same type, the body field is set too.
#[verifier::opaque]
pub open spec fn setter_value(b: ApiObjectBuilder, e: FieldView) -> Seq<char> {
    if e.overridden && b.body_required {
        "{\n            let val = "@ + value_map_text(e.ty) + ";\n            self."@ + (if b.spec_needs_container() {
            "inner."@
        } else {
            Seq::empty()
        }) + "body."@ + setter_name(e) + (if needs_trailing_dash(e) {
            "_"@
        } else {
            Seq::empty()
        }) + " = val.clone().into();"@ + "\n            val\n        }"@
    } else {
        value_map_text(e.ty)
    }
}

/// The setter written for an entry.
pub open spec fn property_method(b: ApiObjectBuilder, e: FieldView) -> Seq<char> {
    let wraps = e.prop.spec_is_parameter() || !e.prop.spec_is_required();
    setter_head(b, e) + " {\n        self."@ + setter_target(b, e) + " = "@ + (if wraps {
        "Some("@
    } else {
        Seq::empty()
    }) + setter_value(b, e) + (if wraps {
        ")"@
    } else {
        Seq::empty()
    }) + ";\n        "@ + (if e.prop.spec_is_required() {
        "unsafe { std::mem::transmute(self) }"@
    } else {
        "self"@
    }) + "\n    }\n"@
}

impl<'a, 'b> ApiObjectBuilderImpl<'a, 'b> {
    /// Writes the docs and signature of a setter.
    #[verifier::spinoff_prover]
    #[verifier::rlimit(30)]
    fn write_setter_head(&self, field: StructField<'b>, f: &mut String) -> (r: Result<(), WriteError>)
        requires
            ty_path_ok(field.ty@),
        ensures
            r is Err ==> !doc_regex_ok(),
            doc_regex_ok() || field.desc is None ==> r is Ok,
            r is Ok ==> final(f)@ == old(f)@ + setter_head(*self.0, field@),
    {
        reveal(setter_head);
        let field_name = to_snake_case(field.name);
        let res = ApiObject::write_docs(field.desc, f, 1);
        if res.is_err() {
            return Err(WriteError);
        }
        let ghost after_docs = f@;
        // Inline property methods.
        push_str(f, "    #[inline]\n    pub fn ");
        if is_keyword(field_name.as_str()) {
            push_str(f, "r#");
        }
        push_str(f, field_name.as_str());
        push_str(f, "(mut self, value: ");
        self.write_builder_ty(field.ty, field.strict_children, f);
        push_str(f, ") -> ");
        let ghost before_ret = f@;
        if field.prop.is_required() {
            self.0.write_name(f);
            self.0.write_generics_if_necessary(f, TypeParameters::ChangeOne(field.name));
        } else {
            push_str(f, "Self");
        }
        assert(f@ =~= old(f)@ + setter_head(*self.0, field@));
        Ok(())
    }

    /// Writes the assigned place of a setter.
    #[verifier::spinoff_prover]
    #[verifier::rlimit(40)]
    fn write_setter_target(&self, field: StructField<'b>, needs_container: bool, f: &mut String)
        requires
            needs_container == self.0.spec_needs_container(),
        ensures
            final(f)@ == old(f)@ + setter_target(*self.0, field@),
    {
        reveal(setter_target);
        let field_name = to_snake_case(field.name);
        if needs_container {
            push_str(f, "inner.");
        }
        if field.prop.is_parameter() {
            push_str(f, "param_");
        } else if self.0.body_required {
            push_str(f, "body.");
        }
        push_str(f, field_name.as_str());
        if field.prop.is_field() && is_keyword(field_name.as_str()) {
            push_str(f, "_");
        }
        assert(f@ =~= old(f)@ + setter_target(*self.0, field@));
    }

    /// Writes the assigned value of a setter.
    #[verifier::spinoff_prover]
    #[verifier::rlimit(40)]
    fn write_setter_value(&self, field: StructField<'b>, needs_container: bool, f: &mut String)
        requires
            ty_path_ok(field.ty@),
            needs_container == self.0.spec_needs_container(),
        ensures
            final(f)@ == old(f)@ + setter_value(*self.0, field@),
    {
        reveal(setter_value);
        if field.overridden && self.0.body_required {
            // If there's a field in the body with similar name and type,
            // then override it with this value.
            let field_name = to_snake_case(field.name);
            push_str(f, "{\n            let val = ");
            Self::write_value_map(field.ty, f);
            push_str(f, ";\n            self.");
            if needs_container {
                push_str(f, "inner.");
            }
            push_str(f, "body.");
            push_str(f, field_name.as_str());
            if field.prop.is_field() && is_keyword(field_name.as_str()) {
                push_str(f, "_");
            }
            let ghost mid = f@;
            push_str(f, " = val.clone().into();");
            push_str(f, "\n            val\n        }");
        } else {
            Self::write_value_map(field.ty, f);
        }
        assert(f@ =~= old(f)@ + setter_value(*self.0, field@));
    }

    /// Writes the property-related methods to the given formatter.
    #[verifier::spinoff_prover]
    #[verifier::rlimit(40)]
    pub fn write_property_method(&self, field: StructField<'b>, f: &mut String) -> (r: Result<(), WriteError>)
        requires
            ty_path_ok(field.ty@),
        ensures
            r is Err ==> !doc_regex_ok(),
            doc_regex_ok() || field.desc is None ==> r is Ok,
            r is Ok ==> final(f)@ == old(f)@ + property_method(*self.0, field@),
    {
        let prop_is_parameter = field.prop.is_parameter();
        let prop_is_required = field.prop.is_required();
        let wraps = prop_is_parameter || !prop_is_required;
        let needs_container = self.0.needs_container();
        let ghost head = setter_head(*self.0, field@);
        let ghost target = setter_target(*self.0, field@);
        let ghost value = setter_value(*self.0, field@);
        let res = self.write_setter_head(field, f);
        if res.is_err() {
            return Err(WriteError);
        }
        let ghost s1 = f@;
        assert(s1 == old(f)@ + head);
        push_str(f, " {\n        self.");
        self.write_setter_target(field, needs_container, f);
        push_str(f, " = ");
        let ghost s2 = f@;
        assert(s2 == s1 + " {\n        self."@ + target + " = "@);
        if wraps {
            push_str(f, "Some(");
        }
        self.write_setter_value(field, needs_container, f);
        if wraps {
            push_str(f, ")");
        }
        let ghost s3 = f@;
        assert(s3 =~= s2 + ((if wraps { "Some("@ } else { Seq::<char>::empty() }) + value + (if wraps { ")"@ } else { Seq::<char>::empty() })));
        push_str(f, ";\n        ");
        // We need to transmute only if there's a required field/parameter.
        if prop_is_required {
            push_str(f, "unsafe { std::mem::transmute(self) }");
        } else {
            push_str(f, "self");
        }
        push_str(f, "\n    }\n");
        let ghost s4 = f@;
        assert(s4 =~= s3 + (";\n        "@ + (if prop_is_required { "unsafe { std::mem::transmute(self) }"@ } else { "self"@ }) + "\n    }\n"@));
        assert(f@ =~= old(f)@ + property_method(*self.0, field@));
        Ok(())
    }
}


/* ---------------------------------------------------------------------- */
/* `Sendable` impls                                                       */
/* ---------------------------------------------------------------------- */

/// The format argument of a path parameter in `rel_path`.
pub open spec fn path_item(e: FieldView, needs_container: bool) -> Seq<char> {
    if e.param_loc == Some(ParameterIn::Path) {
        ", "@ + e.name + "=self."@ + (if needs_container {
            "inner."@
        } else {
            Seq::empty()
        }) + "param_"@ + snake_case_of(e.name) + ".as_ref().expect(\"missing parameter "@ + snake_case_of(e.name)
            + "?\")"@
    } else {
        Seq::empty()
    }
}

/// The format arguments of all path parameters.
pub open spec fn path_items(es: Seq<FieldView>, needs_container: bool) -> Seq<char>
    decreases es.len(),
{
    if es.len() == 0 {
        Seq::empty()
    } else {
        path_items(es.drop_last(), needs_container) + path_item(es.last(), needs_container)
    }
}

/// The query pair of a query parameter.
pub open spec fn query_item(e: FieldView, needs_container: bool) -> Seq<char> {
    "\n            (\""@ + e.name + "\", self."@ + (if needs_container {
        "inner."@
    } else {
        Seq::empty()
    }) + "param_"@ + snake_case_of(e.name) + ".as_ref().map(std::string::ToString::to_string))"@
}

/// The query pairs of all query parameters, separated by commas.
pub open spec fn query_items(es: Seq<FieldView>, needs_container: bool) -> Seq<char>
    decreases es.len(),
{
    if es.len() == 0 {
        Seq::empty()
    } else {
        let q = query_items(es.drop_last(), needs_container);
        if es.last().param_loc == Some(ParameterIn::Query) {
            q + (if q.len() > 0 {
                ","@
            } else {
                Seq::empty()
            }) + query_item(es.last(), needs_container)
        } else {
            q
        }
    }
}

/// The head of a `Sendable` impl, up to the body of `rel_path`.
#[verifier::opaque]
pub open spec fn sendable_head(b: ApiObjectBuilder, m: crate::models::HttpMethod) -> Seq<char> {
    "\nimpl "@ + b.helper_module_prefix@ + "client::Sendable for "@ + b.spec_name() + b.spec_generics(
        ParamsMode::ChangeAll,
    ) + " {\n    type Output = "@ + (if b.is_list_op {
        "Vec<"@
    } else {
        Seq::empty()
    }) + (match b.response {
        Some(r) => r@,
        None => b.object@,
    }) + (if b.is_list_op {
        ">"@
    } else {
        Seq::empty()
    }) + ";\n\n    const METHOD: reqwest::Method = reqwest::Method::"@ + m.spec_upper_name()
        + ";\n\n    fn rel_path(&self) -> std::borrow::Cow<'static, str> {\n        "@
}

/// The body of `rel_path`: a static path or a `format!` of it.
pub open spec fn sendable_path(path: Seq<char>, items: Seq<char>) -> Seq<char> {
    if items.len() == 0 {
        "\""@ + path + "\".into()"@
    } else {
        "format!(\""@ + path + "\""@ + items + ").into()"@
    }
}

/// The `modify` method (body and query), when needed.
#[verifier::opaque]
pub open spec fn sendable_modify(b: ApiObjectBuilder, query: Seq<char>) -> Seq<char> {
    if b.body_required || query.len() > 0 {
        "\n\n    fn modify(&self, req: reqwest::r#async::RequestBuilder) -> reqwest::r#async::RequestBuilder {"@
            + "\n        req"@ + (if b.body_required {
            "\n        .json(&self."@ + (if b.spec_needs_container() {
                "inner."@
            } else {
                Seq::empty()
            }) + "body)"@
        } else {
            Seq::empty()
        }) + (if query.len() > 0 {
            "\n        .query(&["@ + query + "\n        ])"@
        } else {
            Seq::empty()
        }) + "\n    }"@
    } else {
        Seq::empty()
    }
}

/// The `Sendable` impl written for an operation builder (none for the
/// object's own builder).
pub open spec fn sendable_text(b: ApiObjectBuilder) -> Seq<char> {
    match (b.rel_path, b.method) {
        (Some(p), Some(m)) => {
            let nc = b.spec_needs_container();
            let es = b.spec_struct_fields();
            sendable_head(b, m) + sendable_path(p@, path_items(es, nc)) + "\n    }"@ + sendable_modify(
                b,
                query_items(es, nc),
            ) + "\n}\n"@
        },
        _ => Seq::empty(),
    }
}

/// Writes the format arguments of the path parameters.
#[verifier::spinoff_prover]
#[verifier::rlimit(40)]
fn write_path_items(fields: &Vec<StructField>, needs_container: bool, f: &mut String)
    ensures
        final(f)@ == old(f)@ + path_items(field_views(fields@), needs_container),
{
    let ghost views = field_views(fields@);
    let mut i: usize = 0;
    assert(views.take(0) =~= Seq::<FieldView>::empty());
    while i < fields.len()
        invariant
            i <= fields@.len(),
            views == field_views(fields@),
            f@ == old(f)@ + path_items(views.take(i as int), needs_container),
        decreases fields.len() - i,
    {
        let field = fields[i];
        assert(views.take(i + 1).drop_last() =~= views.take(i as int));
        assert(views.take(i + 1).last() == field@);
        let ghost before = f@;
        if field.param_loc == Some(ParameterIn::Path) {
            push_str(f, ", ");
            push_str(f, field.name);
            push_str(f, "=self.");
            let name = to_snake_case(field.name);
            if needs_container {
                push_str(f, "inner.");
            }
            push_str(f, "param_");
            push_str(f, name.as_str());
            push_str(f, ".as_ref().expect(\"missing parameter ");
            push_str(f, name.as_str());
            push_str(f, "?\")");
        }
        assert(f@ =~= before + path_item(field@, needs_container));
        i = i + 1;
    }
    assert(views.take(fields@.len() as int) =~= views);
}

/// Writes the query pairs of the query parameters.
fn write_query_items(fields: &Vec<StructField>, needs_container: bool, query: &mut String)
    requires
        old(query)@.len() == 0,
    ensures
        final(query)@ == query_items(field_views(fields@), needs_container),
{
    let ghost views = field_views(fields@);
    let mut i: usize = 0;
    assert(views.take(0) =~= Seq::<FieldView>::empty());
    while i < fields.len()
        invariant
            i <= fields@.len(),
            views == field_views(fields@),
            query@ == query_items(views.take(i as int), needs_container),
        decreases fields.len() - i,
    {
        let field = fields[i];
        assert(views.take(i + 1).drop_last() =~= views.take(i as int));
        assert(views.take(i + 1).last() == field@);
        let ghost before = query@;
        if field.param_loc == Some(ParameterIn::Query) {
            if !query.as_str().is_empty() {
                push_str(query, ",");
            }
            let ghost mid = query@;
            push_str(query, "\n            (\"");
            push_str(query, field.name);
            push_str(query, "\", self.");
            if needs_container {
                push_str(query, "inner.");
            }
            let name = to_snake_case(field.name);
            push_str(query, "param_");
            push_str(query, name.as_str());
            push_str(query, ".as_ref().map(std::string::ToString::to_string))");
            assert(query@ =~= mid + query_item(field@, needs_container));
        }
        assert(query@ =~= query_items(views.take(i + 1), needs_container));
        i = i + 1;
    }
    assert(views.take(fields@.len() as int) =~= views);
}

impl<'a, 'b> ApiObjectBuilderImpl<'a, 'b> {
    /// Writes the head of the `Sendable` impl.
    #[verifier::spinoff_prover]
    #[verifier::rlimit(40)]
    fn write_sendable_head(&self, m: crate::models::HttpMethod, f: &mut String)
        ensures
            final(f)@ == old(f)@ + sendable_head(*self.0, m),
    {
        reveal(sendable_head);
        push_str(f, "\nimpl ");
        push_str(f, self.0.helper_module_prefix);
        push_str(f, "client::Sendable for ");
        self.0.write_name(f);
        self.0.write_generics_if_necessary(f, TypeParameters::ChangeAll);
        push_str(f, " {\n    type Output = ");
        let ghost mid = f@;
        if self.0.is_list_op {
            push_str(f, "Vec<");
        }
        if let Some(resp) = self.0.response {
            // If we've acquired a response type, then write that.
            push_str(f, resp);
        } else {
            push_str(f, self.0.object);
        }
        if self.0.is_list_op {
            push_str(f, ">");
        }
        let ghost mid2 = f@;
        push_str(f, ";\n\n    const METHOD: reqwest::Method = reqwest::Method::");
        push_str(f, m.upper_name());
        push_str(f, ";\n\n    fn rel_path(&self) -> std::borrow::Cow<'static, str> {\n        ");
        assert(f@ =~= old(f)@ + sendable_head(*self.0, m));
    }

    /// Writes the `modify` method, when needed.
    #[verifier::spinoff_prover]
    #[verifier::rlimit(40)]
    fn write_sendable_modify(&self, needs_container: bool, query: &String, f: &mut String)
        requires
            needs_container == self.0.spec_needs_container(),
        ensures
            final(f)@ == old(f)@ + sendable_modify(*self.0, query@),
    {
        reveal(sendable_modify);
        let has_query = !query.as_str().is_empty();
        if self.0.body_required || has_query {
            push_str(f, "\n\n    fn modify(&self, req: reqwest::r#async::RequestBuilder) -> reqwest::r#async::RequestBuilder {");
            push_str(f, "\n        req");
            let ghost mid = f@;
            if self.0.body_required {
                push_str(f, "\n        .json(&self.");
                if needs_container {
                    push_str(f, "inner.");
                }
                push_str(f, "body)");
            }
            let ghost mid2 = f@;
            if has_query {
                push_str(f, "\n        .query(&[");
                push_str(f, query.as_str());
                push_str(f, "\n        ])");
            }
            push_str(f, "\n    }");
        }
        assert(f@ =~= old(f)@ + sendable_modify(*self.0, query@));
    }

    /// Writes the `Sendable` trait impl for this builder (if needed).
    #[verifier::spinoff_prover]
    #[verifier::rlimit(40)]
    pub fn write_sendable_impl_if_needed(&self, f: &mut String)
        ensures
            final(f)@ == old(f)@ + sendable_text(*self.0),
    {
        let (path, method) = match (self.0.rel_path, self.0.method) {
            (Some(p), Some(m)) => (p, m),
            _ => {
                assert(f@ =~= old(f)@ + sendable_text(*self.0));
                return;
            },
        };
        let needs_container = self.0.needs_container();
        self.write_sendable_head(method, f);
        let ghost after_head = f@;
        let fields = self.0.struct_fields_iter();
        // Determine if we need a `&'static str` or `String`
        let mut path_items = String::new();
        write_path_items(&fields, needs_container, &mut path_items);
        assert(path_items@ =~= crate::impls::path_items(field_views(fields@), needs_container));
        if path_items.as_str().is_empty() {
            push_str(f, "\"");
            push_str(f, path);
            push_str(f, "\".into()");
        } else {
            push_str(f, "format!(\"");
            push_str(f, path);
            push_str(f, "\"");
            push_str(f, path_items.as_str());
            push_str(f, ").into()");
        }
        push_str(f, "\n    }");
        let ghost after_path = f@;
        // Check for whether the `modify` method needs to be added (i.e. body and other params).
        let mut query = String::new();
        write_query_items(&fields, needs_container, &mut query);
        self.write_sendable_modify(needs_container, &query, f);
        push_str(f, "\n}\n");
        assert(f@ =~= old(f)@ + sendable_text(*self.0));
    }
}


/* ---------------------------------------------------------------------- */
/* CLI argument parsing                                                   */
/* ---------------------------------------------------------------------- */

/// The initialiser of a parameter from the CLI matches.
pub open spec fn arg_param(e: FieldView) -> Seq<char> {
    if e.prop.spec_is_field() {
        Seq::empty()
    } else {
        let kk = kebab_case_of(e.name);
        "\n            param_"@ + snake_case_of(e.name) + ": matches.and_then(|m| {\n                    m.value_of(\""@ + kk
            + "\").map(|_| {\n                        value_t!(m, \""@ + kk + "\", "@ + e.ty
            + ").unwrap_or_else(|e| e.exit())\n                    })\n                }),"@ + "\n"@
    }
}

/// The initialisers of all parameters.
pub open spec fn arg_params(es: Seq<FieldView>) -> Seq<char>
    decreases es.len(),
{
    if es.len() == 0 {
        Seq::empty()
    } else {
        arg_params(es.drop_last()) + arg_param(es.last())
    }
}

/// The marker initialiser of a required entry.
pub open spec fn phantom_init(e: FieldView) -> Seq<char> {
    if e.prop.spec_is_required() {
        "\n            _"@ + (if e.prop.spec_is_parameter() {
            "param_"@
        } else {
            Seq::empty()
        }) + snake_case_of(e.name) + ": core::marker::PhantomData,"@
    } else {
        Seq::empty()
    }
}

/// The marker initialisers of all required entries.
pub open spec fn phantom_inits(es: Seq<FieldView>) -> Seq<char>
    decreases es.len(),
{
    if es.len() == 0 {
        Seq::empty()
    } else {
        phantom_inits(es.drop_last()) + phantom_init(es.last())
    }
}

/// The head of the `from_args` impl.
#[verifier::opaque]
pub open spec fn arg_parsing_head(b: ApiObjectBuilder) -> Seq<char> {
    "\n#[allow(unused_variables)]\nimpl "@ + b.spec_name() + b.spec_generics(ParamsMode::ChangeAll)
        + " {\n    pub(crate) fn from_args(matches: Option<&clap::ArgMatches<'_>>) -> Result<Self, crate::ClientError> {"@
        + "\n        let thing = "@ + b.spec_name() + " {"@ + (if b.spec_needs_container() {
        "\n            inner: "@ + b.spec_container_name() + " {"@
    } else {
        Seq::empty()
    }) + if b.body_required {
        "\n            body: {\n                let path = matches.expect(\"no args for builder with body?\").value_of(\"payload\").expect(\"payload?\");\n                let fd: Box<dyn std::io::Read> = if path == \"-\" {\n                    Box::new(std::io::stdin()) as Box<_>\n                } else {\n                    Box::new(std::fs::File::open(&path).map_err(crate::ClientError::Io)?) as Box<_>\n                };\n\n                serde_json::from_reader(fd).map_err(crate::ClientError::Json)?\n            },"@
    } else {
        Seq::empty()
    }
}

/// The impl that builds an operation builder from CLI matches (none for
/// the object's own builder).
pub open spec fn arg_parsing_text(b: ApiObjectBuilder) -> Seq<char> {
    if b.rel_path is None && b.method is None {
        Seq::empty()
    } else {
        let es = b.spec_struct_fields();
        arg_parsing_head(b) + arg_params(es) + (if b.spec_needs_container() {
            "\n            },"@
        } else {
            Seq::empty()
        }) + phantom_inits(es) + "\n        };\n\n        Ok(thing)\n    }\n}\n"@
    }
}

/// Writes the parameter initialisers into `f` and the marker initialisers
/// into `phantom`.
#[verifier::spinoff_prover]
#[verifier::rlimit(40)]
fn write_arg_params(fields: &Vec<StructField>, f: &mut String, phantom: &mut String)
    ensures
        final(f)@ == old(f)@ + arg_params(field_views(fields@)),
        final(phantom)@ == old(phantom)@ + phantom_inits(field_views(fields@)),
{
    let ghost views = field_views(fields@);
    let mut i: usize = 0;
    assert(views.take(0) =~= Seq::<FieldView>::empty());
    while i < fields.len()
        invariant
            i <= fields@.len(),
            views == field_views(fields@),
            f@ == old(f)@ + arg_params(views.take(i as int)),
            phantom@ == old(phantom)@ + phantom_inits(views.take(i as int)),
        decreases fields.len() - i,
    {
        let field = fields[i];
        assert(views.take(i + 1).drop_last() =~= views.take(i as int));
        assert(views.take(i + 1).last() == field@);
        let ghost before = f@;
        let ghost before_p = phantom@;
        let sk = to_snake_case(field.name);
        let kk = to_kebab_case(field.name);
        if field.prop.is_required() {
            push_str(phantom, "\n            _");
            if field.prop.is_parameter() {
                push_str(phantom, "param_");
            }
            push_str(phantom, sk.as_str());
            push_str(phantom, ": core::marker::PhantomData,");
        }
        assert(phantom@ =~= before_p + phantom_init(field@));
        if !field.prop.is_field() {
            push_str(f, "\n            param_");
            push_str(f, sk.as_str());
            // We're enforcing requirements in the CLI. We can relax here.
            push_str(f, ": matches.and_then(|m| {\n                    m.value_of(\"");
            push_str(f, kk.as_str());
            push_str(f, "\").map(|_| {\n                        value_t!(m, \"");
            push_str(f, kk.as_str());
            push_str(f, "\", ");
            push_str(f, field.ty);
            push_str(f, ").unwrap_or_else(|e| e.exit())\n                    })\n                }),");
            push_str(f, "\n");
        }
        assert(f@ =~= before + arg_param(field@));
        i = i + 1;
    }
    assert(views.take(fields@.len() as int) =~= views);
}

impl<'a, 'b> ApiObjectBuilderImpl<'a, 'b> {
    /// Writes the head of the `from_args` impl.
    #[verifier::spinoff_prover]
    #[verifier::rlimit(30)]
    fn write_arg_parsing_head(&self, needs_container: bool, f: &mut String)
        requires
            needs_container == self.0.spec_needs_container(),
        ensures
            final(f)@ == old(f)@ + arg_parsing_head(*self.0),
    {
        reveal(arg_parsing_head);
        push_str(f, "\n#[allow(unused_variables)]\nimpl ");
        self.0.write_name(f);
        self.0.write_generics_if_necessary(f, TypeParameters::ChangeAll);
        // NOTE: We're assuming that we've correctly given all the arg requirements to clap.
        push_str(
            f,
            " {\n    pub(crate) fn from_args(matches: Option<&clap::ArgMatches<'_>>) -> Result<Self, crate::ClientError> {",
        );
        push_str(f, "\n        let thing = ");
        self.0.write_name(f);
        push_str(f, " {");
        let ghost mid = f@;
        if needs_container {
            push_str(f, "\n            inner: ");
            self.0.write_container_name(f);
            push_str(f, " {");
        }
        let ghost mid2 = f@;
        if self.0.body_required {
            push_str(
                f,
                "\n            body: {\n                let path = matches.expect(\"no args for builder with body?\").value_of(\"payload\").expect(\"payload?\");\n                let fd: Box<dyn std::io::Read> = if path == \"-\" {\n                    Box::new(std::io::stdin()) as Box<_>\n                } else {\n                    Box::new(std::fs::File::open(&path).map_err(crate::ClientError::Io)?) as Box<_>\n                };\n\n                serde_json::from_reader(fd).map_err(crate::ClientError::Json)?\n            },",
            );
        }
        assert(f@ =~= old(f)@ + arg_parsing_head(*self.0));
    }

    /// Writes impl for getting args from `clap::ArgMatches`
    #[verifier::spinoff_prover]
    #[verifier::rlimit(40)]
    pub fn write_arg_parsing(&self, f: &mut String)
        ensures
            final(f)@ == old(f)@ + arg_parsing_text(*self.0),
    {
        if self.0.rel_path.is_none() && self.0.method.is_none() {
            assert(f@ =~= old(f)@ + arg_parsing_text(*self.0));
            return;
        }
        let needs_container = self.0.needs_container();
        self.write_arg_parsing_head(needs_container, f);
        let ghost after_head = f@;
        let mut phantom = String::new();
        let fields = self.0.struct_fields_iter();
        write_arg_params(&fields, f, &mut phantom);
        let ghost after_params = f@;
        if needs_container {
            push_str(f, "\n            },");
        }
        push_str(f, phantom.as_str());
        push_str(f, "\n        };\n\n        Ok(thing)\n    }\n}\n");
        assert(f@ =~= old(f)@ + arg_parsing_text(*self.0));
    }
}

/* ---------------------------------------------------------------------- */
/* The builder's impl block                                               */
/* ---------------------------------------------------------------------- */

/// Whether an entry gets a setter: parameters, and body fields when the
/// body is required.
pub open spec fn gets_setter(b: ApiObjectBuilder, e: FieldView) -> bool {
    (b.body_required && e.prop.spec_is_field()) || e.prop.spec_is_parameter()
}

/// The setters of the entries that get one.
pub open spec fn property_methods(b: ApiObjectBuilder, es: Seq<FieldView>) -> Seq<char>
    decreases es.len(),
{
    if es.len() == 0 {
        Seq::empty()
    } else {
        property_methods(b, es.drop_last()) + if gets_setter(b, es.last()) {
            property_method(b, es.last())
        } else {
            Seq::empty()
        }
    }
}

/// Whether some entry gets a setter.
pub open spec fn any_setter(b: ApiObjectBuilder, es: Seq<FieldView>) -> bool {
    exists|k: int| 0 <= k < es.len() && gets_setter(b, #[trigger] es[k])
}

/// The impl block with the setters (if any), followed by the `Sendable` impl.
pub open spec fn builder_impl_text(b: ApiObjectBuilder) -> Seq<char> {
    let es = b.spec_struct_fields();
    let g = b.spec_generics(ParamsMode::Generic);
    (if any_setter(b, es) {
        "impl"@ + g + " "@ + b.spec_name() + g + " {"@ + property_methods(b, es) + "}\n"@
    } else {
        Seq::empty()
    }) + sendable_text(b)
}

/// Whether all type paths of the entries are well formed.
pub open spec fn entries_ty_ok(es: Seq<FieldView>) -> bool {
    forall|k: int| 0 <= k < es.len() ==> ty_path_ok(#[trigger] es[k].ty)
}

/// Whether all type paths of an object's fields and of a builder's
/// parameters are well formed.
pub open spec fn builder_types_ok(b: ApiObjectBuilder) -> bool {
    &&& forall|k: int| 0 <= k < b.fields@.len() ==> ty_path_ok(#[trigger] b.fields@[k].ty_path@)
    &&& forall|k: int| 0 <= k < b.global_params@.len() ==> ty_path_ok(#[trigger] b.global_params@[k].ty_path@)
    &&& forall|k: int| 0 <= k < b.local_params@.len() ==> ty_path_ok(#[trigger] b.local_params@[k].ty_path@)
}

proof fn lemma_add_params_ty_ok(acc: Seq<FieldView>, ps: Seq<Parameter>, shadow: Seq<Parameter>)
    requires
        entries_ty_ok(acc),
        forall|k: int| 0 <= k < ps.len() ==> ty_path_ok(#[trigger] ps[k].ty_path@),
    ensures
        entries_ty_ok(add_params(acc, ps, shadow)),
    decreases ps.len(),
{
    if ps.len() > 0 {
        assert forall|k: int| 0 <= k < ps.drop_last().len() implies ty_path_ok(#[trigger] ps.drop_last()[k].ty_path@) by {
            assert(ps.drop_last()[k] == ps[k]);
        }
        lemma_add_params_ty_ok(acc, ps.drop_last(), shadow);
        assert(ty_path_ok(ps[ps.len() - 1].ty_path@));
    }
}

proof fn lemma_add_fields_ty_ok(acc: Seq<FieldView>, fs: Seq<ObjectField>, body_required: bool)
    requires
        entries_ty_ok(acc),
        forall|k: int| 0 <= k < fs.len() ==> ty_path_ok(#[trigger] fs[k].ty_path@),
    ensures
        entries_ty_ok(add_fields(acc, fs, body_required)),
    decreases fs.len(),
{
    if fs.len() > 0 {
        assert forall|k: int| 0 <= k < fs.drop_last().len() implies ty_path_ok(#[trigger] fs.drop_last()[k].ty_path@) by {
            assert(fs.drop_last()[k] == fs[k]);
        }
        lemma_add_fields_ty_ok(acc, fs.drop_last(), body_required);
        assert(ty_path_ok(fs[fs.len() - 1].ty_path@));
        let before = add_fields(acc, fs.drop_last(), body_required);
        let e = field_entry(fs.last(), body_required);
        crate::object::lemma_name_index(before, e.name);
        match name_index(before, e.name) {
            Some(k) => {
                if before[k].ty == e.ty {
                    let after = before.update(k, FieldView { overridden: true, ..before[k] });
                    assert forall|j: int| 0 <= j < after.len() implies ty_path_ok(#[trigger] after[j].ty) by {
                        if j == k {
                        } else {
                            assert(after[j] == before[j]);
                        }
                    }
                }
            },
            None => {},
        }
    }
}

/// Well-formed types of fields and parameters give well-formed types for all
/// entries of the builder.
pub proof fn lemma_builder_entries_ty_ok(b: ApiObjectBuilder)
    requires
        builder_types_ok(b),
    ensures
        entries_ty_ok(b.spec_struct_fields()),
{
    lemma_add_params_ty_ok(Seq::empty(), b.global_params@, b.local_params@);
    lemma_add_params_ty_ok(add_params(Seq::empty(), b.global_params@, b.local_params@), b.local_params@, Seq::empty());
    lemma_add_fields_ty_ok(params_entries(b.global_params@, b.local_params@), b.fields@, b.body_required);
}

impl<'a, 'b> ApiObjectBuilderImpl<'a, 'b> {
    /// The impl text written for this builder.
    pub open spec fn spec_impl_text(self) -> Seq<char> {
        builder_impl_text(*self.0)
    }

    /// Writes the setters of this builder (inside an impl block, when there
    /// is at least one) and then its `Sendable` impl.
    #[verifier::spinoff_prover]
    #[verifier::rlimit(40)]
    pub fn fmt(&self, f: &mut String) -> (r: Result<(), WriteError>)
        requires
            builder_types_ok(*self.0),
        ensures
            r is Err ==> !doc_regex_ok(),
            doc_regex_ok() || !setters_have_docs(*self.0) ==> r is Ok,
            r is Ok ==> final(f)@ == old(f)@ + self.spec_impl_text(),
    {
        proof {
            lemma_builder_entries_ty_ok(*self.0);
        }
        let mut generics = String::new();
        self.0.write_generics_if_necessary(&mut generics, TypeParameters::Generic);
        let fields = self.0.struct_fields_iter();
        let ghost views = field_views(fields@);
        let ghost b = *self.0;
        let mut has_fields = false;
        let mut i: usize = 0;
        let ghost start = f@;
        let ghost header = "impl"@ + generics@ + " "@ + b.spec_name() + generics@ + " {"@;
        assert(views.take(0) =~= Seq::<FieldView>::empty());
        while i < fields.len()
            invariant
                i <= fields@.len(),
                views == field_views(fields@),
                views == b.spec_struct_fields(),
                b == *self.0,
                entries_ty_ok(views),
                generics@ == b.spec_generics(ParamsMode::Generic),
                header == "impl"@ + generics@ + " "@ + b.spec_name() + generics@ + " {"@,
                has_fields == any_setter(b, views.take(i as int)),
                has_fields ==> f@ == start + header + property_methods(b, views.take(i as int)),
                !has_fields ==> f@ == start,
            decreases fields.len() - i,
        {
            let field = fields[i];
            assert(views.take(i + 1).drop_last() =~= views.take(i as int));
            assert(views.take(i + 1).last() == field@);
            assert(views[i as int] == field@);
            assert(ty_path_ok(views[i as int].ty));
            if (self.0.body_required && field.prop.is_field()) || field.prop.is_parameter() {
                if !has_fields {
                    has_fields = true;
                    push_str(f, "impl");
                    push_str(f, generics.as_str());
                    push_str(f, " ");
                    self.0.write_name(f);
                    push_str(f, generics.as_str());
                    push_str(f, " {");
                    proof {
                        assert(property_methods(b, views.take(i as int)) =~= Seq::<char>::empty()) by {
                            lemma_no_setter_no_methods(b, views.take(i as int));
                        }
                    }
                }
                let ghost before = f@;
                let res = self.write_property_method(field, f);
                if res.is_err() {
                    assert(gets_setter(b, views[i as int]) && views[i as int].desc is Some);
                    return Err(WriteError);
                }
                proof {
                    assert(gets_setter(b, views.take(i + 1)[i as int]));
                    assert(f@ =~= start + header + property_methods(b, views.take(i + 1)));
                }
            } else {
                proof {
                    if any_setter(b, views.take(i + 1)) {
                        let k = choose|k: int| 0 <= k < i + 1 && gets_setter(b, #[trigger] views.take(i + 1)[k]);
                        assert(views.take(i as int)[k] == views.take(i + 1)[k]);
                    }
                }
            }
            proof {
                if any_setter(b, views.take(i as int)) {
                    let k = choose|k: int| 0 <= k < i && gets_setter(b, #[trigger] views.take(i as int)[k]);
                    assert(views.take(i + 1)[k] == views.take(i as int)[k]);
                }
            }
            i = i + 1;
        }
        assert(views.take(fields@.len() as int) =~= views);
        if has_fields {
            push_str(f, "}\n");
        } else {
            proof {
                assert(!any_setter(b, views));
            }
        }
        let ghost before_sendable = f@;
        self.write_sendable_impl_if_needed(f);
        assert(f@ =~= old(f)@ + self.spec_impl_text());
        Ok(())
    }
}

/// Without any entry getting a setter there are no setters.
proof fn lemma_no_setter_no_methods(b: ApiObjectBuilder, es: Seq<FieldView>)
    requires
        !any_setter(b, es),
    ensures
        property_methods(b, es) == Seq::<char>::empty(),
    decreases es.len(),
{
    if es.len() > 0 {
        assert(!any_setter(b, es.drop_last())) by {
            if any_setter(b, es.drop_last()) {
                let k = choose|k: int| 0 <= k < es.len() - 1 && gets_setter(b, #[trigger] es.drop_last()[k]);
                assert(es[k] == es.drop_last()[k]);
            }
        }
        lemma_no_setter_no_methods(b, es.drop_last());
        assert(!gets_setter(b, es[es.len() - 1]));
    }
}

/// **Law.** A builder without both a path and a method (the object's own
/// builder) gets no `Sendable` impl: its impl text is the setter block alone.
pub proof fn law_no_sendable_without_operation(b: ApiObjectBuilder)
    requires
        b.rel_path is None || b.method is None,
    ensures
        sendable_text(b) == Seq::<char>::empty(),
        builder_impl_text(b) == (if any_setter(b, b.spec_struct_fields()) {
            "impl"@ + b.spec_generics(ParamsMode::Generic) + " "@ + b.spec_name() + b.spec_generics(
                ParamsMode::Generic,
            ) + " {"@ + property_methods(b, b.spec_struct_fields()) + "}\n"@
        } else {
            Seq::<char>::empty()
        }),
{
    let g = b.spec_generics(ParamsMode::Generic);
    let block = if any_setter(b, b.spec_struct_fields()) {
        "impl"@ + g + " "@ + b.spec_name() + g + " {"@ + property_methods(b, b.spec_struct_fields()) + "}\n"@
    } else {
        Seq::<char>::empty()
    };
    assert(block + Seq::<char>::empty() =~= block);
}

/// **Law.** The argument parsing (`from_args`) is written for an operation
/// builder, one with a path or a method, and for no other builder.
pub proof fn law_arg_parsing_only_for_operations(b: ApiObjectBuilder)
    ensures
        (arg_parsing_text(b).len() == 0) <==> (b.rel_path is None && b.method is None),
{
    reveal_strlit("\n        };\n\n        Ok(thing)\n    }\n}\n");
}

/// **Law.** Each setter assigns the slot that the builder declares for its
/// entry: `param_` and the snake-cased name for a parameter (the slot that
/// `parameter_text` declares), and the field's Rust name inside `body` for a
/// field of a required body.
pub proof fn law_setter_targets_declared_slot(b: ApiObjectBuilder, e: FieldView, f: ObjectField)
    ensures
        e.prop.spec_is_parameter() ==> parameter_text(e.prop, snake_case_of(e.name), e.ty) == "\n    param_"@
            + setter_name(e) + ": Option<"@ + e.ty + ">,"@,
        e.prop.spec_is_parameter() ==> setter_target(b, e) == (if b.spec_needs_container() {
            "inner."@
        } else {
            Seq::<char>::empty()
        }) + "param_"@ + setter_name(e),
        b.body_required ==> setter_target(b, field_entry(f, b.body_required)) == (if b.spec_needs_container() {
            "inner."@
        } else {
            Seq::<char>::empty()
        }) + "body."@ + field_rust_name(f),
{
    reveal(setter_target);
    let pre = if b.spec_needs_container() {
        "inner."@
    } else {
        Seq::<char>::empty()
    };
    if e.prop.spec_is_parameter() {
        assert(!needs_trailing_dash(e));
        assert(pre + "param_"@ + setter_name(e) + Seq::<char>::empty() =~= pre + "param_"@ + setter_name(e));
    }
    if b.body_required {
        let fe = field_entry(f, b.body_required);
        assert(fe.prop.spec_is_field());
        assert(setter_name(fe) == snake_case_of(f.name@));
        if is_rust_keyword(snake_case_of(f.name@)) {
            reveal_strlit("_");
            assert(pre + "body."@ + snake_case_of(f.name@) + "_"@ =~= pre + "body."@ + snake_case_of(f.name@).push('_'));
        } else {
            assert(pre + "body."@ + snake_case_of(f.name@) + Seq::<char>::empty() =~= pre + "body."@ + snake_case_of(f.name@));
        }
    }
}

proof fn lemma_query_items_present(es: Seq<FieldView>, nc: bool)
    ensures
        (query_items(es, nc).len() > 0) <==> exists|k: int|
            0 <= k < es.len() && (#[trigger] es[k]).param_loc == Some(ParameterIn::Query),
    decreases es.len(),
{
    reveal_strlit("\n            (\"");
    if es.len() > 0 {
        lemma_query_items_present(es.drop_last(), nc);
        if exists|k: int| 0 <= k < es.drop_last().len() && (#[trigger] es.drop_last()[k]).param_loc == Some(
            ParameterIn::Query,
        ) {
            let k = choose|k: int| 0 <= k < es.drop_last().len() && (#[trigger] es.drop_last()[k]).param_loc == Some(
                ParameterIn::Query,
            );
            assert(es[k] == es.drop_last()[k]);
        }
        if exists|k: int| 0 <= k < es.len() && (#[trigger] es[k]).param_loc == Some(ParameterIn::Query) {
            let k = choose|k: int| 0 <= k < es.len() && (#[trigger] es[k]).param_loc == Some(ParameterIn::Query);
            if k < es.len() - 1 {
                assert(es.drop_last()[k] == es[k]);
            }
        }
    }
}

/// **Law.** The `Sendable` impl is written exactly when the builder has a
/// path and a method. It is then its head (which ends by opening
/// `rel_path`), the path, and a `modify` method exactly when the body is
/// required or some entry is a query parameter.
#[verifier::spinoff_prover]
#[verifier::rlimit(50)]
pub proof fn law_sendable_shape(b: ApiObjectBuilder)
    ensures
        (sendable_text(b).len() > 0) <==> (b.rel_path is Some && b.method is Some),
        b.rel_path is Some && b.method is Some ==> sendable_text(b) == sendable_head(b, b.method->0)
            + sendable_path(b.rel_path->0@, path_items(b.spec_struct_fields(), b.spec_needs_container())) + "\n    }"@
            + sendable_modify(b, query_items(b.spec_struct_fields(), b.spec_needs_container())) + "\n}\n"@,
        (sendable_modify(b, query_items(b.spec_struct_fields(), b.spec_needs_container())).len() > 0) <==> (
        b.body_required || exists|k: int|
            0 <= k < b.spec_struct_fields().len() && (#[trigger] b.spec_struct_fields()[k]).param_loc == Some(
                ParameterIn::Query,
            )),
        sendable_modify(b, query_items(b.spec_struct_fields(), b.spec_needs_container())).len() > 0 ==> sendable_modify(
            b,
            query_items(b.spec_struct_fields(), b.spec_needs_container()),
        ).take(15) == "\n\n    fn modify"@,
{
    reveal(sendable_modify);
    reveal_strlit("\n}\n");
    reveal_strlit("\n\n    fn modify");
    reveal_strlit("\n\n    fn modify(&self, req: reqwest::r#async::RequestBuilder) -> reqwest::r#async::RequestBuilder {");
    lemma_query_items_present(b.spec_struct_fields(), b.spec_needs_container());
    let q = query_items(b.spec_struct_fields(), b.spec_needs_container());
    if b.body_required || q.len() > 0 {
        let t = sendable_modify(b, q);
        let h = "\n\n    fn modify(&self, req: reqwest::r#async::RequestBuilder) -> reqwest::r#async::RequestBuilder {"@;
        assert(t.take(15) =~= h.take(15));
        assert(h.take(15) =~= "\n\n    fn modify"@);
    }
    match (b.rel_path, b.method) {
        (Some(p), Some(m)) => {
            assert(sendable_text(b) == sendable_head(b, m) + sendable_path(
                p@,
                path_items(b.spec_struct_fields(), b.spec_needs_container()),
            ) + "\n    }"@ + sendable_modify(b, q) + "\n}\n"@);
        },
        _ => {},
    }
}

/// **Law.** A setter of a field of a required body assigns the field that
/// the object's struct declares for it: the struct declares
/// `pub <Rust name>` for the field, and the setter assigns
/// `self.[inner.]body.<Rust name>`.
#[verifier::spinoff_prover]
#[verifier::rlimit(50)]
pub proof fn law_setter_assigns_declared_field(b: ApiObjectBuilder, f: ObjectField)
    requires
        b.body_required,
    ensures
        exists|docs: Seq<char>|
            crate::object::struct_field_text(f) == docs + "pub "@ + field_rust_name(f) + ": "@
                + crate::object::field_type_text(f) + ","@,
        setter_target(b, field_entry(f, true)) == (if b.spec_needs_container() {
            "inner."@
        } else {
            Seq::<char>::empty()
        }) + "body."@ + field_rust_name(f),
{
    law_setter_targets_declared_slot(b, field_entry(f, true), f);
    let nn = field_rust_name(f);
    let pre = docs_text(crate::object::opt_string_view(f.description), 1) + (if f.description is None {
        "\n"@
    } else {
        Seq::empty()
    }) + "    "@ + (if nn != f.name@ {
        "#[serde(rename = \""@ + f.name@ + "\")]\n    "@
    } else {
        Seq::empty()
    });
    assert(crate::object::struct_field_text(f) =~= pre + "pub "@ + nn + ": "@ + crate::object::field_type_text(f) + ","@);
}

proof fn lemma_args_hold_each(es: Seq<FieldView>, k: int)
    requires
        0 <= k < es.len(),
    ensures
        exists|pre: Seq<char>, post: Seq<char>| arg_params(es) == pre + arg_param(es[k]) + post,
        es[k].prop.spec_is_parameter() ==> exists|pre: Seq<char>, post: Seq<char>|
            clap_args(es) == pre + clap_arg(es[k]) + post,
    decreases es.len(),
{
    if k == es.len() - 1 {
        assert(arg_params(es) == arg_params(es.drop_last()) + arg_param(es[k]) + Seq::<char>::empty());
        if es[k].prop.spec_is_parameter() {
            assert(clap_args(es) == clap_args(es.drop_last()) + clap_arg(es[k]) + Seq::<char>::empty());
        }
    } else {
        lemma_args_hold_each(es.drop_last(), k);
        assert(es.drop_last()[k] == es[k]);
        let (pre, post) = choose|pre: Seq<char>, post: Seq<char>|
            arg_params(es.drop_last()) == pre + arg_param(es[k]) + post;
        assert(arg_params(es) == pre + arg_param(es[k]) + (post + arg_param(es.last())));
        if es[k].prop.spec_is_parameter() {
            let (p2, q2) = choose|pre: Seq<char>, post: Seq<char>| clap_args(es.drop_last()) == pre + clap_arg(es[k]) + post;
            let tail = if es.last().prop.spec_is_parameter() {
                clap_arg(es.last())
            } else {
                Seq::empty()
            };
            assert(clap_args(es) == p2 + clap_arg(es[k]) + (q2 + tail));
        }
    }
}

/// **Law.** The argument parsing of an operation builder reads each of its
/// parameters: for each parameter among the entries it sets
/// `param_<snake-cased name>` from the argument named by the kebab-cased
/// name, the same name under which the clap description declares the
/// argument; it writes nothing for a field. It reads the payload exactly
/// where the body is required.
#[verifier::spinoff_prover]
#[verifier::rlimit(50)]
pub proof fn law_arg_parsing_reads_parameters(b: ApiObjectBuilder, k: int)
    requires
        b.rel_path is Some || b.method is Some,
        0 <= k < b.spec_struct_fields().len(),
    ensures
        ({
            let e = b.spec_struct_fields()[k];
            &&& exists|pre: Seq<char>, post: Seq<char>| arg_parsing_text(b) == pre + arg_param(e) + post
            &&& e.prop.spec_is_field() ==> arg_param(e) == Seq::<char>::empty()
            &&& e.prop.spec_is_parameter() ==> exists|rest: Seq<char>|
                arg_param(e) == "\n            param_"@ + snake_case_of(e.name)
                    + ": matches.and_then(|m| {\n                    m.value_of(\""@ + kebab_case_of(e.name) + rest
            &&& e.prop.spec_is_parameter() ==> exists|pre: Seq<char>, post: Seq<char>|
                clap_args(b.spec_struct_fields()) == pre + clap_arg(e) + post
            &&& e.prop.spec_is_parameter() ==> exists|rest: Seq<char>|
                clap_arg(e) == "\n        - "@ + kebab_case_of(e.name) + rest
        }),
        b.body_required ==> exists|pre: Seq<char>, post: Seq<char>|
            arg_parsing_head(b) == pre + "value_of(\"payload\")"@ + post,
        !b.body_required ==> arg_parsing_head(b) == "\n#[allow(unused_variables)]\nimpl "@ + b.spec_name()
            + b.spec_generics(ParamsMode::ChangeAll)
            + " {\n    pub(crate) fn from_args(matches: Option<&clap::ArgMatches<'_>>) -> Result<Self, crate::ClientError> {"@
            + "\n        let thing = "@ + b.spec_name() + " {"@ + (if b.spec_needs_container() {
            "\n            inner: "@ + b.spec_container_name() + " {"@
        } else {
            Seq::<char>::empty()
        }),
{
    let es = b.spec_struct_fields();
    let e = es[k];
    lemma_args_hold_each(es, k);
    let (pre, post) = choose|pre: Seq<char>, post: Seq<char>| arg_params(es) == pre + arg_param(e) + post;
    let head = arg_parsing_head(b);
    let tail = (if b.spec_needs_container() {
        "\n            },"@
    } else {
        Seq::<char>::empty()
    }) + phantom_inits(es) + "\n        };\n\n        Ok(thing)\n    }\n}\n"@;
    assert(arg_parsing_text(b) =~= (head + pre) + arg_param(e) + (post + tail));
    if e.prop.spec_is_parameter() {
        let kk = kebab_case_of(e.name);
        let rest = "\").map(|_| {\n                        value_t!(m, \""@ + kk + "\", "@ + e.ty
            + ").unwrap_or_else(|e| e.exit())\n                    })\n                }),"@ + "\n"@;
        assert(arg_param(e) =~= "\n            param_"@ + snake_case_of(e.name)
            + ": matches.and_then(|m| {\n                    m.value_of(\""@ + kk + rest);
        let r2 = ":"@ + "\n            long: "@ + kk + (if e.prop.spec_is_required() {
            "\n            required: true"@
        } else {
            Seq::empty()
        }) + (match e.desc {
            Some(d) => "\n            help: "@ + debug_text_of(d),
            None => Seq::empty(),
        }) + "\n            takes_value: true"@;
        assert(clap_arg(e) =~= "\n        - "@ + kk + r2);
    }
    reveal(arg_parsing_head);
    if b.body_required {
        let p0 = "\n#[allow(unused_variables)]\nimpl "@ + b.spec_name() + b.spec_generics(ParamsMode::ChangeAll)
            + " {\n    pub(crate) fn from_args(matches: Option<&clap::ArgMatches<'_>>) -> Result<Self, crate::ClientError> {"@
            + "\n        let thing = "@ + b.spec_name() + " {"@ + (if b.spec_needs_container() {
            "\n            inner: "@ + b.spec_container_name() + " {"@
        } else {
            Seq::<char>::empty()
        }) + "\n            body: {\n                let path = matches.expect(\"no args for builder with body?\")."@;
        let p1 = ".expect(\"payload?\");\n                let fd: Box<dyn std::io::Read> = if path == \"-\" {\n                    Box::new(std::io::stdin()) as Box<_>\n                } else {\n                    Box::new(std::fs::File::open(&path).map_err(crate::ClientError::Io)?) as Box<_>\n                };\n\n                serde_json::from_reader(fd).map_err(crate::ClientError::Json)?\n            },"@;
        reveal_strlit("\n            body: {\n                let path = matches.expect(\"no args for builder with body?\").value_of(\"payload\").expect(\"payload?\");\n                let fd: Box<dyn std::io::Read> = if path == \"-\" {\n                    Box::new(std::io::stdin()) as Box<_>\n                } else {\n                    Box::new(std::fs::File::open(&path).map_err(crate::ClientError::Io)?) as Box<_>\n                };\n\n                serde_json::from_reader(fd).map_err(crate::ClientError::Json)?\n            },");
        reveal_strlit("\n            body: {\n                let path = matches.expect(\"no args for builder with body?\").");
        reveal_strlit(".expect(\"payload?\");\n                let fd: Box<dyn std::io::Read> = if path == \"-\" {\n                    Box::new(std::io::stdin()) as Box<_>\n                } else {\n                    Box::new(std::fs::File::open(&path).map_err(crate::ClientError::Io)?) as Box<_>\n                };\n\n                serde_json::from_reader(fd).map_err(crate::ClientError::Json)?\n            },");
        reveal_strlit("value_of(\"payload\")");
        assert(arg_parsing_head(b) =~= p0 + "value_of(\"payload\")"@ + p1);
    } else {
        assert(arg_parsing_head(b) =~= "\n#[allow(unused_variables)]\nimpl "@ + b.spec_name()
            + b.spec_generics(ParamsMode::ChangeAll)
            + " {\n    pub(crate) fn from_args(matches: Option<&clap::ArgMatches<'_>>) -> Result<Self, crate::ClientError> {"@
            + "\n        let thing = "@ + b.spec_name() + " {"@ + (if b.spec_needs_container() {
            "\n            inner: "@ + b.spec_container_name() + " {"@
        } else {
            Seq::<char>::empty()
        }) + Seq::<char>::empty());
    }
}

proof fn lemma_query_items_hold(es: Seq<FieldView>, nc: bool, k: int)
    requires
        0 <= k < es.len(),
        es[k].param_loc == Some(ParameterIn::Query),
    ensures
        exists|pre: Seq<char>, post: Seq<char>| query_items(es, nc) == pre + query_item(es[k], nc) + post,
    decreases es.len(),
{
    let q = query_items(es.drop_last(), nc);
    if k == es.len() - 1 {
        let sep = if q.len() > 0 {
            ","@
        } else {
            Seq::<char>::empty()
        };
        assert(query_items(es, nc) == (q + sep) + query_item(es[k], nc) + Seq::<char>::empty());
    } else {
        assert(es.drop_last()[k] == es[k]);
        lemma_query_items_hold(es.drop_last(), nc, k);
        let (pre, post) = choose|pre: Seq<char>, post: Seq<char>| q == pre + query_item(es[k], nc) + post;
        if es.last().param_loc == Some(ParameterIn::Query) {
            let sep = if q.len() > 0 {
                ","@
            } else {
                Seq::<char>::empty()
            };
            assert(query_items(es, nc) == pre + query_item(es[k], nc) + (post + sep + query_item(es.last(), nc)));
        } else {
            assert(query_items(es, nc) == pre + query_item(es[k], nc) + post);
        }
    }
}

/// Whether `t` occurs in `s`.
pub open spec fn holds_text(s: Seq<char>, t: Seq<char>) -> bool {
    exists|pre: Seq<char>, post: Seq<char>| s == pre + t + post
}

proof fn lemma_holds_text_trans(s: Seq<char>, t: Seq<char>, u: Seq<char>)
    requires
        holds_text(s, t),
        holds_text(t, u),
    ensures
        holds_text(s, u),
{
    let (p1, q1) = choose|pre: Seq<char>, post: Seq<char>| s == pre + t + post;
    let (p2, q2) = choose|pre: Seq<char>, post: Seq<char>| t == pre + u + post;
    assert(s =~= (p1 + p2) + u + (q2 + q1));
}

proof fn lemma_modify_holds_query(b: ApiObjectBuilder, q: Seq<char>)
    requires
        q.len() > 0,
    ensures
        holds_text(sendable_modify(b, q), q),
{
    reveal(sendable_modify);
    let head = "\n\n    fn modify(&self, req: reqwest::r#async::RequestBuilder) -> reqwest::r#async::RequestBuilder {"@
        + "\n        req"@ + (if b.body_required {
        "\n        .json(&self."@ + (if b.spec_needs_container() {
            "inner."@
        } else {
            Seq::empty()
        }) + "body)"@
    } else {
        Seq::empty()
    }) + "\n        .query(&["@;
    assert(sendable_modify(b, q) =~= head + q + ("\n        ])"@ + "\n    }"@));
}

proof fn lemma_sendable_holds_modify(b: ApiObjectBuilder)
    requires
        b.rel_path is Some,
        b.method is Some,
    ensures
        holds_text(sendable_text(b), sendable_modify(b, query_items(b.spec_struct_fields(), b.spec_needs_container()))),
{
    let es = b.spec_struct_fields();
    let nc = b.spec_needs_container();
    let start = sendable_head(b, b.method->0) + sendable_path(b.rel_path->0@, path_items(es, nc)) + "\n    }"@;
    assert(sendable_text(b) == start + sendable_modify(b, query_items(es, nc)) + "\n}\n"@);
}

/// **Law.** Each query parameter of an operation builder is sent under its
/// name exactly as the specification gives it: the `Sendable` impl holds,
/// for every query parameter entry, the pair `("<name>", ...)` whose value
/// is the builder's `param_<snake-cased name>` slot.
#[verifier::spinoff_prover]
#[verifier::rlimit(50)]
pub proof fn law_query_pairs_keyed_by_name(b: ApiObjectBuilder, k: int)
    requires
        b.rel_path is Some,
        b.method is Some,
        0 <= k < b.spec_struct_fields().len(),
        b.spec_struct_fields()[k].param_loc == Some(ParameterIn::Query),
    ensures
        holds_text(
            sendable_text(b),
            "\n            (\""@ + b.spec_struct_fields()[k].name + "\", self."@ + (if b.spec_needs_container() {
                "inner."@
            } else {
                Seq::<char>::empty()
            }) + "param_"@ + snake_case_of(b.spec_struct_fields()[k].name)
                + ".as_ref().map(std::string::ToString::to_string))"@,
        ),
{
    let es = b.spec_struct_fields();
    let nc = b.spec_needs_container();
    let e = es[k];
    lemma_query_items_hold(es, nc, k);
    let q = query_items(es, nc);
    reveal_strlit("\n            (\"");
    assert(query_item(e, nc).len() > 0);
    assert(holds_text(q, query_item(e, nc)));
    assert(q.len() > 0);
    lemma_modify_holds_query(b, q);
    lemma_sendable_holds_modify(b);
    lemma_holds_text_trans(sendable_modify(b, q), q, query_item(e, nc));
    lemma_holds_text_trans(sendable_text(b), sendable_modify(b, q), query_item(e, nc));
}

/// **Law.** The clap argument of a parameter is declared under its
/// kebab-cased name, and right after its `long` name it says
/// `required: true` exactly when the parameter is required; an optional
/// parameter goes on with its help or with `takes_value`.
#[verifier::spinoff_prover]
#[verifier::rlimit(50)]
pub proof fn law_clap_arg_required_iff_required(e: FieldView)
    ensures
        ({
            let k = kebab_case_of(e.name);
            let p = "\n        - "@ + k + ":"@ + "\n            long: "@ + k;
            &&& clap_arg(e).take(p.len() as int) == p
            &&& e.prop.spec_is_required() ==> clap_arg(e).skip(p.len() as int).take(27)
                == "\n            required: true"@
            &&& !e.prop.spec_is_required() ==> (clap_arg(e).skip(p.len() as int).take(19) == "\n            help: "@
                || clap_arg(e).skip(p.len() as int) == "\n            takes_value: true"@)
        }),
{
    let k = kebab_case_of(e.name);
    let p = "\n        - "@ + k + ":"@ + "\n            long: "@ + k;
    let req = if e.prop.spec_is_required() {
        "\n            required: true"@
    } else {
        Seq::<char>::empty()
    };
    let help = match e.desc {
        Some(d) => "\n            help: "@ + debug_text_of(d),
        None => Seq::<char>::empty(),
    };
    let rest = req + help + "\n            takes_value: true"@;
    assert(clap_arg(e) =~= p + rest);
    assert((p + rest).take(p.len() as int) =~= p);
    assert((p + rest).skip(p.len() as int) =~= rest);
    reveal_strlit("\n            required: true");
    reveal_strlit("\n            help: ");
    if e.prop.spec_is_required() {
        assert(rest.take(27) =~= "\n            required: true"@);
    } else {
        match e.desc {
            Some(d) => {
                assert(rest.take(19) =~= "\n            help: "@);
            },
            None => {
                assert(rest =~= "\n            takes_value: true"@);
            },
        }
    }
}

} // verus!
