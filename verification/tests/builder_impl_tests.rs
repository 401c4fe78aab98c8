use paperclip::models::{HttpMethod, ParameterIn};
use paperclip::object::{ApiObject, ApiObjectBuilder, ObjectField, Parameter};

fn field(name: &str, ty: &str, required: bool) -> ObjectField {
    ObjectField {
        name: String::from(name),
        ty_path: String::from(ty),
        description: None,
        is_required: required,
        needs_any: false,
        boxed: false,
        children_req: vec![],
    }
}

#[test]
fn object_builder_setter_sets_the_body_field() {
    let mut o = ApiObject::with_name("Pet");
    o.fields.push(field("name", "String", true));
    let bs = o.builders("");
    let b = &bs[0];
    let fields = b.struct_fields_iter();
    assert_eq!(fields.len(), 1);
    let mut s = String::new();
    assert!(b.impl_repr().write_property_method(fields[0], &mut s).is_ok());
    assert_eq!(
        s,
        "    #[inline]\n    pub fn name(mut self, value: impl Into<String>) -> PetBuilder<generics::NameExists> {\n        self.body.name = value.into();\n        unsafe { std::mem::transmute(self) }\n    }\n"
    );
}

#[test]
fn object_builder_gets_no_sendable_impl_and_no_arg_parsing() {
    let o = ApiObject::with_name("Pet");
    let bs = o.builders("");
    let b = &bs[0];
    let mut s = String::new();
    b.impl_repr().write_sendable_impl_if_needed(&mut s);
    b.impl_repr().write_arg_parsing(&mut s);
    assert_eq!(s, "");
    let mut t = String::new();
    assert!(b.impl_repr().fmt(&mut t).is_ok());
    assert_eq!(t, "");
}

#[test]
fn operation_builder_gets_arg_parsing() {
    let params = vec![Parameter {
        name: String::from("petId"),
        description: None,
        ty_path: String::from("i64"),
        required: true,
        presence: ParameterIn::Path,
        delimiting: vec![],
    }];
    let b = ApiObjectBuilder {
        idx: 0,
        is_list_op: false,
        multiple_builders_exist: false,
        rel_path: Some("/pets/{petId}"),
        helper_module_prefix: "crate::",
        op_id: None,
        method: Some(HttpMethod::Get),
        description: None,
        object: "Pet",
        body_required: false,
        fields: &[],
        global_params: &[],
        local_params: &params,
        response: None,
    };
    let mut s = String::new();
    b.impl_repr().write_arg_parsing(&mut s);
    assert!(s.contains("fn from_args"));
    assert!(s.contains("param_pet_id"));
    let mut t = String::new();
    b.impl_repr().write_sendable_impl_if_needed(&mut t);
    assert!(t.contains("param_pet_id"));
}

fn op_builder<'a>(params: &'a [Parameter], body_required: bool, fields: &'a [ObjectField]) -> ApiObjectBuilder<'a> {
    ApiObjectBuilder {
        idx: 0,
        is_list_op: false,
        multiple_builders_exist: false,
        rel_path: Some("/pets"),
        helper_module_prefix: "crate::",
        op_id: None,
        method: Some(HttpMethod::Get),
        description: None,
        object: "Pet",
        body_required,
        fields,
        global_params: &[],
        local_params: params,
        response: None,
    }
}

#[test]
fn sendable_impl_has_modify_only_with_a_query_or_a_body() {
    let query = vec![Parameter {
        name: String::from("limit"),
        description: None,
        ty_path: String::from("i64"),
        required: false,
        presence: ParameterIn::Query,
        delimiting: vec![],
    }];
    let header = vec![Parameter {
        name: String::from("token"),
        description: None,
        ty_path: String::from("String"),
        required: false,
        presence: ParameterIn::Header,
        delimiting: vec![],
    }];
    let mut with_query = String::new();
    op_builder(&query, false, &[]).impl_repr().write_sendable_impl_if_needed(&mut with_query);
    assert_eq!(with_query.matches("fn rel_path(").count(), 1);
    assert!(with_query.contains("fn modify("));
    let mut without = String::new();
    op_builder(&header, false, &[]).impl_repr().write_sendable_impl_if_needed(&mut without);
    assert_eq!(without.matches("fn rel_path(").count(), 1);
    assert!(!without.contains("fn modify("));
    let fields = vec![field("name", "String", true)];
    let mut with_body = String::new();
    op_builder(&header, true, &fields).impl_repr().write_sendable_impl_if_needed(&mut with_body);
    assert!(with_body.contains("fn modify("));
    let mut args = String::new();
    op_builder(&header, true, &fields).impl_repr().write_arg_parsing(&mut args);
    assert!(args.contains("value_of(\"payload\")"));
    assert!(args.contains("param_token"));
    assert!(args.contains("m.value_of(\"token\")"));
}
