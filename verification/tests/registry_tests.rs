use paperclip::collector::{
    check_template_params, path_template, validate_path_and_add_params, BlindTarget, PathOperation,
};
use paperclip::definitions::{DefaultEmitter, Schema};
use paperclip::models::{DataType, HttpMethod};
use paperclip::modules::ModuleTree;
use paperclip::object::{ApiObject, OpRequirement};
use paperclip::registry::{Binding, DefModules};

fn emitter() -> DefaultEmitter {
    DefaultEmitter { ns_sep: String::from("."), mod_prefix: String::from("crate::") }
}

fn req(id: &str) -> OpRequirement {
    OpRequirement {
        id: Some(String::from(id)),
        description: None,
        params: vec![],
        body_required: false,
        listable: false,
        response_ty_path: None,
    }
}

fn schema(name: Option<&str>, data_type: Option<DataType>) -> Schema {
    Schema {
        name: name.map(String::from),
        description: None,
        data_type,
        format: None,
        items: None,
        properties: None,
        required: None,
        additional_properties: None,
        cyclic: false,
        contains_any: false,
    }
}

#[test]
fn binding_to_a_registered_module() {
    let mut m = DefModules::new();
    m.insert(String::from("pets"), vec![ApiObject::with_name("Pet"), ApiObject::with_name("PetOwner")]);
    assert!(m.contains("pets"));
    assert!(m.bind_first("pets", "/pets", HttpMethod::Get, req("list")));
    assert!(!m.bind_first("owners", "/owners", HttpMethod::Get, req("x")));
    let objects = m.get("pets").unwrap();
    assert_eq!(objects[0].paths.len(), 1);
    assert_eq!(objects[0].paths[0].0, "/pets");
    assert!(objects[1].paths.is_empty());
}

#[test]
fn blind_binding_makes_the_miscellaneous_module_once() {
    let e = emitter();
    let mut m = DefModules::new();
    let mut tree = ModuleTree::new();
    let s = schema(None, Some(DataType::String));
    assert!(m.bind_blindly(&mut tree, &e, "/a", HttpMethod::Get, BlindTarget::Miscellaneous, &s, req("a")));
    assert!(m.bind_blindly(&mut tree, &e, "/b", HttpMethod::Put, BlindTarget::Miscellaneous, &s, req("b")));
    let misc = m.get("miscellaneous").unwrap();
    assert_eq!(misc.len(), 1);
    assert_eq!(misc[0].name, "Miscellaneous");
    assert_eq!(misc[0].path, "miscellaneous");
    assert_eq!(misc[0].paths.len(), 2);
    assert_eq!(tree.declarations().len(), 1);
}

#[test]
fn blind_binding_skips_an_unknown_module() {
    let e = emitter();
    let mut m = DefModules::new();
    let mut tree = ModuleTree::new();
    let pet = schema(Some("Pet"), Some(DataType::Object));
    assert!(!m.bind_blindly(&mut tree, &e, "/pets", HttpMethod::Get, BlindTarget::Response, &pet, req("p")));
    m.insert(String::from("pet"), vec![ApiObject::with_name("Pet")]);
    assert!(m.bind_blindly(&mut tree, &e, "/pets", HttpMethod::Get, BlindTarget::Response, &pet, req("p")));
    assert_eq!(m.get("pet").unwrap()[0].paths.len(), 1);
    assert!(tree.declarations().is_empty());
}

#[test]
fn binding_by_body_schema() {
    let e = emitter();
    let mut m = DefModules::new();
    m.insert(String::from("pet"), vec![ApiObject::with_name("Pet")]);
    let op = PathOperation { operation_id: Some(String::from("add")), description: None, responses: vec![] };
    assert_eq!(m.bind_schema(&e, "pet", "/pets", HttpMethod::Post, &op, vec![]), Ok(true));
    assert_eq!(m.bind_schema(&e, "owner", "/pets", HttpMethod::Post, &op, vec![]), Ok(false));
    assert!(m.get("pet").unwrap()[0].paths[0].1.req[0].1.body_required);
}

#[test]
fn path_templates_name_their_parameters() {
    assert_eq!(
        path_template("/v1/{resource}/v/{name}"),
        (String::from("/v1/:/v/:"), vec![String::from("resource"), String::from("name")])
    );
    assert_eq!(path_template("/a/{x{y}/z"), (String::from("/a/:/z"), vec![String::from("x{y")]));
    assert_eq!(path_template("/a/{b"), (String::from("/a/{b"), vec![]));
    assert_eq!(path_template("{a\n}"), (String::from("{a\n}"), vec![]));
}

#[test]
fn alike_paths_are_refused() {
    let mut seen = vec![];
    let mut names = vec![];
    assert_eq!(validate_path_and_add_params(&mut seen, &mut names, "/api/{foo}/{foo}"), Ok(()));
    assert_eq!(names, vec![String::from("foo")]);
    let mut names2 = vec![];
    let e = validate_path_and_add_params(&mut seen, &mut names2, "/api/{bar}/{baz}").unwrap_err();
    assert_eq!(e.message(), "Path similar to \"/api/{bar}/{baz}\" already exists.");
    assert_eq!(seen, vec![String::from("/api/:/:")]);
    // The template names are recorded before the path is refused.
    assert_eq!(names2, vec![String::from("bar"), String::from("baz")]);
}

#[test]
fn template_names_left_are_an_error() {
    assert!(check_template_params("/p", vec![]).is_ok());
    let e = check_template_params("/p/{id}", vec![String::from("id")]).unwrap_err();
    assert_eq!(e.message(), "Parameter(s) {\"id\"} aren't defined for templated path \"/p/{id}\"");
}

#[test]
fn binding_an_operation_by_body_or_response() {
    let e = emitter();
    let mut m = DefModules::new();
    let mut tree = ModuleTree::new();
    m.insert(String::from("pet"), vec![ApiObject::with_name("Pet")]);
    let add = PathOperation { operation_id: Some(String::from("add")), description: None, responses: vec![] };
    assert_eq!(
        m.bind_operation(&mut tree, &e, "/pets", HttpMethod::Post, &add, vec![], Some(String::from("pet"))),
        Ok(Binding::ToBody)
    );
    assert_eq!(
        m.bind_operation(&mut tree, &e, "/owners", HttpMethod::Post, &add, vec![], Some(String::from("owner"))),
        Ok(Binding::UnregisteredBody)
    );
    assert_eq!(m.bind_operation(&mut tree, &e, "/x", HttpMethod::Get, &add, vec![], None), Ok(Binding::Unbound));
    let get = PathOperation {
        operation_id: Some(String::from("get")),
        description: None,
        responses: vec![(String::from("200"), Some(schema(Some("Pet"), Some(DataType::Object))))],
    };
    assert_eq!(
        m.bind_operation(&mut tree, &e, "/pets/{id}", HttpMethod::Get, &get, vec![], None),
        Ok(Binding::ToResponse)
    );
    assert_eq!(m.get("pet").unwrap()[0].paths.len(), 2);
    let other = PathOperation {
        operation_id: None,
        description: None,
        responses: vec![(String::from("200"), Some(schema(Some("Owner"), Some(DataType::Object))))],
    };
    assert_eq!(
        m.bind_operation(&mut tree, &e, "/o", HttpMethod::Get, &other, vec![], None),
        Ok(Binding::UnknownResponse)
    );
    let text = PathOperation {
        operation_id: None,
        description: None,
        responses: vec![(String::from("200"), Some(schema(None, Some(DataType::String))))],
    };
    assert_eq!(m.bind_operation(&mut tree, &e, "/t", HttpMethod::Get, &text, vec![], None), Ok(Binding::ToResponse));
    assert!(m.contains("miscellaneous"));
}
