use paperclip::collector::{
    bind_to_first, collect_from_operation, collect_parameter, collect_parameters, get_2xx_response_schema,
    merge_parameters, BlindTarget, ParameterInput, ParameterSpec, PathOperation,
};
use paperclip::definitions::{DefaultEmitter, Schema};
use paperclip::emitter::Items;
use paperclip::models::{CollectionFormat, DataType, HttpMethod, ParameterIn};
use paperclip::object::{ApiObject, Parameter};
use paperclip::cli::{check_version, parse_version, OApiVersion};
use paperclip::definitions::PaperClipError;

fn emitter() -> DefaultEmitter {
    DefaultEmitter { ns_sep: String::from("."), mod_prefix: String::from("crate::") }
}

fn schema(name: Option<&str>, data_type: Option<DataType>) -> Schema {
    Schema {
        name: name.map(String::from),
        description: None,
        data_type,
        format: None,
        items: None,
        properties: None,
        required: None,
        additional_properties: None,
        cyclic: false,
        contains_any: false,
    }
}

fn param(name: &str, presence: ParameterIn) -> Parameter {
    Parameter {
        name: String::from(name),
        description: None,
        ty_path: String::from("String"),
        required: false,
        presence,
        delimiting: vec![],
    }
}

fn spec(name: &str, in_: ParameterIn, data_type: DataType) -> ParameterSpec {
    ParameterSpec {
        name: String::from(name),
        description: Some(String::from("d")),
        in_,
        required: false,
        data_type: Some(data_type),
        format: None,
        items: None,
        collection_format: None,
    }
}

fn op(responses: Vec<(String, Option<Schema>)>) -> PathOperation {
    PathOperation { operation_id: Some(String::from("op")), description: None, responses }
}

#[test]
fn path_parameters_are_required() {
    let p = collect_parameter(&spec("id", ParameterIn::Path, DataType::Integer)).unwrap();
    assert_eq!(p.name, "id");
    assert_eq!(p.ty_path, "i64");
    assert!(p.required);
    assert_eq!(p.presence, ParameterIn::Path);
    assert_eq!(p.description, Some(String::from("d")));
    let q = collect_parameter(&spec("q", ParameterIn::Query, DataType::String)).unwrap();
    assert!(!q.required);
}

#[test]
fn array_parameters_get_validated_formats() {
    let mut s = spec("tags", ParameterIn::Header, DataType::Array);
    s.items = Some(Items { data_type: Some(DataType::String), format: None, collection_format: None, items: None });
    s.collection_format = Some(CollectionFormat::Multi);
    let p = collect_parameter(&s).unwrap();
    assert_eq!(p.ty_path, "Vec<String>");
    assert_eq!(p.delimiting, vec![CollectionFormat::Csv]);
}

#[test]
fn parameters_of_unknown_types_are_skipped() {
    assert!(collect_parameter(&spec("o", ParameterIn::Query, DataType::Object)).is_none());
}

#[test]
fn unused_path_parameters_are_added_once() {
    let own = vec![param("a", ParameterIn::Query)];
    let unused = vec![param("a", ParameterIn::Header), param("b", ParameterIn::Path), param("b", ParameterIn::Query)];
    let merged = merge_parameters(own, &unused, false);
    assert_eq!(merged.len(), 2);
    assert_eq!(merged[0].name, "a");
    assert_eq!(merged[0].presence, ParameterIn::Query);
    assert_eq!(merged[1].name, "b");
    assert_eq!(merged[1].presence, ParameterIn::Path);
}

#[test]
fn form_data_is_dropped_when_there_is_a_body() {
    let own = vec![param("f", ParameterIn::FormData), param("q", ParameterIn::Query)];
    let merged = merge_parameters(own, &[param("g", ParameterIn::FormData)], true);
    assert_eq!(merged.len(), 1);
    assert_eq!(merged[0].name, "q");
    let kept = merge_parameters(vec![param("f", ParameterIn::FormData)], &[], false);
    assert_eq!(kept.len(), 1);
}

#[test]
fn first_success_response_schema() {
    let o = op(vec![
        (String::from("200"), None),
        (String::from("201"), Some(schema(Some("Pet"), Some(DataType::Object)))),
        (String::from("202"), Some(schema(Some("Other"), Some(DataType::Object)))),
    ]);
    assert_eq!(get_2xx_response_schema(&o).unwrap().name, Some(String::from("Pet")));
    let none = op(vec![(String::from("404"), Some(schema(None, None)))]);
    assert!(get_2xx_response_schema(&none).is_none());
}

#[test]
fn schema_requirements_need_the_body() {
    let e = emitter();
    let o = op(vec![(String::from("200"), Some(schema(Some("Pet"), Some(DataType::Object))))]);
    let q = e.schema_requirement(&o, vec![]).unwrap();
    assert!(q.body_required);
    assert!(!q.listable);
    assert_eq!(q.id, Some(String::from("op")));
    assert_eq!(q.response_ty_path, Some(String::from("crate::pet::Pet")));
}

#[test]
fn blind_requirements_follow_the_response() {
    let e = emitter();
    let o = op(vec![(String::from("200"), Some(schema(Some("Pet"), Some(DataType::Object))))]);
    let (t, q) = e.blind_requirement(&o, vec![]).unwrap().unwrap();
    assert_eq!(t, BlindTarget::Response);
    assert!(!q.body_required);
    assert!(!q.listable);
    assert_eq!(q.response_ty_path, Some(String::from("Pet")));

    let mut list = schema(None, Some(DataType::Array));
    list.items = Some(Box::new(schema(Some("Pet"), Some(DataType::Object))));
    let (t, q) = e.blind_requirement(&op(vec![(String::from("200"), Some(list))]), vec![]).unwrap().unwrap();
    assert_eq!(t, BlindTarget::Items);
    assert!(q.listable);
    assert_eq!(q.response_ty_path, Some(String::from("Pet")));

    let (t, q) = e
        .blind_requirement(&op(vec![(String::from("200"), Some(schema(None, Some(DataType::String))))]), vec![])
        .unwrap()
        .unwrap();
    assert_eq!(t, BlindTarget::Miscellaneous);
    assert_eq!(q.response_ty_path, Some(String::from("String")));

    assert!(e.blind_requirement(&op(vec![]), vec![]).unwrap().is_none());
}

#[test]
fn miscellaneous_object() {
    let o = emitter().unknown_op_object();
    assert_eq!(o.name, "Miscellaneous");
    assert_eq!(
        o.description,
        Some(String::from("Namespace for operations that cannot be added to any other modules."))
    );
}

#[test]
fn binding_to_the_module_object() {
    let e = emitter();
    let mut objects = vec![ApiObject::with_name("Pet"), ApiObject::with_name("PetOwner")];
    let o = op(vec![]);
    e.bind_schema_to_operation(&mut objects, "/pets", HttpMethod::Post, &o, vec![param("x", ParameterIn::Query)]).unwrap();
    assert_eq!(objects[0].paths.len(), 1);
    assert_eq!(objects[0].paths[0].0, "/pets");
    assert!(objects[0].paths[0].1.req[0].1.body_required);
    assert!(objects[1].paths.is_empty());
    let q = e.blind_requirement(&op(vec![(String::from("200"), Some(schema(Some("Pet"), Some(DataType::Object))))]), vec![]).unwrap().unwrap().1;
    bind_to_first(&mut objects, "/pets", HttpMethod::Get, q);
    assert_eq!(objects[0].paths[0].1.req.len(), 2);
    assert_eq!(objects[0].paths[0].1.req[0].0, HttpMethod::Get);
}

#[test]
fn openapi_versions() {
    assert_eq!(parse_version("v2"), Ok(OApiVersion::V2));
    assert_eq!(parse_version("v3"), Ok(OApiVersion::V3));
    assert_eq!(parse_version("v4"), Err(PaperClipError::UnsupportedOpenAPIVersion));
    assert!(check_version(OApiVersion::V2).is_ok());
    assert_eq!(check_version(OApiVersion::V3), Err(PaperClipError::UnsupportedOpenAPIVersion));
    assert_eq!(PaperClipError::UnsupportedOpenAPIVersion.message(), "This version of OpenAPI is unsupported.");
}

fn no_type(name: &str, in_: ParameterIn) -> ParameterSpec {
    let mut s = spec(name, in_, DataType::String);
    s.data_type = None;
    s
}

#[test]
fn collect_parameters_keeps_known_types_and_finds_the_body() {
    let inputs = vec![
        ParameterInput::Plain(spec("limit", ParameterIn::Query, DataType::Integer)),
        ParameterInput::Schema { module: String::from("pets/pet.rs"), registered: true },
        ParameterInput::Plain(spec("id", ParameterIn::Path, DataType::String)),
        ParameterInput::Schema { module: String::from("unknown.rs"), registered: false },
        ParameterInput::Plain(no_type("weird", ParameterIn::Path)),
    ];
    let mut template = vec![String::from("id"), String::from("weird"), String::from("other")];
    let (params, schema_path) = collect_parameters(&inputs, &mut template);
    let names: Vec<&str> = params.iter().map(|p| p.name.as_str()).collect();
    assert_eq!(names, vec!["limit", "id"]);
    assert_eq!(params[0].ty_path, "i64");
    assert!(params[1].required);
    assert_eq!(schema_path, Some(String::from("pets/pet.rs")));
    assert_eq!(template, vec![String::from("other")]);
}

#[test]
fn collect_parameters_without_schema_has_no_body() {
    let inputs = vec![ParameterInput::Plain(spec("q", ParameterIn::Query, DataType::Boolean))];
    let mut template = vec![String::from("id")];
    let (params, schema_path) = collect_parameters(&inputs, &mut template);
    assert_eq!(params.len(), 1);
    assert_eq!(params[0].ty_path, "bool");
    assert_eq!(schema_path, None);
    assert_eq!(template, vec![String::from("id")]);
}

#[test]
fn collect_from_operation_merges_and_drops_form_data_with_a_body() {
    let inputs = vec![
        ParameterInput::Plain(spec("id", ParameterIn::Path, DataType::String)),
        ParameterInput::Schema { module: String::from("pets/pet.rs"), registered: true },
    ];
    let unused = vec![param("id", ParameterIn::Query), param("file", ParameterIn::FormData), param("h", ParameterIn::Header)];
    let mut template = vec![String::from("id")];
    let (params, schema_path) = collect_from_operation(&inputs, &unused, &mut template);
    let names: Vec<&str> = params.iter().map(|p| p.name.as_str()).collect();
    assert_eq!(names, vec!["id", "h"]);
    assert_eq!(params[0].presence, ParameterIn::Path);
    assert_eq!(schema_path, Some(String::from("pets/pet.rs")));
    assert!(template.is_empty());
}

#[test]
fn collect_from_operation_keeps_form_data_without_a_body() {
    let inputs = vec![ParameterInput::Plain(spec("name", ParameterIn::FormData, DataType::String))];
    let unused = vec![param("file", ParameterIn::FormData)];
    let mut template: Vec<String> = vec![];
    let (params, schema_path) = collect_from_operation(&inputs, &unused, &mut template);
    let names: Vec<&str> = params.iter().map(|p| p.name.as_str()).collect();
    assert_eq!(names, vec!["name", "file"]);
    assert_eq!(schema_path, None);
}

#[test]
fn blind_module_follows_the_target() {
    let e = emitter();
    let pet = schema(Some("io.k8s.Pet"), Some(DataType::Object));
    assert_eq!(e.blind_module(BlindTarget::Response, &pet), Some(vec![String::from("io"), String::from("k8s"), String::from("pet")]));
    let mut list = schema(None, Some(DataType::Array));
    list.items = Some(Box::new(schema(Some("PetOwner"), Some(DataType::Object))));
    assert_eq!(e.blind_module(BlindTarget::Items, &list), Some(vec![String::from("pet_owner")]));
    assert_eq!(e.blind_module(BlindTarget::Response, &list), None);
    assert_eq!(e.blind_module(BlindTarget::Miscellaneous, &list), Some(vec![String::from("miscellaneous")]));
}
