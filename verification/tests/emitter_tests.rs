use paperclip::emitter::{
    matching_unit_type, resolve_parameter_type, validate_collection_format, DefinitionContext,
    EmittedUnit, Items,
};
use paperclip::models::{CollectionFormat, DataType, DataTypeFormat, ParameterIn};
use paperclip::swagger::SwaggerError;

#[test]
fn matching_unit_types() {
    assert_eq!(matching_unit_type(Some(DataTypeFormat::Int32), Some(DataType::Integer)), Some("i32"));
    assert_eq!(matching_unit_type(Some(DataTypeFormat::Float), None), Some("f32"));
    assert_eq!(matching_unit_type(None, Some(DataType::Integer)), Some("i64"));
    assert_eq!(matching_unit_type(Some(DataTypeFormat::Uuid), Some(DataType::String)), Some("String"));
    assert_eq!(matching_unit_type(None, Some(DataType::Boolean)), Some("bool"));
    assert_eq!(matching_unit_type(None, Some(DataType::Array)), None);
    assert_eq!(matching_unit_type(None, None), None);
}

#[test]
fn resolve_simple_and_file_parameters() {
    assert_eq!(resolve_parameter_type(Some(DataType::Number), None, None), Some((String::from("f64"), vec![])));
    assert_eq!(resolve_parameter_type(Some(DataType::File), None, None), Some((String::from("--FILE--"), vec![])));
    assert_eq!(resolve_parameter_type(Some(DataType::Object), None, None), None);
    assert_eq!(resolve_parameter_type(Some(DataType::Array), None, None), None);
}

#[test]
fn resolve_nested_array_parameters() {
    let inner = Items {
        data_type: Some(DataType::Integer),
        format: Some(DataTypeFormat::Int64),
        collection_format: Some(CollectionFormat::Multi),
        items: None,
    };
    let outer = Items {
        data_type: Some(DataType::Array),
        format: None,
        collection_format: Some(CollectionFormat::Ssv),
        items: Some(Box::new(inner)),
    };
    assert_eq!(
        resolve_parameter_type(Some(DataType::Array), None, Some(&outer)),
        Some((String::from("Vec<Vec<i64>>"), vec![CollectionFormat::Ssv, CollectionFormat::Multi]))
    );
    let plain = Items { data_type: Some(DataType::String), format: None, collection_format: None, items: None };
    assert_eq!(
        resolve_parameter_type(Some(DataType::Array), None, Some(&plain)),
        Some((String::from("Vec<String>"), vec![CollectionFormat::Csv]))
    );
    let unknown = Items { data_type: Some(DataType::Object), format: None, collection_format: None, items: None };
    assert_eq!(resolve_parameter_type(Some(DataType::Array), None, Some(&unknown)), None);
}

#[test]
fn validate_keeps_multi_in_query_root() {
    let mut fmts = vec![CollectionFormat::Ssv, CollectionFormat::Multi];
    validate_collection_format("p", Some(DataType::Array), ParameterIn::Query, Some(CollectionFormat::Multi), &mut fmts);
    assert_eq!(fmts, vec![CollectionFormat::Multi, CollectionFormat::Ssv]);
}

#[test]
fn validate_replaces_multi_outside_url_encoding() {
    let mut fmts = vec![CollectionFormat::Csv];
    validate_collection_format("h", Some(DataType::Array), ParameterIn::Header, Some(CollectionFormat::Multi), &mut fmts);
    assert_eq!(fmts, vec![CollectionFormat::Csv]);
}

#[test]
fn validate_replaces_nested_multi() {
    let mut fmts = vec![CollectionFormat::Multi, CollectionFormat::Pipes];
    validate_collection_format("q", Some(DataType::Array), ParameterIn::FormData, Some(CollectionFormat::Multi), &mut fmts);
    assert_eq!(fmts, vec![CollectionFormat::Multi, CollectionFormat::Csv]);
    let mut single = vec![CollectionFormat::Multi, CollectionFormat::Multi];
    validate_collection_format("q", Some(DataType::Array), ParameterIn::Query, None, &mut single);
    assert_eq!(single, vec![CollectionFormat::Csv, CollectionFormat::Csv]);
    let mut lone = vec![CollectionFormat::Multi, CollectionFormat::Csv];
    validate_collection_format("q", Some(DataType::Array), ParameterIn::Query, Some(CollectionFormat::Csv), &mut lone);
    assert_eq!(lone, vec![CollectionFormat::Csv, CollectionFormat::Csv]);
}

#[test]
fn validate_leaves_non_arrays_alone() {
    let mut fmts = vec![CollectionFormat::Multi];
    validate_collection_format("x", Some(DataType::String), ParameterIn::Path, None, &mut fmts);
    assert_eq!(fmts, vec![CollectionFormat::Multi]);
}

#[test]
fn emitted_unit_known_types() {
    let u = EmittedUnit::Known(String::from("Pet"));
    assert_eq!(u.known_type(), "Pet");
    let m = u.map_known(String::from("Vec<Pet>"));
    assert_eq!(m.known_type(), "Vec<Pet>");
    let a = EmittedUnit::KnownButAnonymous(String::from("A"), vec![]).map_known(String::from("B"));
    match a {
        EmittedUnit::KnownButAnonymous(t, o) => {
            assert_eq!(t, "B");
            assert!(o.is_empty());
        },
        _ => panic!("expected an anonymous unit"),
    }
}

#[test]
fn definition_context_builders() {
    let c = DefinitionContext::default();
    assert!(!c.define);
    assert!(c.parents.is_empty());
    let c = c.add_parent("Pet").add_parent("tags").define(true);
    assert!(c.define);
    assert_eq!(c.parents, vec!["Pet", "tags"]);
}

#[test]
fn swagger_error_messages() {
    assert_eq!(
        SwaggerError::JSONSpecificationNotFound.message(),
        "JSON specification not found.\nYou have to run with_json_spec_at(path) first."
    );
    assert_eq!(SwaggerError::SwaggerUIRenderingError.message(), "An error occurred while rendering Swagger-UI");
}
