use paperclip::definitions::{split, split_at_separator, DefaultEmitter, Extra, PaperClipError, Schema};
use paperclip::emitter::{DefinitionContext, EmittedUnit};
use paperclip::models::{DataType, DataTypeFormat};

fn emitter() -> DefaultEmitter {
    DefaultEmitter { ns_sep: String::from("."), mod_prefix: String::from("crate::") }
}

fn schema(name: Option<&str>, data_type: Option<DataType>) -> Schema {
    Schema {
        name: name.map(String::from),
        description: None,
        data_type,
        format: None,
        items: None,
        properties: None,
        required: None,
        additional_properties: None,
        cyclic: false,
        contains_any: false,
    }
}

fn known(r: Result<EmittedUnit, PaperClipError>) -> String {
    match r {
        Ok(EmittedUnit::Known(s)) => s,
        _ => panic!("expected a known type"),
    }
}

fn reuse<'a>() -> DefinitionContext<'a> {
    DefinitionContext::default()
}

#[test]
fn split_at_separators() {
    assert_eq!(split("a.b.c", "."), vec!["a", "b", "c"]);
    assert_eq!(split("a::b", "::"), vec!["a", "b"]);
    assert_eq!(split("a.", "."), vec!["a", ""]);
    assert_eq!(split("", "."), vec![""]);
    assert_eq!(split_at_separator("ab", ""), vec!["", "a", "b", ""]);
    assert_eq!(split_at_separator("x.y", "."), vec!["x", "y"]);
}

#[test]
fn names_of_definitions() {
    let e = emitter();
    let s = schema(Some("animals.Pet"), Some(DataType::Object));
    assert_eq!(e.def_ns_name(&s).unwrap(), vec!["animals", "pet"]);
    assert_eq!(e.def_name(&s).unwrap(), "Pet");
    let anon = schema(None, Some(DataType::Object));
    assert_eq!(e.def_name(&anon), Err(PaperClipError::MissingDefinitionName));
    assert_eq!(e.def_anon_name(&anon, &["Pet", "tags"]), Some(String::from("PetTags")));
    assert_eq!(e.def_anon_name(&anon, &[]), None);
}

#[test]
fn unit_file_and_any_types() {
    let e = emitter();
    let mut int = schema(None, Some(DataType::Integer));
    int.format = Some(DataTypeFormat::Int32);
    assert_eq!(known(e.build_def(&int, reuse())), "i32");
    assert!(matches!(e.build_def(&int, reuse().define(true)), Ok(EmittedUnit::Nothing)));
    assert_eq!(known(e.build_def(&schema(None, Some(DataType::File)), reuse())), "--FILE--");
    assert_eq!(known(e.build_def(&schema(None, None), reuse())), "Any");
    assert!(matches!(e.build_def(&schema(None, None), reuse().define(true)), Ok(EmittedUnit::Nothing)));
}

#[test]
fn arrays_are_vectors_of_their_items() {
    let e = emitter();
    let mut list = schema(None, Some(DataType::Array));
    list.items = Some(Box::new(schema(None, Some(DataType::String))));
    assert_eq!(known(e.build_def(&list, reuse())), "Vec<String>");
    let mut nested = schema(None, Some(DataType::Array));
    nested.items = Some(Box::new(list));
    assert_eq!(known(e.build_def(&nested, reuse())), "Vec<Vec<String>>");
}

#[test]
fn arrays_need_items() {
    let e = emitter();
    let r = e.build_def(&schema(Some("List"), Some(DataType::Array)), reuse());
    match r {
        Err(err) => {
            assert_eq!(err, PaperClipError::MissingArrayItem(Some(String::from("List"))));
            assert_eq!(err.message(), "Mising item schema for array: Some(\"List\")");
        },
        Ok(_) => panic!("expected an error"),
    }
}

#[test]
fn named_objects_are_reused_by_path() {
    let e = emitter();
    let s = schema(Some("animals.Pet"), Some(DataType::Object));
    assert_eq!(known(e.build_def(&s, reuse())), "crate::animals::pet::Pet");
}

#[test]
fn maps_of_additional_properties() {
    let e = emitter();
    let mut m = schema(None, Some(DataType::Object));
    m.additional_properties = Some(Extra::Schema(Box::new(schema(None, Some(DataType::Integer)))));
    assert_eq!(known(e.build_def(&m, reuse())), "std::collections::BTreeMap<String, i64>");
}

#[test]
fn defining_an_object_gives_its_struct_and_anonymous_objects() {
    let e = emitter();
    let mut id = schema(None, Some(DataType::Integer));
    id.format = Some(DataTypeFormat::Int64);
    let mut tags = schema(None, Some(DataType::Array));
    tags.items = Some(Box::new(schema(None, Some(DataType::String))));
    let mut owner = schema(None, Some(DataType::Object));
    owner.properties = Some(vec![(String::from("name"), schema(None, Some(DataType::String)))]);
    let mut pet = schema(Some("Pet"), Some(DataType::Object));
    pet.description = Some(String::from("A pet"));
    pet.properties = Some(vec![
        (String::from("id"), id),
        (String::from("owner"), owner),
        (String::from("tags"), tags),
    ]);
    pet.required = Some(vec![String::from("id")]);
    let objects = e.generate_from_definition(&pet).unwrap();
    assert_eq!(objects.len(), 2);
    let p = &objects[0];
    assert_eq!(p.name, "Pet");
    assert_eq!(p.description, Some(String::from("A pet")));
    assert_eq!(p.fields.len(), 3);
    assert_eq!(p.fields[0].name, "id");
    assert_eq!(p.fields[0].ty_path, "i64");
    assert!(p.fields[0].is_required);
    assert_eq!(p.fields[1].name, "owner");
    assert_eq!(p.fields[1].ty_path, "crate::pet::PetOwner");
    assert!(!p.fields[1].is_required);
    assert_eq!(p.fields[2].ty_path, "Vec<String>");
    let o = &objects[1];
    assert_eq!(o.name, "PetOwner");
    assert_eq!(o.fields.len(), 1);
    assert_eq!(o.fields[0].ty_path, "String");
}

#[test]
fn allowed_additional_properties_get_a_field() {
    let e = emitter();
    let mut bag = schema(Some("Bag"), Some(DataType::Object));
    bag.properties = Some(vec![]);
    bag.additional_properties = Some(Extra::Allowed(true));
    let objects = e.generate_from_definition(&bag).unwrap();
    assert_eq!(objects.len(), 1);
    assert_eq!(objects[0].fields.len(), 1);
    assert_eq!(objects[0].fields[0].name, "other_fields");
    assert_eq!(objects[0].fields[0].ty_path, "std::collections::BTreeMap<String, Any>");
    assert!(objects[0].fields[0].needs_any);
}

#[test]
fn fields_of_any_type_need_the_any_parameter() {
    let e = emitter();
    let mut thing = schema(Some("Thing"), Some(DataType::Object));
    let mut value = schema(None, None);
    value.contains_any = true;
    thing.properties = Some(vec![
        (String::from("id"), schema(None, Some(DataType::Integer))),
        (String::from("value"), value),
    ]);
    let objects = e.generate_from_definition(&thing).unwrap();
    assert_eq!(objects[0].fields.len(), 2);
    assert!(!objects[0].fields[0].needs_any);
    assert!(objects[0].fields[1].needs_any);
    assert_eq!(objects[0].fields[1].ty_path, "Any");
}

#[test]
fn type_aliases_define_nothing() {
    let e = emitter();
    assert!(e.generate_from_definition(&schema(Some("Id"), Some(DataType::String))).unwrap().is_empty());
}

#[test]
fn children_requirements_follow_items_and_maps() {
    let e = emitter();
    let mut inner = schema(None, Some(DataType::Object));
    inner.required = Some(vec![String::from("a"), String::from("b")]);
    let mut arr = schema(None, Some(DataType::Array));
    arr.items = Some(Box::new(inner));
    assert_eq!(e.children_requirements(&arr), vec!["a", "b"]);
    assert!(e.children_requirements(&schema(None, Some(DataType::String))).is_empty());
}

#[test]
fn path_error_message() {
    assert_eq!(
        PaperClipError::RelativePathNotUnique(String::from("/a")).message(),
        "Path similar to \"/a\" already exists."
    );
    assert_eq!(PaperClipError::MissingDefinitionName.message(), "Missing name for definition");
}
