use paperclip::object::{is_keyword, ApiObject, ObjectField, Property};

fn field(name: &str, ty: &str, desc: Option<&str>, required: bool) -> ObjectField {
    ObjectField {
        name: String::from(name),
        ty_path: String::from(ty),
        description: desc.map(String::from),
        is_required: required,
        needs_any: false,
        boxed: false,
        children_req: vec![],
    }
}

#[test]
fn with_name_makes_an_empty_object() {
    let o = ApiObject::with_name("Pet");
    assert_eq!(o.name, "Pet");
    assert!(o.description.is_none());
    assert!(o.path.is_empty());
    assert!(o.fields.is_empty());
    assert!(o.paths.is_empty());
}

#[test]
fn properties() {
    assert!(Property::RequiredField.is_required());
    assert!(Property::RequiredParam.is_required());
    assert!(!Property::OptionalParam.is_required());
    assert!(Property::OptionalParam.is_parameter());
    assert!(!Property::OptionalField.is_parameter());
    assert!(Property::OptionalField.is_field());
}

#[test]
fn keywords() {
    assert!(is_keyword("type"));
    assert!(is_keyword("async"));
    assert!(!is_keyword("name"));
}

#[test]
fn object_definition_with_docs_and_renamed_keyword() {
    let mut o = ApiObject::with_name("Pet");
    o.description = Some(String::from("A pet"));
    o.fields.push(field("id", "i64", None, true));
    o.fields.push(field("type", "String", Some("Kind [x]"), false));
    let mut s = String::new();
    assert!(o.fmt(&mut s).is_ok());
    assert_eq!(
        s,
        "\n/// A pet\n#[derive(Debug, Default, Clone, Deserialize, Serialize)]\npub struct Pet {\n    pub id: i64,\n    /// Kind \\[x\\]\n    #[serde(rename = \"type\")]\n    pub type_: Option<String>,\n}\n"
    );
}

#[test]
fn object_definition_without_fields() {
    let o = ApiObject::with_name("Empty");
    let mut s = String::new();
    assert!(o.fmt(&mut s).is_ok());
    assert_eq!(s, "#[derive(Debug, Default, Clone, Deserialize, Serialize)]\npub struct Empty {}\n");
}

#[test]
fn docs_split_lines_and_trim_their_ends() {
    let mut s = String::new();
    assert!(ApiObject::write_docs(Some("first  \n\nthird"), &mut s, 1).is_ok());
    assert_eq!(s, "\n    /// first\n    ///\n    /// third\n");
    let mut t = String::new();
    assert!(ApiObject::write_docs(None, &mut t, 2).is_ok());
    assert_eq!(t, "");
}

#[test]
fn builders_of_an_unbound_object() {
    let o = ApiObject::with_name("Pet");
    let b = o.builders("crate::");
    assert_eq!(b.len(), 1);
    assert_eq!(b[0].object, "Pet");
    assert!(b[0].rel_path.is_none());
    assert!(b[0].method.is_none());
}
