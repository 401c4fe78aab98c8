use paperclip::models::HttpMethod;
use paperclip::object::{ApiObject, OpRequirement};
use paperclip::requirements::text_less;

fn req(id: &str) -> OpRequirement {
    OpRequirement {
        id: Some(String::from(id)),
        description: None,
        params: vec![],
        body_required: false,
        listable: false,
        response_ty_path: None,
    }
}

#[test]
fn texts_are_ordered_by_character() {
    assert!(text_less("/a", "/b"));
    assert!(text_less("/a", "/ab"));
    assert!(!text_less("/ab", "/a"));
    assert!(!text_less("/a", "/a"));
    assert!(text_less("", "a"));
    assert!(text_less("Z", "a"));
}

#[test]
fn binding_keeps_paths_and_methods_ordered() {
    let mut o = ApiObject::with_name("Pet");
    o.bind_operation("/pets", HttpMethod::Post, req("create"));
    o.bind_operation("/pets", HttpMethod::Get, req("list"));
    o.bind_operation("/a", HttpMethod::Delete, req("remove"));
    assert_eq!(o.paths.len(), 2);
    assert_eq!(o.paths[0].0, "/a");
    assert_eq!(o.paths[1].0, "/pets");
    let ops = &o.paths[1].1.req;
    assert_eq!(ops.len(), 2);
    assert_eq!(ops[0].0, HttpMethod::Get);
    assert_eq!(ops[0].1.id, Some(String::from("list")));
    assert_eq!(ops[1].0, HttpMethod::Post);
    assert!(o.paths[1].1.params.is_empty());
}

#[test]
fn binding_again_replaces_the_requirement() {
    let mut o = ApiObject::with_name("Pet");
    o.bind_operation("/pets", HttpMethod::Get, req("first"));
    o.bind_operation("/pets", HttpMethod::Get, req("second"));
    assert_eq!(o.paths.len(), 1);
    assert_eq!(o.paths[0].1.req.len(), 1);
    assert_eq!(o.paths[0].1.req[0].1.id, Some(String::from("second")));
}
