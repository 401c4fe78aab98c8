use paperclip::models::HttpMethod;
use paperclip::definitions::Schema;
use paperclip::mount::{
    delete, get, post, resource, scope, trim_start_matches, App, DefinitionMap, PathMap, Resource, Route, Scope,
};

const ALL: [HttpMethod; 7] = [
    HttpMethod::Get,
    HttpMethod::Put,
    HttpMethod::Post,
    HttpMethod::Delete,
    HttpMethod::Options,
    HttpMethod::Head,
    HttpMethod::Patch,
];

fn op_of(map: &PathMap<u32>, path: &str, m: HttpMethod) -> Option<u32> {
    map.get(path).and_then(|ops| ops.get(m).copied())
}

#[test]
fn route_without_method_answers_every_method() {
    let mut res = Resource::new("/pets").route(Route::new().to(7u32, DefinitionMap::new()));
    let ops = res.operations();
    for m in ALL.iter() {
        assert_eq!(ops.get(*m), Some(&7));
    }
    assert_eq!(res.path(), "/pets");
}

#[test]
fn route_with_method_answers_that_method() {
    let mut res = Resource::new("/pets").route(get().to(1u32, DefinitionMap::new())).route(post().to(2u32, DefinitionMap::new()));
    let ops = res.operations();
    assert_eq!(ops.get(HttpMethod::Get), Some(&1));
    assert_eq!(ops.get(HttpMethod::Post), Some(&2));
    assert_eq!(ops.get(HttpMethod::Put), None);
}

#[test]
fn later_route_replaces_earlier_for_same_method() {
    let mut res = Resource::new("/pets").route(get().to(1u32, DefinitionMap::new())).route(get().to(3u32, DefinitionMap::new()));
    let ops = res.operations();
    assert_eq!(ops.get(HttpMethod::Get), Some(&3));
}

#[test]
fn route_without_handler_records_nothing() {
    let mut res = Resource::<u32>::new("/pets").route(delete());
    let ops = res.operations();
    assert!(ops.is_empty());
}

#[test]
fn resource_without_operations_adds_no_path() {
    let app = App::new(None).service_resource(Resource::<u32>::new("/empty"));
    assert_eq!(app.paths().len(), 0);
    assert!(app.paths().get("/empty").is_none());
}

#[test]
fn resources_on_one_path_merge_their_operations() {
    let app = App::new(None)
        .service_resource(Resource::new("/pets").route(get().to(1u32, DefinitionMap::new())))
        .service_resource(Resource::new("/pets").route(post().to(2u32, DefinitionMap::new())))
        .service_resource(Resource::new("/shops").route(get().to(3u32, DefinitionMap::new())));
    let paths = app.paths();
    assert_eq!(paths.len(), 2);
    assert_eq!(op_of(paths, "/pets", HttpMethod::Get), Some(1));
    assert_eq!(op_of(paths, "/pets", HttpMethod::Post), Some(2));
    assert_eq!(op_of(paths, "/shops", HttpMethod::Get), Some(3));
}

#[test]
fn scope_prefixes_its_resources() {
    let scope = Scope::new("/api").service_resource(Resource::new("/pets").route(get().to(1u32, DefinitionMap::new())));
    let app = App::new(None).service_scope(scope);
    let paths = app.paths();
    assert_eq!(op_of(paths, "/api/pets", HttpMethod::Get), Some(1));
    assert!(paths.get("/pets").is_none());
}

#[test]
fn nested_scopes_prefix_in_order() {
    let inner = Scope::new("/api").service_resource(Resource::new("/pets").route(get().to(4u32, DefinitionMap::new())));
    let outer = Scope::new("/v1").service_scope(inner);
    let app = App::new(None).service_scope(outer);
    assert_eq!(op_of(app.paths(), "/v1/api/pets", HttpMethod::Get), Some(4));
    assert_eq!(app.paths().len(), 1);
}

#[test]
fn trim_base_path_removes_the_prefix() {
    let app = App::new(Some(String::from("/api")))
        .service_resource(Resource::new("/api/pets").route(get().to(1u32, DefinitionMap::new())))
        .service_resource(Resource::new("/other").route(get().to(2u32, DefinitionMap::new())))
        .trim_base_path();
    let paths = app.paths();
    assert_eq!(op_of(paths, "/pets", HttpMethod::Get), Some(1));
    assert_eq!(op_of(paths, "/other", HttpMethod::Get), Some(2));
    assert!(paths.get("/api/pets").is_none());
}

#[test]
fn trim_base_path_removes_repeated_prefix() {
    let app = App::new(Some(String::from("/api")))
        .service_resource(Resource::new("/api/api/x").route(get().to(1u32, DefinitionMap::new())))
        .trim_base_path();
    assert_eq!(op_of(app.paths(), "/x", HttpMethod::Get), Some(1));
}

#[test]
fn trim_without_base_keeps_paths() {
    let app = App::new(None)
        .service_resource(Resource::new("/pets").route(get().to(1u32, DefinitionMap::new())))
        .trim_base_path();
    assert_eq!(op_of(app.paths(), "/pets", HttpMethod::Get), Some(1));
    assert_eq!(app.paths().len(), 1);
}

#[test]
fn trimmed_paths_that_collide_keep_the_later() {
    // "/a" stays "/a", "/api/a" trims to "/a" and comes later in path order.
    let app = App::new(Some(String::from("/api")))
        .service_resource(Resource::new("/a").route(get().to(1u32, DefinitionMap::new())))
        .service_resource(Resource::new("/api/a").route(get().to(2u32, DefinitionMap::new())))
        .trim_base_path();
    assert_eq!(app.paths().len(), 1);
    assert_eq!(op_of(app.paths(), "/a", HttpMethod::Get), Some(2));
}

#[test]
fn trim_start_matches_cases() {
    assert_eq!(trim_start_matches("xxabc", "x"), "abc");
    assert_eq!(trim_start_matches("abc", ""), "abc");
    assert_eq!(trim_start_matches("abab", "ab"), "");
    assert_eq!(trim_start_matches("/api/pets", "/api"), "/pets");
    assert_eq!(trim_start_matches("/pets", "/api"), "/pets");
}

#[test]
fn resource_to_handles_every_method() {
    let mut res = resource("/pets").route(get().to(1u32, DefinitionMap::new())).to(9u32, DefinitionMap::new());
    let ops = res.operations();
    for m in ALL.iter() {
        assert_eq!(ops.get(*m), Some(&9));
    }
}

#[test]
fn scope_route_mounts_a_resource() {
    let s = scope("/api").route("/pets", post().to(5u32, DefinitionMap::new())).route("/none", Route::new());
    let app = App::new(None).service_scope(s);
    assert_eq!(op_of(app.paths(), "/api/pets", HttpMethod::Post), Some(5));
    assert_eq!(op_of(app.paths(), "/api/pets", HttpMethod::Get), None);
    assert!(app.paths().get("/api/none").is_none());
}

#[test]
fn scope_resource_replaces_same_path() {
    let s = scope("/api")
        .service_resource(resource("/pets").route(get().to(1u32, DefinitionMap::new())))
        .service_resource(resource("/pets").route(post().to(2u32, DefinitionMap::new())));
    let app = App::new(None).service_scope(s);
    assert_eq!(op_of(app.paths(), "/api/pets", HttpMethod::Get), None);
    assert_eq!(op_of(app.paths(), "/api/pets", HttpMethod::Post), Some(2));
}

#[test]
fn app_scope_adds_the_scope_paths() {
    let app = App::new(None)
        .service_resource(resource("/old").route(get().to(1u32, DefinitionMap::new())))
        .service_scope(scope("/api").route("/pets", get().to(2u32, DefinitionMap::new())));
    assert_eq!(op_of(app.paths(), "/old", HttpMethod::Get), Some(1));
    assert_eq!(op_of(app.paths(), "/api/pets", HttpMethod::Get), Some(2));
}

#[test]
fn app_scope_joins_operations_of_a_shared_path() {
    let app = App::new(None)
        .service_resource(resource("/api/pets").route(get().to(1u32, DefinitionMap::new())).route(post().to(3u32, DefinitionMap::new())))
        .service_scope(scope("/api").route("/pets", get().to(2u32, DefinitionMap::new())));
    assert_eq!(op_of(app.paths(), "/api/pets", HttpMethod::Get), Some(2));
    assert_eq!(op_of(app.paths(), "/api/pets", HttpMethod::Post), Some(3));
    assert_eq!(app.paths().len(), 1);
}

fn described(text: &str) -> Schema {
    Schema {
        name: None,
        description: Some(String::from(text)),
        data_type: None,
        format: None,
        items: None,
        properties: None,
        required: None,
        additional_properties: None,
        cyclic: false,
        contains_any: false,
    }
}

fn defs(items: &[(&str, &str)]) -> DefinitionMap {
    let mut d = DefinitionMap::new();
    for (name, text) in items.iter() {
        d.insert(String::from(*name), described(text));
    }
    d
}

fn description_of(d: &DefinitionMap, name: &str) -> Option<String> {
    d.get(name).and_then(|s| s.description.clone())
}

#[test]
fn handler_definitions_reach_the_app() {
    let res = resource("/pets")
        .route(get().to(1u32, defs(&[("Pet", "first")])))
        .route(post().to(2u32, defs(&[("Pet", "second"), ("Tag", "tag")])));
    let app = App::new(None)
        .service_scope(scope("/api").service_resource(res))
        .service_resource(resource("/owners").to(3u32, defs(&[("Owner", "owner")])));
    let d = app.definitions();
    assert_eq!(d.len(), 3);
    assert_eq!(description_of(d, "Pet"), Some(String::from("second")));
    assert_eq!(description_of(d, "Tag"), Some(String::from("tag")));
    assert_eq!(description_of(d, "Owner"), Some(String::from("owner")));
    assert!(d.get("Missing").is_none());
}

#[test]
fn route_to_replaces_earlier_handler_definitions() {
    let route = get().to(1u32, defs(&[("A", "a")])).to(2u32, defs(&[("B", "b")]));
    let mut res = resource("/x").route(route);
    let d = res.definitions();
    assert!(d.get("A").is_none());
    assert_eq!(description_of(&d, "B"), Some(String::from("b")));
    assert_eq!(res.definitions().len(), 0);
}

#[test]
fn scope_route_keeps_route_definitions() {
    let mut s = scope("/api").route("/pets", get().to(1u32, defs(&[("Pet", "pet")])));
    let d = s.definitions();
    assert_eq!(d.len(), 1);
    assert_eq!(description_of(&d, "Pet"), Some(String::from("pet")));
}
