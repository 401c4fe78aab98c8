use paperclip::author::{discover, AuthorSources};
use paperclip::base_url::BaseUrl;
use paperclip::meta::{infer_meta, meta_from_info, set_meta_if_missing, CrateMeta};

fn sources() -> AuthorSources {
    AuthorSources {
        cargo_name: None,
        git_author_name: None,
        git_committer_name: None,
        git_user_name: None,
        user: None,
        username: None,
        name: None,
        cargo_email: None,
        git_author_email: None,
        git_committer_email: None,
        git_user_email: None,
        email: None,
        windows: false,
    }
}

#[test]
fn meta_takes_title_and_semver_version() {
    let m = meta_from_info("Petstore", "1.0.0");
    assert_eq!(m.name.as_deref(), Some("Petstore"));
    assert_eq!(m.version.as_deref(), Some("1.0.0"));
    assert!(m.authors.is_none());
    let m = meta_from_info("Petstore", "v1");
    assert!(m.version.is_none());
    assert!(meta_from_info("x", "1.0").version.is_none());
    assert_eq!(meta_from_info("x", "1.2.3-beta.1+b5").version.as_deref(), Some("1.2.3-beta.1+b5"));
}

#[test]
fn meta_is_set_only_once() {
    let mut meta: Option<CrateMeta> = None;
    set_meta_if_missing(&mut meta, "First", "0.2.0");
    set_meta_if_missing(&mut meta, "Second", "0.3.0");
    let m = meta.unwrap();
    assert_eq!(m.name.as_deref(), Some("First"));
    assert_eq!(m.version.as_deref(), Some("0.2.0"));
}

#[test]
fn inferring_fills_what_is_missing() {
    let mut m = CrateMeta { name: None, version: None, authors: None, is_cli: false };
    assert!(infer_meta(&mut m, "MyCrate", Ok((String::from("Ann"), Some(String::from("a@b.c"))))).is_ok());
    assert_eq!(m.name.as_deref(), Some("my_crate"));
    assert_eq!(m.version.as_deref(), Some("0.1.0"));
    assert_eq!(m.authors, Some(vec![String::from("Ann <a@b.c>")]));
    let mut n = CrateMeta { name: Some(String::from("kept")), version: None, authors: None, is_cli: true };
    assert_eq!(infer_meta(&mut n, "dir", Err(String::from("no user"))), Err(String::from("no user")));
    assert_eq!(n.name.as_deref(), Some("kept"));
    assert_eq!(n.version.as_deref(), Some("0.1.0"));
    assert!(n.authors.is_none());
}

#[test]
fn author_sources_are_consulted_in_order() {
    let mut s = sources();
    s.user = Some(String::from("user"));
    s.git_user_name = Some(String::from(" Git Name "));
    s.email = Some(String::from("e@x"));
    s.git_committer_email = Some(String::from("<c@x>"));
    assert_eq!(discover(&s), Ok((String::from("Git Name"), Some(String::from("c@x")))));
    s.cargo_name = Some(String::from("Cargo"));
    assert_eq!(discover(&s).unwrap().0, "Cargo");
}

#[test]
fn no_author_name_is_an_error() {
    let mut s = sources();
    assert_eq!(discover(&s), Err(String::from("could not determine the current user, please set $USER")));
    s.windows = true;
    assert_eq!(discover(&s), Err(String::from("could not determine the current user, please set $USERNAME")));
}

#[test]
fn default_base_url() {
    let mut b = BaseUrl::default();
    assert_eq!(b.base_url(), "https://example.com/");
    assert!(b.set_url("not a url").is_err());
    assert_eq!(b.base_url(), "https://example.com/");
    assert!(b.set_url("https://api.example.org/v1").is_ok());
    assert_eq!(b.base_url(), "https://api.example.org/v1");
    let mut c = BaseUrl::new();
    assert_eq!(c.try_apply_host_and_base_path(Some("petstore.io:8080"), Some("/v2")), Some(Ok(())));
    assert_eq!(c.base_url(), "https://petstore.io:8080/v2");
}
