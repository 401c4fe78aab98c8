use paperclip::base_url::{parse_u16, BaseUrl};

#[test]
fn parse_gives_the_serialization() {
    let b = BaseUrl::parse("https://example.com").unwrap();
    assert_eq!(b.base_url(), "https://example.com/");
}

#[test]
fn set_url_rejects_a_relative_url_and_keeps_the_old_one() {
    let mut b = BaseUrl::parse("https://example.com").unwrap();
    let e = b.set_url("not a url").unwrap_err();
    assert_eq!(e.message(), "Cannot set URL \"not a url\": relative URL without a base");
    assert_eq!(b.base_url(), "https://example.com/");
    assert!(b.set_url("http://h:1234/x").is_ok());
    assert_eq!(b.base_url(), "http://h:1234/x");
}

#[test]
fn host_port_and_base_path_are_applied() {
    let mut b = BaseUrl::parse("https://example.com").unwrap();
    assert_eq!(b.apply_host_and_base_path(Some("api.example.org:8080"), Some("/v1")), Ok(()));
    assert_eq!(b.base_url(), "https://api.example.org:8080/v1");
    let mut c = BaseUrl::parse("https://example.com").unwrap();
    assert_eq!(c.apply_host_and_base_path(Some("api.example.org:443"), None), Ok(()));
    assert_eq!(c.base_url(), "https://api.example.org/");
    let mut d = BaseUrl::parse("https://example.com").unwrap();
    assert_eq!(d.apply_host_and_base_path(None, Some("/api")), Ok(()));
    assert_eq!(d.base_url(), "https://example.com/api");
}

#[test]
fn an_invalid_port_is_an_error_after_the_host_is_set() {
    let mut b = BaseUrl::parse("https://example.com").unwrap();
    let e = b.apply_host_and_base_path(Some("h.org:x"), Some("/v1")).unwrap_err();
    assert_eq!(e.message(), "Cannot parse host \"h.org:x\": invalid port number");
    assert_eq!(b.base_url(), "https://h.org/");
}

#[test]
fn an_invalid_host_is_an_error() {
    let mut b = BaseUrl::parse("https://example.com").unwrap();
    let r = b.try_apply_host_and_base_path(Some("exa mple"), None);
    assert_eq!(r.unwrap().unwrap_err().message(), "Cannot parse host \"exa mple\": invalid international domain name");
    assert_eq!(b.base_url(), "https://example.com/");
}

#[test]
fn ports_parse_as_u16() {
    assert_eq!(parse_u16("8080"), Some(8080));
    assert_eq!(parse_u16("+1"), Some(1));
    assert_eq!(parse_u16("65535"), Some(65535));
    assert_eq!(parse_u16("65536"), None);
    assert_eq!(parse_u16(""), None);
    assert_eq!(parse_u16("+"), None);
    assert_eq!(parse_u16("-1"), None);
    assert_eq!(parse_u16("1a"), None);
}
