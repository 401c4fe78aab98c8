use paperclip::apis::{
    bool_string, build_uri, deserialize_option_stringified_list, deserialize_stringified_list, join, signed_text, urlencode, Body, IntoOptVec, IntoVec, Path, Query,
    Uuid,
};

#[test]
fn into_inner_gives_back_the_wrapped_value() {
    assert_eq!(Path((String::from("a"), 7u64)).into_inner(), (String::from("a"), 7u64));
    assert_eq!(Query(vec![1, 2]).into_inner(), vec![1, 2]);
    assert_eq!(Body("body").into_inner(), "body");
}

#[test]
fn urlencode_keeps_unreserved_characters() {
    assert_eq!(urlencode("AZaz09*-._"), "AZaz09*-._");
}

#[test]
fn urlencode_encodes_spaces_and_reserved_bytes() {
    assert_eq!(urlencode("a b&c/d"), "a+b%26c%2Fd");
    assert_eq!(urlencode("ü"), "%C3%BC");
    assert_eq!(urlencode(""), "");
}

#[test]
fn uuid_is_formatted_hyphenated_in_lower_case() {
    let u = Uuid { value: 0xa1a2a3a4b1b2c1c2d1d2d3d4d5d6d7d8 };
    assert_eq!(u.to_string(), "a1a2a3a4-b1b2-c1c2-d1d2-d3d4d5d6d7d8");
    assert_eq!(Uuid { value: 0 }.to_string(), "00000000-0000-0000-0000-000000000000");
}

#[test]
fn signed_text_formats_integers() {
    assert_eq!(signed_text(0), "0");
    assert_eq!(signed_text(42), "42");
    assert_eq!(signed_text(-42), "-42");
    assert_eq!(signed_text(isize::MIN), isize::MIN.to_string());
    assert_eq!(signed_text(isize::MAX), isize::MAX.to_string());
}

#[test]
fn bool_string_formats_booleans() {
    assert_eq!(bool_string(true), "true");
    assert_eq!(bool_string(false), "false");
}

#[test]
fn join_puts_the_separator_between_items() {
    assert_eq!(join(&vec![String::from("h1"), String::from("h2"), String::from("h3")], ","), "h1,h2,h3");
    assert_eq!(join(&vec![String::from("only")], ","), "only");
    assert_eq!(join(&vec![], ","), "");
}

#[test]
fn build_uri_adds_present_parameters_in_order() {
    let params = vec![("a", None), ("b", Some(String::from("1"))), ("c", Some(String::from("2")))];
    assert_eq!(build_uri("http://host", "/path", &params), "http://host/path?b=1&c=2");
}

#[test]
fn build_uri_without_values_has_no_query() {
    let params: Vec<(&str, Option<String>)> = vec![("a", None)];
    assert_eq!(build_uri("http://host", "/path", &params), "http://host/path");
    assert_eq!(build_uri("http://host", "", &vec![]), "http://host");
}

#[test]
fn into_vec_converts_each_item() {
    let v: Vec<u64> = vec![1u32, 2, 3].into_vec();
    assert_eq!(v, vec![1u64, 2, 3]);
    let e: Vec<u64> = Vec::<u32>::new().into_vec();
    assert!(e.is_empty());
}

#[test]
fn into_opt_vec_converts_vectors_and_options() {
    let a: Option<Vec<i64>> = vec![1i32, -2].into_opt_vec();
    assert_eq!(a, Some(vec![1i64, -2]));
    let b: Option<Vec<i64>> = Some(vec![5i32]).into_opt_vec();
    assert_eq!(b, Some(vec![5i64]));
    let c: Option<Vec<i64>> = None::<Vec<i32>>.into_opt_vec();
    assert_eq!(c, None);
}

#[test]
fn stringified_lists_split_at_commas() {
    assert_eq!(deserialize_stringified_list("a,b,,c"), vec!["a", "b", "", "c"]);
    assert_eq!(deserialize_stringified_list("x"), vec!["x"]);
    assert_eq!(deserialize_stringified_list(","), vec!["", ""]);
    assert!(deserialize_stringified_list("").is_empty());
}

#[test]
fn optional_stringified_lists_are_none_when_empty() {
    assert_eq!(deserialize_option_stringified_list(""), None);
    assert_eq!(deserialize_option_stringified_list("1,2"), Some(vec![String::from("1"), String::from("2")]));
}

#[test]
fn rest_error_keeps_status_and_body() {
    let e = paperclip::apis::RestError::new(404, String::from("not found"));
    assert_eq!(e.status_code(), 404);
    assert_eq!(e.error_response(), "not found");
}

#[test]
fn stringified_list_reads_back_a_joined_list() {
    let items = vec![String::from("a"), String::new(), String::from("b c")];
    assert_eq!(deserialize_stringified_list(&join(&items, ",")), items);
    let one = vec![String::from("x")];
    assert_eq!(deserialize_stringified_list(&join(&one, ",")), one);
    // A single empty item joins to the empty text, which reads as no item.
    assert!(deserialize_stringified_list(&join(&vec![String::new()], ",")).is_empty());
}

#[test]
fn urlencoded_text_decodes_to_the_input_bytes() {
    let encoded = urlencode("a b&ü+");
    let mut out: Vec<u8> = Vec::new();
    let bytes = encoded.as_bytes();
    let mut i = 0;
    while i < bytes.len() {
        if bytes[i] == b'%' {
            let hex = std::str::from_utf8(&bytes[i + 1..i + 3]).unwrap();
            out.push(u8::from_str_radix(hex, 16).unwrap());
            i += 3;
        } else if bytes[i] == b'+' {
            out.push(b' ');
            i += 1;
        } else {
            out.push(bytes[i]);
            i += 1;
        }
    }
    assert_eq!(out, "a b&ü+".as_bytes());
}
