use paperclip::definitions::{DefaultEmitter, EnumValue};
use paperclip::impls::mk_description_text;

fn emitter() -> DefaultEmitter {
    DefaultEmitter { ns_sep: String::from("."), mod_prefix: String::from("crate::") }
}

#[test]
fn enum_variant_of_number() {
    let e = emitter();
    assert_eq!(e.enum_variant(&EnumValue::Number(String::from("-1.5"))), Some(String::from("Number__1_5")));
    assert_eq!(e.enum_variant(&EnumValue::Number(String::from("42"))), Some(String::from("Number_42")));
}

#[test]
fn enum_variant_of_bool() {
    let e = emitter();
    assert_eq!(e.enum_variant(&EnumValue::Bool(true)), Some(String::from("True")));
    assert_eq!(e.enum_variant(&EnumValue::Bool(false)), Some(String::from("False")));
}

#[test]
fn enum_variant_of_string() {
    let e = emitter();
    assert_eq!(e.enum_variant(&EnumValue::String(String::from("in_progress"))), Some(String::from("InProgress")));
}

#[test]
fn enum_variant_of_other() {
    assert_eq!(emitter().enum_variant(&EnumValue::Other), None);
}

#[test]
fn description_text_is_quoted() {
    assert_eq!(mk_description_text("a'b"), "\"a'b\"");
    assert_eq!(mk_description_text("say \"hi\""), "\"say \\\"hi\\\"\"");
    assert_eq!(mk_description_text(""), "\"\"");
}
