use paperclip::author::{author_line, choose_author, trimmed};

fn some(s: &str) -> Option<String> {
    Some(String::from(s))
}

#[test]
fn first_present_name_and_email_are_taken_trimmed() {
    let names = vec![None, some("  Ann \n"), some("Bob")];
    let emails = vec![None, None, some(" <ann@example.com> "), some("x@y")];
    assert_eq!(
        choose_author(&names, &emails),
        Some((String::from("Ann"), Some(String::from("ann@example.com"))))
    );
}

#[test]
fn email_without_brackets_is_kept() {
    let names = vec![some("Ann")];
    let emails = vec![some("ann@example.com")];
    assert_eq!(choose_author(&names, &emails), Some((String::from("Ann"), Some(String::from("ann@example.com")))));
    assert_eq!(choose_author(&names, &vec![some("<>")]), Some((String::from("Ann"), Some(String::new()))));
    assert_eq!(choose_author(&names, &vec![None]), Some((String::from("Ann"), None)));
}

#[test]
fn no_name_gives_no_author() {
    assert_eq!(choose_author(&vec![None, None], &vec![some("a@b")]), None);
    assert_eq!(choose_author(&vec![], &vec![]), None);
}

#[test]
fn author_line_adds_the_email_in_brackets() {
    assert_eq!(author_line("Ann", Some("ann@example.com")), "Ann <ann@example.com>");
    assert_eq!(author_line("Ann", None), "Ann");
}

#[test]
fn trimmed_removes_white_space_at_both_ends() {
    assert_eq!(trimmed("  a b\t"), "a b");
    assert_eq!(trimmed("   "), "");
    assert_eq!(trimmed(""), "");
}
