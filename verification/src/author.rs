//! The author written into a generated crate's manifest, chosen from what
//! the environment and the git configuration say.

use vstd::prelude::*;
use crate::definitions::opt_view;
use crate::text::{chars_of, is_white_space, push_str, string_of_range, trim_end, white_space};

verus! {

/// `s` without its leading white space.
pub open spec fn trim_start(s: Seq<char>) -> Seq<char>
    decreases s.len(),
{
    if s.len() > 0 && is_white_space(s[0]) {
        trim_start(s.drop_first())
    } else {
        s
    }
}

/// `s` without leading and trailing white space (what `str::trim` gives).
pub open spec fn trim_text(s: Seq<char>) -> Seq<char> {
    trim_start(trim_end(s))
}

/// An e-mail address without the angle brackets around it, if it has them.
pub open spec fn unbracketed(s: Seq<char>) -> Seq<char> {
    if s.len() >= 2 && s[0] == '<' && s.last() == '>' {
        s.subrange(1, s.len() - 1)
    } else {
        s
    }
}

/// The first present candidate.
pub open spec fn first_present(c: Seq<Option<Seq<char>>>) -> Option<Seq<char>>
    decreases c.len(),
{
    if c.len() == 0 {
        None
    } else {
        match c[0] {
            Some(s) => Some(s),
            None => first_present(c.drop_first()),
        }
    }
}

/// The views of optional texts.
pub open spec fn opt_views(c: Seq<Option<String>>) -> Seq<Option<Seq<char>>> {
    c.map_values(|o: Option<String>| opt_view(o))
}

/// The author's e-mail address chosen from the candidates: the first
/// present one, trimmed, without angle brackets.
pub open spec fn chosen_email(emails: Seq<Option<Seq<char>>>) -> Option<Seq<char>> {
    match first_present(emails) {
        Some(e) => Some(unbracketed(trim_text(e))),
        None => None,
    }
}

/// The text without leading and trailing white space.
pub fn trimmed(s: &str) -> (r: String)
    ensures
        r@ == trim_text(s@),
{
    let v = chars_of(s);
    let mut e: usize = v.len();
    assert(v@.take(e as int) =~= v@);
    while e > 0 && white_space(v[e - 1])
        invariant
            e <= v@.len(),
            trim_end(v@) == trim_end(v@.take(e as int)),
        decreases e,
    {
        assert(v@.take(e as int).drop_last() =~= v@.take(e - 1));
        e = e - 1;
    }
    assert(trim_end(v@.take(e as int)) == v@.take(e as int));
    let mut b: usize = 0;
    assert(v@.subrange(0, e as int) =~= v@.take(e as int));
    while b < e && white_space(v[b])
        invariant
            b <= e <= v@.len(),
            trim_start(v@.take(e as int)) == trim_start(v@.subrange(b as int, e as int)),
        decreases e - b,
    {
        assert(v@.subrange(b as int, e as int).drop_first() =~= v@.subrange(b + 1, e as int));
        b = b + 1;
    }
    assert(trim_start(v@.subrange(b as int, e as int)) == v@.subrange(b as int, e as int));
    string_of_range(&v, b, e)
}

/// The first present candidate.
fn first_of(c: &Vec<Option<String>>) -> (r: Option<&String>)
    ensures
        match r {
            Some(s) => first_present(opt_views(c@)) == Some(s@),
            None => first_present(opt_views(c@)) is None,
        },
{
    let mut i: usize = 0;
    assert(opt_views(c@).skip(0) =~= opt_views(c@));
    while i < c.len()
        invariant
            i <= c@.len(),
            first_present(opt_views(c@)) == first_present(opt_views(c@).skip(i as int)),
        decreases c.len() - i,
    {
        assert(opt_views(c@).skip(i as int)[0] == opt_view(c@[i as int]));
        match &c[i] {
            Some(s) => {
                return Some(s);
            },
            None => {},
        }
        assert(opt_views(c@).skip(i as int).drop_first() =~= opt_views(c@).skip(i + 1));
        i = i + 1;
    }
    assert(opt_views(c@).skip(i as int) =~= Seq::<Option<Seq<char>>>::empty());
    None
}

/// Chooses the author from the candidate names and e-mail addresses, each
/// list in the order in which they are consulted: the first present name,
/// trimmed, and the first present address, trimmed and without angle
/// brackets. There is no author without a name.
pub fn choose_author(names: &Vec<Option<String>>, emails: &Vec<Option<String>>) -> (r: Option<(String, Option<String>)>)
    ensures
        match r {
            None => first_present(opt_views(names@)) is None,
            Some((n, e)) => {
                &&& first_present(opt_views(names@)) matches Some(x) && n@ == trim_text(x)
                &&& opt_view(e) == chosen_email(opt_views(emails@))
            },
        },
{
    let name = match first_of(names) {
        Some(n) => trimmed(n.as_str()),
        None => {
            return None;
        },
    };
    let email = match first_of(emails) {
        Some(e) => {
            let t = trimmed(e.as_str());
            let v = chars_of(t.as_str());
            let n = v.len();
            if n >= 2 && v[0] == '<' && v[n - 1] == '>' {
                Some(string_of_range(&v, 1, n - 1))
            } else {
                Some(t)
            }
        },
        None => None,
    };
    Some((name, email))
}

/// The author as the manifest lists it: the name, followed by the e-mail
/// address in angle brackets when there is one.
pub fn author_line(name: &str, email: Option<&str>) -> (r: String)
    ensures
        r@ == match email {
            Some(e) => name@ + " <"@ + e@ + ">"@,
            None => name@,
        },
{
    let mut s = String::new();
    push_str(&mut s, name);
    match email {
        Some(e) => {
            push_str(&mut s, " <");
            push_str(&mut s, e);
            push_str(&mut s, ">");
        },
        None => {},
    }
    s
}


/// What the environment and the git configuration say of the author: the
/// environment variables by name, the git configuration's `user.name` and
/// `user.email`, and whether the platform is Windows.
#[derive(Debug, Clone)]
pub struct AuthorSources {
    pub cargo_name: Option<String>,
    pub git_author_name: Option<String>,
    pub git_committer_name: Option<String>,
    pub git_user_name: Option<String>,
    pub user: Option<String>,
    pub username: Option<String>,
    pub name: Option<String>,
    pub cargo_email: Option<String>,
    pub git_author_email: Option<String>,
    pub git_committer_email: Option<String>,
    pub git_user_email: Option<String>,
    pub email: Option<String>,
    pub windows: bool,
}

/// The names, in the order they are consulted: `CARGO_NAME`,
/// `GIT_AUTHOR_NAME`, `GIT_COMMITTER_NAME`, git's `user.name`, `USER`,
/// `USERNAME`, `NAME`.
pub open spec fn name_candidates(s: AuthorSources) -> Seq<Option<Seq<char>>> {
    seq![
        opt_view(s.cargo_name),
        opt_view(s.git_author_name),
        opt_view(s.git_committer_name),
        opt_view(s.git_user_name),
        opt_view(s.user),
        opt_view(s.username),
        opt_view(s.name),
    ]
}

/// The e-mail addresses, in the order they are consulted: `CARGO_EMAIL`,
/// `GIT_AUTHOR_EMAIL`, `GIT_COMMITTER_EMAIL`, git's `user.email`, `EMAIL`.
pub open spec fn email_candidates(s: AuthorSources) -> Seq<Option<Seq<char>>> {
    seq![
        opt_view(s.cargo_email),
        opt_view(s.git_author_email),
        opt_view(s.git_committer_email),
        opt_view(s.git_user_email),
        opt_view(s.email),
    ]
}

/// The message when no name is known: it names the variable to set
/// (`USERNAME` on Windows, else `USER`).
pub open spec fn missing_user_message(windows: bool) -> Seq<char> {
    "could not determine the current user, please set $"@ + if windows {
        "USERNAME"@
    } else {
        "USER"@
    }
}

fn copy_text(o: &Option<String>) -> (r: Option<String>)
    ensures
        opt_view(r) == opt_view(*o),
{
    match o {
        Some(s) => Some(s.clone()),
        None => None,
    }
}

/// Finds the name and e-mail address of the author from what the
/// environment and the git configuration say: the first name present,
/// trimmed, and the first address present, trimmed and without enclosing
/// angle brackets; without any name, the error tells which variable to set.
pub fn discover(sources: &AuthorSources) -> (r: Result<(String, Option<String>), String>)
    ensures
        match first_present(name_candidates(*sources)) {
            None => r matches Err(m) && m@ == missing_user_message(sources.windows),
            Some(x) => r matches Ok((n, e)) && n@ == trim_text(x) && opt_view(e) == chosen_email(
                email_candidates(*sources),
            ),
        },
{
    let mut names: Vec<Option<String>> = Vec::new();
    names.push(copy_text(&sources.cargo_name));
    names.push(copy_text(&sources.git_author_name));
    names.push(copy_text(&sources.git_committer_name));
    names.push(copy_text(&sources.git_user_name));
    names.push(copy_text(&sources.user));
    names.push(copy_text(&sources.username));
    names.push(copy_text(&sources.name));
    let mut emails: Vec<Option<String>> = Vec::new();
    emails.push(copy_text(&sources.cargo_email));
    emails.push(copy_text(&sources.git_author_email));
    emails.push(copy_text(&sources.git_committer_email));
    emails.push(copy_text(&sources.git_user_email));
    emails.push(copy_text(&sources.email));
    assert(opt_views(names@) =~= name_candidates(*sources));
    assert(opt_views(emails@) =~= email_candidates(*sources));
    match choose_author(&names, &emails) {
        Some(a) => Ok(a),
        None => {
            let mut m = String::new();
            push_str(&mut m, "could not determine the current user, please set $");
            if sources.windows {
                push_str(&mut m, "USERNAME");
            } else {
                push_str(&mut m, "USER");
            }
            Err(m)
        },
    }
}

} // verus!
