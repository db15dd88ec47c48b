use kemenn::sender::get_logged_user_email;
use kemenn::sender::get_user_email;
use kemenn::sender::Environment;

fn text(s: &str) -> Option<String> {
    Some(s.to_string())
}

fn empty() -> Environment {
    Environment { debemail: None, debfullname: None, email: None, user: None, username: None, hostname: None }
}

#[test]
fn debian_address_with_full_name() {
    let env = Environment {
        debemail: text("jane@debian.org"),
        debfullname: text("Jane Doe"),
        email: text("other@x.com"),
        user: text("jane"),
        hostname: text("box"),
        ..empty()
    };
    assert_eq!(get_user_email(&env), text("Jane Doe <jane@debian.org>"));
}

#[test]
fn debian_address_without_full_name() {
    let env = Environment { debemail: text("jane@debian.org"), email: text("other@x.com"), ..empty() };
    assert_eq!(get_user_email(&env), text("jane@debian.org"));
}

#[test]
fn full_name_alone_is_not_used() {
    let env = Environment { debfullname: text("Jane Doe"), email: text("jane@x.com"), ..empty() };
    assert_eq!(get_user_email(&env), text("jane@x.com"));
}

#[test]
fn mail_variable_comes_before_the_logged_user() {
    let env = Environment { email: text("jane@x.com"), user: text("jane"), hostname: text("box"), ..empty() };
    assert_eq!(get_user_email(&env), text("jane@x.com"));
}

#[test]
fn logged_user_is_the_fallback() {
    let env = Environment { user: text("jane"), hostname: text("box"), ..empty() };
    assert_eq!(get_user_email(&env), text("jane@box"));
    assert_eq!(get_logged_user_email(&env), text("jane@box"));
}

#[test]
fn user_comes_before_username() {
    let env = Environment { user: text("jane"), username: text("jd"), hostname: text("box"), ..empty() };
    assert_eq!(get_logged_user_email(&env), text("jane@box"));
    let env = Environment { username: text("jd"), hostname: text("box"), ..empty() };
    assert_eq!(get_logged_user_email(&env), text("jd@box"));
}

#[test]
fn no_address_without_user_or_host() {
    assert_eq!(get_user_email(&empty()), None);
    assert_eq!(get_logged_user_email(&empty()), None);
    let env = Environment { user: text("jane"), ..empty() };
    assert_eq!(get_logged_user_email(&env), None);
    let env = Environment { hostname: text("box"), ..empty() };
    assert_eq!(get_user_email(&env), None);
}
