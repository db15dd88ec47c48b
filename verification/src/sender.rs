//! The sender's address where none is given: derived from the environment.
use vstd::prelude::*;
use vstd::string::StringExecFns;

verus! {

/// The variables of the environment that name the user: each holds its
/// value, or `None` where the variable is not set.
#[derive(Debug, PartialEq, Eq)]
pub struct Environment {
    /// `DEBEMAIL`
    pub debemail: Option<String>,
    /// `DEBFULLNAME`
    pub debfullname: Option<String>,
    /// `EMAIL`
    pub email: Option<String>,
    /// `USER`
    pub user: Option<String>,
    /// `USERNAME`
    pub username: Option<String>,
    /// `HOSTNAME`
    pub hostname: Option<String>,
}

/// An optional text as a sequence of characters.
pub open spec fn text_of(value: Option<String>) -> Option<Seq<char>> {
    match value {
        Some(s) => Some(s@),
        None => None,
    }
}

/// The address `user@host` of the logged-in user: the user is `USER`, or
/// `USERNAME` where that is not set; there is no address without a user or
/// without `HOSTNAME`.
pub open spec fn logged_user_email(env: Environment) -> Option<Seq<char>> {
    let user = if env.user is Some {
        env.user
    } else {
        env.username
    };
    match (user, env.hostname) {
        (Some(u), Some(h)) => Some(u@ + "@"@ + h@),
        _ => None,
    }
}

/// The sender's address: `DEBEMAIL`, written as `DEBFULLNAME <DEBEMAIL>`
/// where the full name is set; else `EMAIL`; else the address of the
/// logged-in user.
pub open spec fn user_email(env: Environment) -> Option<Seq<char>> {
    match env.debemail {
        Some(address) => match env.debfullname {
            Some(name) => Some(name@ + " <"@ + address@ + ">"@),
            None => Some(address@),
        },
        None => match env.email {
            Some(address) => Some(address@),
            None => logged_user_email(env),
        },
    }
}

/// The address of the logged-in user, if the environment names one.
pub fn get_logged_user_email(env: &Environment) -> (r: Option<String>)
    ensures
        text_of(r) == logged_user_email(*env),
{
    let user = match &env.user {
        Some(u) => Some(u),
        None => match &env.username {
            Some(u) => Some(u),
            None => None,
        },
    };
    match (user, &env.hostname) {
        (Some(u), Some(h)) => {
            let address = u.clone().concat("@").concat(h.as_str());
            Some(address)
        },
        _ => None,
    }
}

/// The sender's address, if the environment gives one.
pub fn get_user_email(env: &Environment) -> (r: Option<String>)
    ensures
        text_of(r) == user_email(*env),
{
    match &env.debemail {
        Some(address) => match &env.debfullname {
            Some(name) => {
                let emitter = name.clone().concat(" <").concat(address.as_str()).concat(">");
                Some(emitter)
            },
            None => Some(address.clone()),
        },
        None => match &env.email {
            Some(address) => Some(address.clone()),
            None => get_logged_user_email(env),
        },
    }
}

} // verus!
