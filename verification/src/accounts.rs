//! Which user account the authenticator acts for.

use vstd::prelude::*;
use vstd::string::StringExecFns;

verus! {

/// The value of an optional variable, if set to a non-empty text.
pub open spec fn non_empty(v: Option<Seq<char>>) -> bool {
    v matches Some(s) && s.len() > 0
}

/// The text of an optional `String`.
pub open spec fn text_of(v: Option<String>) -> Option<Seq<char>> {
    match v {
        Some(s) => Some(s@),
        None => None,
    }
}

/// The user that `sudo` was run by: `SUDO_USER` when set, non-empty and not
/// "root".
pub open spec fn sudo_target_spec(sudo_user: Option<Seq<char>>) -> Option<Seq<char>> {
    match sudo_user {
        Some(u) => if u.len() > 0 && u != "root"@ { Some(u) } else { None },
        None => None,
    }
}

fn is_empty_text(s: &String) -> (r: bool)
    ensures
        r == (s@.len() == 0),
{
    s.as_str().unicode_len() == 0
}

/// The user that `sudo` was run by, from the value of `SUDO_USER`: the value
/// when it is non-empty and not "root", `None` otherwise.
pub fn sudo_target(sudo_user: Option<String>) -> (r: Option<String>)
    ensures
        text_of(r) == sudo_target_spec(text_of(sudo_user)),
        r is Some <==> (sudo_user matches Some(u) && u@.len() > 0 && u@ != "root"@),
        r matches Some(name) ==> sudo_user matches Some(u) && name@ == u@,
{
    match sudo_user {
        Some(u) => {
            let root = String::from_str("root");
            proof {
                reveal_strlit("root");
            }
            if !is_empty_text(&u) && u != root {
                Some(u)
            } else {
                None
            }
        },
        None => None,
    }
}

/// The real (non-root) user name: `SUDO_USER` if it names a user other than
/// root, else `LOGNAME`, else `USER` (each when non-empty), else the name of
/// the current UID in the password database, else "root".
pub open spec fn real_username_spec(
    sudo_user: Option<Seq<char>>,
    logname: Option<Seq<char>>,
    user: Option<Seq<char>>,
    passwd_name: Option<Seq<char>>,
) -> Seq<char> {
    if sudo_target_spec(sudo_user) is Some {
        sudo_target_spec(sudo_user).unwrap()
    } else if non_empty(logname) {
        logname.unwrap()
    } else if non_empty(user) {
        user.unwrap()
    } else if passwd_name is Some {
        passwd_name.unwrap()
    } else {
        "root"@
    }
}

/// Picks the real (non-root) user name from the values of `SUDO_USER`,
/// `LOGNAME` and `USER` and the password-database name of the current UID.
pub fn real_username(
    sudo_user: Option<String>,
    logname: Option<String>,
    user: Option<String>,
    passwd_name: Option<String>,
) -> (r: String)
    ensures
        r@ == real_username_spec(
            text_of(sudo_user),
            text_of(logname),
            text_of(user),
            text_of(passwd_name),
        ),
        ({
            let from_sudo = sudo_user matches Some(u) && u@.len() > 0 && u@ != "root"@;
            let from_logname = logname matches Some(l) && l@.len() > 0;
            let from_user = user matches Some(v) && v@.len() > 0;
            &&& from_sudo ==> r@ == sudo_user->0@
            &&& !from_sudo && from_logname ==> r@ == logname->0@
            &&& !from_sudo && !from_logname && from_user ==> r@ == user->0@
            &&& !from_sudo && !from_logname && !from_user && passwd_name is Some ==> r@ == passwd_name->0@
            &&& !from_sudo && !from_logname && !from_user && passwd_name is None ==> r@ == "root"@
        }),
{
    if let Some(u) = sudo_target(sudo_user) {
        return u;
    }
    if let Some(l) = logname {
        if !is_empty_text(&l) {
            return l;
        }
    }
    if let Some(u) = user {
        if !is_empty_text(&u) {
            return u;
        }
    }
    if let Some(p) = passwd_name {
        return p;
    }
    String::from_str("root")
}

} // verus!
