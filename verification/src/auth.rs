//! The login that guards the store.

use vstd::prelude::*;

verus! {

/// The store manager's login.
pub struct Auth;

/// Whether these are the store manager's credentials.
pub open spec fn credentials_accepted(username: Seq<char>, password: Seq<char>) -> bool {
    username == "store_manager"@ && password == "pass1234"@
}

impl Auth {
    /// Checks a username and a password, as they were typed and trimmed,
    /// against the store manager's credentials.
    pub fn authenticate(username: &str, password: &str) -> (checked: Result<(), String>)
        ensures
            checked is Ok <==> credentials_accepted(username@, password@),
            checked matches Err(message) ==> message@ == "Invalid username or password"@,
    {
        if username.to_owned() == "store_manager".to_owned() && password.to_owned()
            == "pass1234".to_owned() {
            Ok(())
        } else {
            Err("Invalid username or password".to_owned())
        }
    }
}

} // verus!
