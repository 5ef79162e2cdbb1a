//! Domain entity: a user of the chat.
use crate::clock::nanoseconds_since_epoch;
use crate::domain::models::message::time_error;
use crate::text::is_blank;
use crate::text::is_blank_text;
use crate::text::lower_hex;
use crate::text::lower_hex_text;
use vstd::prelude::*;
use vstd::string::StringExecFns;

verus! {

/// A chat user: a username and an id.
#[derive(Debug, PartialEq, Eq)]
pub struct User {
    pub id: String,
    pub username: String,
}

impl Clone for User {
    fn clone(&self) -> (r: Self)
        ensures
            r == *self,
    {
        User { id: self.id.clone(), username: self.username.clone() }
    }
}

/// The id that `User::new` gives when the clock reads `nanos` nanoseconds
/// since the epoch: `user-` followed by `nanos` in lower-case hexadecimal.
pub open spec fn user_id_at(nanos: u128) -> Seq<char> {
    "user-"@ + lower_hex(nanos as nat)
}

/// A fresh identifier: the nanoseconds since the Unix epoch, in lower-case
/// hexadecimal, or the clock's error text when the clock reads before the
/// epoch.
pub fn generate() -> (r: Result<String, String>)
    ensures
        r matches Ok(s) ==> exists|n: u128| s@ == lower_hex(n as nat),
{
    match nanoseconds_since_epoch() {
        Ok(n) => Ok(lower_hex_text(n)),
        Err(e) => Err(e),
    }
}

impl User {
    /// Creates a user with a fresh id (`user-<hex>`, the nanoseconds since
    /// the epoch in lower-case hexadecimal). A blank username is refused; a
    /// clock that reads before the epoch gives `Time error: ...`; else this is
    /// `with_nanos` with the clock's reading.
    pub fn new(username: String) -> (r: Result<Self, String>)
        ensures
            is_blank(username@) ==> (r matches Err(e) && e@ == "Username cannot be empty"@),
            r matches Ok(u) ==> !is_blank(username@) && u.username == username && exists|n: u128|
                u.id@ == user_id_at(n),
            r matches Err(e) ==> is_blank(username@) || exists|t: Seq<char>| e@ == time_error(t),
    {
        if is_blank_text(username.as_str()) {
            return Err(String::from_str("Username cannot be empty"));
        }
        match nanoseconds_since_epoch() {
            Ok(nanos) => User::with_nanos(username, nanos),
            Err(e) => {
                let f = String::from_str("Time error: ").concat(e.as_str());
                assert(f@ == time_error(e@));
                Err(f)
            },
        }
    }

    /// Creates the user that `new` creates when the clock reads `nanos`
    /// nanoseconds since the epoch.
    pub fn with_nanos(username: String, nanos: u128) -> (r: Result<Self, String>)
        ensures
            is_blank(username@) ==> (r matches Err(e) && e@ == "Username cannot be empty"@),
            !is_blank(username@) ==> (r matches Ok(u) && u.username == username && u.id@
                == user_id_at(nanos)),
    {
        let id = String::from_str("user-").concat(lower_hex_text(nanos).as_str());
        User::with_id(username, id)
    }

    /// Creates a user with the given id. A blank username is refused.
    pub fn with_id(username: String, id: String) -> (r: Result<Self, String>)
        ensures
            is_blank(username@) ==> (r matches Err(e) && e@ == "Username cannot be empty"@),
            !is_blank(username@) ==> r == Ok::<User, String>(User { id, username }),
    {
        if is_blank_text(username.as_str()) {
            return Err(String::from_str("Username cannot be empty"));
        }
        Ok(User { id, username })
    }
}

} // verus!
