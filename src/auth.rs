use vstd::prelude::*;

verus! {

/// The single user that may sign in.
#[derive(Clone, Debug)]
pub struct SimpleUser {
    pub id: i64,
    pub username: String,
    pub password: String,
}

/// A username and password offered for sign-in.
#[derive(Clone)]
pub struct Credentials {
    pub username: String,
    pub password: String,
}

/// Why a sign-in or a lookup failed.
#[derive(Debug)]
pub struct AuthError {
    msg: String,
}

/// Accepts one fixed username and password.
#[derive(Clone)]
pub struct SimpleBackend {}

pub open spec fn valid_username() -> Seq<char> {
    "tester"@
}

pub open spec fn valid_password() -> Seq<char> {
    "Squ!r3"@
}

/// The known principal: id 1, user "tester".
pub open spec fn is_principal(u: SimpleUser) -> bool {
    u.id == 1 && u.username@ == valid_username() && u.password@ == valid_password()
}

impl AuthError {
    pub closed spec fn msg_view(&self) -> Seq<char> {
        self.msg@
    }

    /// The description of the error.
    pub fn message(&self) -> (r: String)
        ensures
            r@ == self.msg_view(),
    {
        self.msg.clone()
    }
}

fn principal() -> (r: SimpleUser)
    ensures
        is_principal(r),
{
    SimpleUser {
        id: 1,
        username: String::from_str("tester"),
        password: String::from_str("Squ!r3"),
    }
}

pub(crate) fn same_text(a: &str, b: &str) -> (r: bool)
    ensures
        r == (a@ == b@),
{
    let n = a.unicode_len();
    if n != b.unicode_len() {
        return false;
    }
    let mut i: usize = 0;
    while i < n
        invariant
            n == a@.len(),
            n == b@.len(),
            i <= n,
            forall|k: int| 0 <= k < i ==> a@[k] == b@[k],
        decreases n - i,
    {
        if a.get_char(i) != b.get_char(i) {
            return false;
        }
        i = i + 1;
    }
    assert(a@ =~= b@);
    true
}

impl SimpleBackend {
    /// Signs in: the fixed principal exactly when both fields match the one
    /// valid pair, else an invalid-credentials error.
    pub fn authenticate(&self, creds: Credentials) -> (r: Result<Option<SimpleUser>, AuthError>)
        ensures
            (creds.username@ == valid_username() && creds.password@ == valid_password()) ==> (
            r is Ok && r->Ok_0 is Some && is_principal(r->Ok_0->Some_0)),
            !(creds.username@ == valid_username() && creds.password@ == valid_password()) ==> (
            r is Err && r->Err_0.msg_view() == "Invalid username/password"@),
    {
        proof {
            reveal_strlit("tester");
            reveal_strlit("Squ!r3");
        }
        if same_text(creds.username.as_str(), "tester") && same_text(
            creds.password.as_str(),
            "Squ!r3",
        ) {
            Ok(Some(principal()))
        } else {
            Err(AuthError { msg: String::from_str("Invalid username/password") })
        }
    }

    /// Resolves a stored principal id: the fixed principal for id 1, else an
    /// unknown-user error.
    pub fn get_user(&self, user_id: &i64) -> (r: Result<Option<SimpleUser>, AuthError>)
        ensures
            *user_id == 1 ==> (r is Ok && r->Ok_0 is Some && is_principal(r->Ok_0->Some_0)),
            *user_id != 1 ==> (r is Err && r->Err_0.msg_view() == "Unknown user"@),
    {
        if *user_id == 1 {
            Ok(Some(principal()))
        } else {
            Err(AuthError { msg: String::from_str("Unknown user") })
        }
    }
}

} // verus!
