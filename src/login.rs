//! Logging in: a password becomes a credential (its Argon2 digest), which
//! is noted in the metrics and may make its holder the first admin.
use vstd::prelude::*;
use crate::access::{AdminOutcome, AdminState, after_bootstrap, bootstrap_outcome};
use crate::message::opt_view;
use crate::metrics::{Metrics, after_login};

verus! {

/// The login form: the password as typed.
pub struct Login {
    pub password: String,
}

/// The Argon2 digest of `password` under the B64-encoded `salt` with
/// argon2's default parameters, in B64; none when the salt does not decode
/// or the hasher refuses the pair.
pub uninterp spec fn argon2_hash_of(password: Seq<char>, salt: Seq<char>) -> Option<Seq<char>>;

/// Relies on phc's `Salt::from_b64`, which decodes the B64 salt text, and on
/// argon2's `PasswordHasher::hash_password_with_salt` for `Argon2::default()`:
/// the hash field of the result depends only on the password and the salt;
/// an error (salt text that does not decode, a salt shorter than 8 or longer
/// than 48 bytes, a password the parameters refuse) gives none.
#[verifier::external_body]
fn hash_password(password: &str, salt: &str) -> (r: Option<String>)
    ensures
        opt_view(r) == argon2_hash_of(password@, salt@),
{
    let hasher = argon2::Argon2::default();
    let salt = match argon2::password_hash::phc::Salt::from_b64(salt) {
        Ok(s) => s,
        Err(_) => return None,
    };
    match argon2::PasswordHasher::hash_password_with_salt(&hasher, password.as_bytes(), salt.as_ref()) {
        Ok(h) => h.hash.map(|o| o.to_string()),
        Err(_) => None,
    }
}

/// Records a login from `ip` with `credential`: the metrics note the
/// credential, and the first credential ever submitted becomes the admin's.
pub fn login_with_credential(credential: &String, ip: &String, metrics: &mut Metrics, admin: &mut AdminState) -> (r:
    AdminOutcome)
    ensures
        r == bootstrap_outcome(old(admin)@, credential@),
        final(admin)@ == after_bootstrap(old(admin)@, credential@),
        final(metrics)@ == after_login(old(metrics)@, ip@, credential@),
{
    metrics.record_login(ip, credential);
    admin.bootstrap_or_check(credential)
}

/// Handles a login form from `ip`: the password is hashed under `salt`
/// into the credential that is returned (none when hashing fails, and then
/// nothing changes), and the login is recorded.
pub fn login_post(password: &Login, salt: &String, ip: &String, metrics: &mut Metrics, admin: &mut AdminState) -> (r:
    Option<String>)
    ensures
        opt_view(r) == argon2_hash_of(password.password@, salt@),
        r matches Some(c) ==> final(admin)@ == after_bootstrap(old(admin)@, c@) && final(metrics)@ == after_login(
            old(metrics)@,
            ip@,
            c@,
        ),
        r is None ==> final(admin)@ == old(admin)@ && final(metrics)@ == old(metrics)@,
{
    let credential = hash_password(password.password.as_str(), salt.as_str());
    match &credential {
        Some(c) => {
            login_with_credential(c, ip, metrics, admin);
        },
        None => {},
    }
    credential
}

/// Proof that a visitor is logged in: its credential.
pub struct IsLoggedInGuard(String);

impl IsLoggedInGuard {
    /// Admits a visitor that is logged in.
    pub fn check(login: Option<&String>) -> (r: Option<IsLoggedInGuard>)
        ensures
            r is Some <==> login is Some,
            r matches Some(g) ==> login matches Some(c) && g.credential() == c@,
    {
        match login {
            Some(c) => Some(IsLoggedInGuard(c.clone())),
            None => None,
        }
    }

    /// The credential of the visitor.
    pub closed spec fn credential(&self) -> Seq<char> {
        self.0@
    }

    /// The credential of the visitor.
    pub fn value(&self) -> (r: &String)
        ensures
            r@ == self.credential(),
    {
        &self.0
    }
}

/// The login page: a form that posts a password.
pub const LOGIN_PAGE: &'static str = "<html lang=\"en\">\n<head>\n    <meta charset=\"UTF-8\">\n    <meta http-equiv=\"X-UA-Compatible\" content=\"IE=edge\">\n    <meta name=\"viewport\" content=\"width=device-width, initial-scale=1.0\">\n    <title>Submit</title>\n</head>\n<body>\n    <form action=\"/login\" method=\"post\">\n        <label for=\"password\">Enter password</label>\n        <br>\n        <input type=\"password\" name=\"password\" id=\"password\">\n        <input type=\"submit\" value=\"Submit password\">\n    </form>\n</body>\n</html>\n";

/// The login page.
pub fn login() -> (r: String)
    ensures
        r@ == LOGIN_PAGE@,
{
    String::from_str(LOGIN_PAGE)
}

} // verus!
