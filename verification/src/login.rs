//! The authentication step: checks a `login <user> <password>` line against
//! the password file's bcrypt hashes and the live registry.

use vstd::prelude::*;

verus! {

use crate::lexer::{commands_of, get_commands};
use crate::strutil::{concat2, split_whitespace_vec, split_ws, string_eq};
use vstd::string::StrSliceExecFns;

/// Whether bcrypt accepts the password against the stored hash.  The
/// outcome depends on the two arguments alone.
pub uninterp spec fn bcrypt_accepts(password: Seq<char>, hash: Seq<char>) -> bool;

/// Relies on bcrypt::verify: re-derives the hash from the password and the
/// hash's own salt and cost, deterministically; a malformed hash counts as
/// rejection.
#[verifier::external_body]
fn verify_password(password: &str, hash: &str) -> (r: bool)
    ensures
        r == bcrypt_accepts(password@, hash@),
{
    bcrypt::verify(password, hash).unwrap_or(false)
}

/// The stored hash of `name` among the whitespace-separated
/// username/hash pairs; of duplicate usernames the last pair wins; a
/// trailing unpaired token is ignored.
pub open spec fn lookup_hash(toks: Seq<Seq<char>>, name: Seq<char>) -> Option<Seq<char>>
    decreases toks.len(),
{
    if toks.len() < 2 {
        None
    } else {
        match lookup_hash(toks.skip(2), name) {
            Some(h) => Some(h),
            None => if toks[0] == name {
                Some(toks[1])
            } else {
                None
            },
        }
    }
}

/// Some registry entry is exactly `name`: the user is already signed in.
pub open spec fn user_present(users: Seq<Seq<char>>, name: Seq<char>) -> bool {
    exists|i: int| 0 <= i < users.len() && #[trigger] users[i] == name
}

/// What authenticating a request line decides: the user name on success,
/// or the framed error reply.  The line must be a `login` command of
/// exactly three words naming a known user, with the matching password,
/// who is not already signed in.
pub open spec fn login_spec(
    input: Seq<char>,
    passwords: Seq<char>,
    users: Seq<Seq<char>>,
) -> Result<Seq<char>, Seq<char>> {
    let cs = commands_of(input);
    if cs.len() == 0 || cs[0].args.len() == 0 || cs[0].args[0] != "login"@ {
        Err(
            "?&EError: You are not connected. Please connect before sending a command"@
                + "[-]:[-]\r\n\r\n"@,
        )
    } else if cs[0].args.len() != 3 {
        Err("?&EInvalid format:>login [USERNAME] [PASSWORD] "@ + "[-]:[-]\r\n\r\n"@)
    } else {
        match lookup_hash(split_ws(passwords), cs[0].args[1]) {
            None => Err("?&EInvalid username"@ + "[-]:[-]\r\n\r\n"@),
            Some(h) => {
                if !bcrypt_accepts(cs[0].args[2], h) {
                    Err("?&EIncorrect password"@ + "[-]:[-]\r\n\r\n"@)
                } else if user_present(users, cs[0].args[1]) {
                    Err("?&EUser already logged in"@ + "[-]:[-]\r\n\r\n"@)
                } else {
                    Ok(cs[0].args[1])
                }
            },
        }
    }
}

/// Law: a user the duplicate-login check does not find stands in the
/// registry zero times, so a fresh sign-in makes exactly one entry there
/// for the session's lifetime.
pub proof fn lemma_absent_user_count(users: Seq<Seq<char>>, name: Seq<char>)
    requires
        !user_present(users, name),
    ensures
        crate::registry::user_count(users, name) == 0,
{
    assert forall|i: int| 0 <= i < users.len() implies users[i] != name by {}
    crate::registry::lemma_count_zero(users, name);
}

/// Checks one authentication request against the password file's content
/// and the signed-in users.
pub struct UserLogin {
    pub input: String,
    pub passwords: String,
    pub users_list: Vec<String>,
}

#[verifier::loop_isolation(false)]
fn find_present(users: &Vec<String>, name: &str) -> (r: bool)
    ensures
        r == user_present(users.deep_view(), name@),
{
    let mut i: usize = 0;
    while i < users.len()
        invariant
            i <= users.len(),
            forall|k: int| 0 <= k < i ==> #[trigger] users.deep_view()[k] != name@,
        decreases users.len() - i,
    {
        if string_eq(&users[i], name) {
            proof {
                assert(users.deep_view()[i as int] == name@);
            }
            return true;
        }
        i += 1;
    }
    false
}

#[verifier::loop_isolation(false)]
fn lookup_stored_hash(toks: &Vec<String>, name: &str) -> (r: Option<String>)
    ensures
        r.deep_view() == lookup_hash(toks.deep_view(), name@),
{
    let ghost tv = toks.deep_view();
    let mut found: Option<String> = None;
    let mut i: usize = 0;
    proof {
        assert(tv.skip(0) =~= tv);
    }
    while toks.len() >= 2 && i <= toks.len() - 2
        invariant
            i <= toks.len(),
            lookup_hash(tv, name@) == (match lookup_hash(tv.skip(i as int), name@) {
                Some(h) => Some(h),
                None => found.deep_view(),
            }),
        decreases toks.len() - i,
    {
        proof {
            assert(tv.skip(i as int)[0] == tv[i as int]);
            assert(tv.skip(i as int)[1] == tv[i + 1]);
            assert(tv.skip(i as int).skip(2) =~= tv.skip(i + 2));
        }
        if string_eq(&toks[i], name) {
            found = Some(toks[i + 1].clone());
        }
        i += 2;
    }
    proof {
        assert(tv.skip(i as int).len() < 2);
    }
    found
}

impl UserLogin {
    pub fn new(input: String, passwords: String, users: Vec<String>) -> (r: UserLogin)
        ensures
            r.input@ == input@,
            r.passwords@ == passwords@,
            r.users_list@ == users@,
    {
        UserLogin { input, passwords, users_list: users }
    }

    /// Decides the authentication request: the user name, or the framed
    /// error reply for the client.
    pub fn get_login_status(&self) -> (r: Result<String, String>)
        ensures
            ({
                let s = login_spec(self.input@, self.passwords@, self.users_list.deep_view());
                match r {
                    Ok(name) => s matches Ok(n) && name@ == n,
                    Err(msg) => s matches Err(m) && msg@ == m,
                }
            }),
    {
        let cmds = get_commands(self.input.as_str());
        let envelope = "[-]:[-]\r\n\r\n";
        if cmds.len() == 0 || cmds[0].cmd.len() == 0 || !string_eq(&cmds[0].cmd[0], "login") {
            proof {
                if cmds@.len() > 0 {
                    assert(cmds.deep_view()[0].args.len() == cmds[0].cmd@.len());
                }
            }
            return Err(
                concat2(
                    "?&EError: You are not connected. Please connect before sending a command",
                    envelope,
                ),
            );
        }
        if cmds[0].cmd.len() != 3 {
            return Err(concat2("?&EInvalid format:>login [USERNAME] [PASSWORD] ", envelope));
        }
        let username: &String = &cmds[0].cmd[1];
        proof {
            assert(commands_of(self.input@)[0].args[1] == username@);
            assert(commands_of(self.input@)[0].args[2] == cmds[0].cmd@[2]@);
        }
        let toks = split_whitespace_vec(self.passwords.as_str());
        match lookup_stored_hash(&toks, username.as_str()) {
            None => Err(concat2("?&EInvalid username", envelope)),
            Some(stored_hash) => {
                if !verify_password(cmds[0].cmd[2].as_str(), stored_hash.as_str()) {
                    Err(concat2("?&EIncorrect password", envelope))
                } else if find_present(&self.users_list, username.as_str()) {
                    Err(concat2("?&EUser already logged in", envelope))
                } else {
                    Ok(username.clone())
                }
            },
        }
    }
}

} // verus!
