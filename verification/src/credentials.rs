//! Account data: stored credentials, the user information shown after a
//! login, and the single-string secret form in which a session id and
//! password travel together through a secret store.

use crate::text::split_at_char;
use vstd::prelude::*;

verus! {

/// Stored account credentials.
#[derive(Debug, Clone)]
pub struct UsacoCredentials {
    pub username: String,
    pub password: String,
    pub session_id: String,
}

/// Account information shown for a logged-in user.
#[derive(Debug, Clone)]
pub struct UserInfo {
    pub username: String,
    pub email: String,
    pub first_name: String,
    pub last_name: String,
    pub division: String,
}

/// The single-string secret form: the session id, one colon, the
/// password. The session id never contains a colon; the password may.
pub open spec fn encoded_secret(session_id: Seq<char>, password: Seq<char>) -> Seq<char> {
    session_id + seq![':'] + password
}

/// Join a session id and password into the single-string secret form.
pub fn encode_secret(session_id: &str, password: &str) -> (r: String)
    ensures
        r@ == encoded_secret(session_id@, password@),
{
    let mut s = session_id.to_owned();
    proof {
        reveal_strlit(":");
        assert(":"@ =~= seq![':']);
    }
    s.append(":");
    s.append(password);
    s
}

/// Take a stored secret apart at its first colon: the session id before
/// it, the password after it. A secret without a colon is malformed.
pub fn split_secret(secret: &str) -> (r: Option<(String, String)>)
    ensures
        r matches Some(parts) ==> (split_at_char(secret@, ':') matches Some(pair) && parts.0@
            == pair.0 && parts.1@ == pair.1),
        r is None <==> split_at_char(secret@, ':') is None,
{
    match crate::text::find_char(secret, ':') {
        Some(i) => {
            let len = secret.unicode_len();
            let session_id = secret.substring_char(0, i);
            let password = secret.substring_char(i + 1, len);
            proof {
                assert(session_id@ =~= secret@.take(i as int));
                assert(password@ =~= secret@.skip(i as int + 1));
            }
            Some((session_id.to_owned(), password.to_owned()))
        },
        None => None,
    }
}

/// Encoding a session id and password and splitting the result returns
/// them exactly, for any session id free of colons — whatever the
/// password holds, colons included.
pub proof fn lemma_secret_round_trip(session_id: Seq<char>, password: Seq<char>)
    requires
        forall|i: int| 0 <= i < session_id.len() ==> session_id[i] != ':',
    ensures
        split_at_char(encoded_secret(session_id, password), ':') == Some((session_id, password)),
{
    let s = encoded_secret(session_id, password);
    let n = session_id.len() as int;
    assert(s[n] == ':');
    assert forall|j: int| 0 <= j < n implies s[j] != ':' by {
        assert(s[j] == session_id[j]);
    }
    crate::text::lemma_split_at_char_found(s, ':', n);
    assert(s.take(n) =~= session_id);
    assert(s.skip(n + 1) =~= password);
}

} // verus!
