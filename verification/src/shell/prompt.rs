//! The session prompt: `user@host$ `.

use crate::shell::text::append;
use vstd::prelude::*;

verus! {

/// The prompt of `user` on `host`: the two names with `@` between them,
/// then a dollar sign and one space.
pub open spec fn prompt_of(user: Seq<u8>, host: Seq<u8>) -> Seq<u8> {
    user + seq![64u8] + host + seq![36u8, 32u8]
}

/// Builds the prompt of `user` on `host`.
pub fn prompt_for(user: &[u8], host: &[u8]) -> (r: Vec<u8>)
    ensures
        r@ == prompt_of(user@, host@),
{
    let mut r: Vec<u8> = Vec::new();
    append(&mut r, user);
    r.push(64u8);
    append(&mut r, host);
    r.push(36u8);
    r.push(32u8);
    assert(r@ =~= prompt_of(user@, host@));
    r
}

/// The name of the user who runs the shell, by `whoami::username`. Nothing
/// is claimed of it: it depends on the host.
#[verifier::external_body]
fn username() -> (r: Vec<u8>) {
    whoami::username().into_bytes()
}

/// The name of the host, in lower case, by `whoami::hostname`. Nothing is
/// claimed of it: it depends on the host.
#[verifier::external_body]
#[allow(deprecated)]
fn hostname() -> (r: Vec<u8>) {
    whoami::hostname().into_bytes()
}

/// The prompt of this session: that of the current user on this host, both
/// asked of the platform.
pub fn session_prompt() -> (r: Vec<u8>)
    ensures
        exists|user: Seq<u8>, host: Seq<u8>| r@ == #[trigger] prompt_of(user, host),
{
    let user = username();
    let host = hostname();
    let r = prompt_for(user.as_slice(), host.as_slice());
    assert(r@ == prompt_of(user@, host@));
    r
}

} // verus!
