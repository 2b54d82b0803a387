//! Distribution of a message's session key.
//!
//! One random session key is made per message, sized for its cipher. It is
//! wrapped once for each recipient (under the recipient's public key) and
//! once for each password (under a key derived from it); the wrappings
//! come first in the message, each enough on its own to recover the key,
//! and the content encrypted under the key follows them.

use vstd::prelude::*;
use crate::error::{Error, Result};
use crate::interface::{Backend, SessionKey};
use crate::mem::Protected;
use crate::types::{key_len, SymmetricAlgorithm};

verus! {

/// A record of an encrypted message.
#[derive(Clone, Copy, Debug, PartialEq, Eq, Structural)]
pub enum Packet {
    /// The session key wrapped under the public key of recipient `i`.
    PublicKeyWrap(usize),
    /// The session key wrapped under a key derived from password `i`.
    PasswordWrap(usize),
    /// The content, encrypted under the session key.
    EncryptedData,
}

/// The records of a message to `recipients` recipients and `passwords`
/// passwords, in the order written: the public-key wrappings, the password
/// wrappings, then the encrypted content.
pub open spec fn layout(recipients: nat, passwords: nat) -> Seq<Packet> {
    Seq::new(recipients, |i: int| Packet::PublicKeyWrap(i as usize)) + Seq::new(
        passwords,
        |i: int| Packet::PasswordWrap(i as usize),
    ) + seq![Packet::EncryptedData]
}

/// The records that an encrypted message to `recipients` recipients and
/// `passwords` passwords consists of. A message for nobody would be left
/// unreadable or unprotected: it is refused with `InvalidArgument`.
pub fn packet_layout(recipients: usize, passwords: usize) -> (r: Result<Vec<Packet>>)
    ensures
        r is Err <==> recipients == 0 && passwords == 0,
        r is Err ==> r->Err_0 is InvalidArgument,
        r is Ok ==> r->Ok_0@ == layout(recipients as nat, passwords as nat),
{
    if recipients == 0 && passwords == 0 {
        return Err(Error::InvalidArgument(String::from_str("no recipient and no password")));
    }
    let ghost keys = Seq::new(recipients as nat, |i: int| Packet::PublicKeyWrap(i as usize));
    let mut v: Vec<Packet> = Vec::new();
    let mut i: usize = 0;
    while i < recipients
        invariant
            i <= recipients,
            v@ == Seq::new(i as nat, |k: int| Packet::PublicKeyWrap(k as usize)),
        decreases recipients - i,
    {
        v.push(Packet::PublicKeyWrap(i));
        i = i + 1;
        assert(v@ =~= Seq::new(i as nat, |k: int| Packet::PublicKeyWrap(k as usize)));
    }
    let mut j: usize = 0;
    while j < passwords
        invariant
            j <= passwords,
            v@ == keys + Seq::new(j as nat, |k: int| Packet::PasswordWrap(k as usize)),
        decreases passwords - j,
    {
        v.push(Packet::PasswordWrap(j));
        j = j + 1;
        assert(v@ =~= keys + Seq::new(j as nat, |k: int| Packet::PasswordWrap(k as usize)));
    }
    v.push(Packet::EncryptedData);
    assert(v@ =~= layout(recipients as nat, passwords as nat));
    Ok(v)
}

/// A fresh session key for `algo`, filled by the backend's randomness and
/// exactly as long as the cipher's key. A cipher without a known key length
/// is refused with `InvalidArgument`; a failure of the randomness is passed
/// on.
pub fn session_key_for<B: Backend>(algo: SymmetricAlgorithm) -> (r: Result<SessionKey>)
    ensures
        key_len(algo) is None ==> r is Err && r->Err_0 is InvalidArgument,
        r is Ok ==> key_len(algo) == Some(r->Ok_0@.len()),
{
    let n = match algo.key_size() {
        Some(n) => n,
        None => {
            return Err(Error::InvalidArgument(String::from_str("cipher without a key length")));
        },
    };
    let mut buf: Vec<u8> = Vec::with_capacity(n);
    let mut i: usize = 0;
    while i < n
        invariant
            i <= n,
            buf@.len() == i,
        decreases n - i,
    {
        buf.push(0u8);
        i = i + 1;
    }
    match B::random(buf.as_mut_slice()) {
        Ok(()) => Ok(Protected::from_vec(buf)),
        Err(e) => Err(e),
    }
}

} // verus!
