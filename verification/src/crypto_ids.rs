//! Device identities of the bridge's end-to-bridge encryption, and which
//! crypto machine serves which user.
use vstd::prelude::*;
use vstd::string::*;
use vstd::utf8::*;

use crate::attachment::{sha256, sha256_view};
use crate::platform::{localpart_of, spec_localpart};
use crate::text::push_char;

verus! {

/// The lowercase hexadecimal digit of `n` (0 to 15).
pub open spec fn hex_digit(n: int) -> char {
    if n < 10 {
        ('0' as int + n) as char
    } else {
        ('a' as int + n - 10) as char
    }
}

/// Two lowercase hexadecimal digits per byte.
pub open spec fn hex_of(bytes: Seq<u8>) -> Seq<char>
    decreases bytes.len(),
{
    if bytes.len() == 0 {
        Seq::empty()
    } else {
        hex_of(bytes.drop_last()) + seq![
            hex_digit(bytes.last() as int / 16),
            hex_digit(bytes.last() as int % 16),
        ]
    }
}

fn hex_char(n: u8) -> (r: char)
    requires
        n < 16,
    ensures
        r == hex_digit(n as int),
{
    if n < 10 {
        ((48u8 + n) as char)
    } else {
        ((97u8 + n - 10) as char)
    }
}

/// The device ID of a puppet: `{prefix}_` and the hexadecimal of the first
/// 8 bytes of the SHA-256 of the puppet's localpart. The same user always
/// gets the same device.
pub fn puppet_device_id(user_id: &str, prefix: &str) -> (r: String)
    ensures
        r@ == prefix@ + seq!['_'] + hex_of(
            sha256_view(encode_utf8(spec_localpart(user_id@))).take(8),
        ),
{
    let lp = localpart_of(user_id);
    let hash = sha256(lp.as_str().as_bytes());
    let ghost h8 = hash@.take(8);
    let mut out = String::from_str(prefix);
    push_char(&mut out, '_');
    let ghost head = out@;
    let mut i: usize = 0;
    while i < 8
        invariant
            i <= 8,
            hash@.len() == 32,
            h8 == hash@.take(8),
            out@ == head + hex_of(h8.take(i as int)),
        decreases 8 - i,
    {
        let b = hash[i];
        push_char(&mut out, hex_char(b / 16));
        push_char(&mut out, hex_char(b % 16));
        proof {
            assert(h8.take(i + 1).drop_last() =~= h8.take(i as int));
            assert(h8.take(i + 1).last() == b);
        }
        assert(out@ =~= head + hex_of(h8.take(i + 1)));
        i = i + 1;
    }
    assert(h8.take(8) =~= h8);
    out
}

/// Which crypto machine serves a user.
#[derive(Debug, Clone, Copy, PartialEq, Eq, Structural)]
pub enum CryptoMachine {
    /// The bridge bot's machine.
    Bot,
    /// The user's own puppet machine, if it was initialized.
    Puppet,
}

/// The bot's machine serves the bot, and every user when crypto is not per
/// user; otherwise a puppet has a machine of its own.
pub fn machine_for(user_id: &str, bot_user_id: &str, per_user: bool) -> (r: CryptoMachine)
    ensures
        r == (if user_id@ == bot_user_id@ || !per_user {
            CryptoMachine::Bot
        } else {
            CryptoMachine::Puppet
        }),
{
    if crate::text::str_eq(user_id, bot_user_id) || !per_user {
        CryptoMachine::Bot
    } else {
        CryptoMachine::Puppet
    }
}

} // verus!
