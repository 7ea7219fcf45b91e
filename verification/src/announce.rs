//! The identity announcement: the synthetic message sent to a peer right
//! after registration, stating the identity it was assigned. Built here as
//! bytes, with the decimal rendering of the identity proved exact.

use vstd::prelude::*;

verus! {

/// The decimal digits of `n`, most significant first, as ASCII bytes.
pub open spec fn dec_rep(n: nat) -> Seq<u8>
    decreases n,
{
    if n < 10 {
        seq![(0x30 + n) as u8]
    } else {
        dec_rep(n / 10).push((0x30 + n % 10) as u8)
    }
}

/// The fixed prefix of the announcement: the bytes of "Your cid is ".
pub open spec fn announcement_prefix() -> Seq<u8> {
    seq![
        0x59u8,
        0x6fu8,
        0x75u8,
        0x72u8,
        0x20u8,
        0x63u8,
        0x69u8,
        0x64u8,
        0x20u8,
        0x69u8,
        0x73u8,
        0x20u8,
    ]
}

/// The full announcement for identity `id`: the prefix followed by the
/// decimal identity.
pub open spec fn announcement_bytes(id: u64) -> Seq<u8> {
    announcement_prefix() + dec_rep(id as nat)
}

/// Append the decimal digits of `n` to `out`, most significant first.
fn push_dec(out: &mut Vec<u8>, n: u64)
    ensures
        final(out)@ == old(out)@ + dec_rep(n as nat),
    decreases n,
{
    if n >= 10 {
        assert(n / 10 < n) by (nonlinear_arith)
            requires
                n >= 10,
        ;
        push_dec(out, n / 10);
    }
    let digit: u8 = 0x30 + (n % 10) as u8;
    out.push(digit);
    proof {
        if n < 10 {
            assert(old(out)@ + dec_rep(n as nat) =~= old(out)@.push(digit));
        } else {
            assert(old(out)@ + dec_rep(n as nat) =~= (old(out)@ + dec_rep((n / 10) as nat)).push(
                digit,
            ));
        }
    }
}

/// The announcement message for a freshly assigned identity, as the exact
/// byte sequence "Your cid is " followed by the identity in decimal.
pub fn announcement(id: u64) -> (r: Vec<u8>)
    ensures
        r@ == announcement_bytes(id),
{
    let mut out: Vec<u8> = Vec::new();
    out.push(0x59u8);
    out.push(0x6fu8);
    out.push(0x75u8);
    out.push(0x72u8);
    out.push(0x20u8);
    out.push(0x63u8);
    out.push(0x69u8);
    out.push(0x64u8);
    out.push(0x20u8);
    out.push(0x69u8);
    out.push(0x73u8);
    out.push(0x20u8);
    proof {
        assert(out@ =~= announcement_prefix());
    }
    push_dec(&mut out, id);
    out
}

} // verus!
