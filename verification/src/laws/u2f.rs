//! U2F: what a raw request is answered.
use vstd::prelude::*;
use crate::bytes::be_digits;
use crate::credential::{counted, lookup, CredentialView};
use crate::crypto::p256_signature;
use crate::u2f::{apdu_of, handle_effect, ApduView, U2fResponse};

verus! {

/// A raw extended APDU: four header bytes, the data length in three bytes, the data, and
/// whatever follows.
pub open spec fn raw_apdu(cla: u8, ins: u8, p1: u8, p2: u8, data: Seq<u8>,
    rest: Seq<u8>) -> Seq<u8> {
    seq![cla, ins, p1, p2, 0, (data.len() / 256) as u8, (data.len() % 256) as u8] + data + rest
}

/// The data of an authentication: the challenge, the application, and the key handle behind
/// its length.
pub open spec fn raw_authentication(
    challenge: Seq<u8>,
    application: Seq<u8>,
    handle: Seq<u8>,
    rest: Seq<u8>,
) -> Seq<u8> {
    challenge + application + seq![handle.len() as u8] + handle + rest
}

/// A raw APDU with at most 256 bytes of data is read for exactly its parts.
pub proof fn raw_apdu_is_read(cla: u8, ins: u8, p1: u8, p2: u8, data: Seq<u8>, rest: Seq<u8>)
    requires
        data.len() <= 256,
    ensures
        apdu_of(raw_apdu(cla, ins, p1, p2, data, rest))
            == Some(ApduView { cla, ins, p1, p2, data }),
{
    let bytes = raw_apdu(cla, ins, p1, p2, data, rest);
    assert(bytes.subrange(7, 7int + data.len()) =~= data);
}

/// A request that is shorter than its header or than it announces, or announces more than
/// 256 bytes, has the wrong length.
pub proof fn cut_request_has_the_wrong_length(
    request: Seq<u8>,
    up_confirmed: bool,
    before: Seq<CredentialView>,
    after: Seq<CredentialView>,
    refused: bool,
    response: U2fResponse,
)
    requires
        handle_effect(request, up_confirmed, before, after, refused, response),
        ({
            let announced = request[4] * 0x10000 + request[5] * 0x100 + request[6];
            request.len() < 7 || announced > 256 || request.len() < 7 + announced
        }),
    ensures
        response.status == 0x6700,
        response.data@.len() == 0,
        after == before,
{
}

/// Which requests are answered at all: those of class zero, and of them the version and the
/// authentication.
pub proof fn requests_are_dispatched(
    cla: u8,
    ins: u8,
    p1: u8,
    p2: u8,
    data: Seq<u8>,
    rest: Seq<u8>,
    up_confirmed: bool,
    before: Seq<CredentialView>,
    after: Seq<CredentialView>,
    refused: bool,
    response: U2fResponse,
)
    requires
        data.len() <= 256,
        handle_effect(
            raw_apdu(cla, ins, p1, p2, data, rest),
            up_confirmed,
            before,
            after,
            refused,
            response,
        ),
    ensures
        cla != 0 ==> response.status == 0x6E00 && response.data@.len() == 0 && after == before,
        cla == 0 && ins == 0x03 ==> response.status == 0x9000 && response.data@ == seq![
            0x55u8,
            0x32,
            0x46,
            0x5F,
            0x56,
            0x32,
        ] && after == before,
        cla == 0 && ins != 0x03 && ins != 0x02 ==> response.status == 0x6D00
            && response.data@.len() == 0 && after == before,
{
    raw_apdu_is_read(cla, ins, p1, p2, data, rest);
    assert(crate::u2f::VERSION_TEXT@ =~= seq![0x55u8, 0x32, 0x46, 0x5F, 0x56, 0x32]);
}

/// What an authentication is answered. An unknown key handle is wrong data; a check says
/// whether the handle is known and signs nothing; without presence nothing is signed; with
/// it the answer is the presence byte, the next counter and the signature over the
/// application, the presence byte, the counter and the challenge, made with the key of the
/// credential. A counter that the store refused is zero.
pub proof fn authentication_is_answered(
    p1: u8,
    p2: u8,
    challenge: Seq<u8>,
    application: Seq<u8>,
    handle: Seq<u8>,
    more: Seq<u8>,
    rest: Seq<u8>,
    up_confirmed: bool,
    before: Seq<CredentialView>,
    after: Seq<CredentialView>,
    refused: bool,
    response: U2fResponse,
)
    requires
        challenge.len() == 32,
        application.len() == 32,
        0 < handle.len() <= 255,
        65 + handle.len() + more.len() <= 256,
        handle_effect(
            raw_apdu(0, 0x02, p1, p2, raw_authentication(challenge, application, handle, more),
                rest),
            up_confirmed,
            before,
            after,
            refused,
            response,
        ),
    ensures
        lookup(before, handle) is None ==> response.status == 0x6A80 && response.data@.len() == 0
            && after == before,
        lookup(before, handle) matches Some(c) ==> {
            let n = if refused {
                0u32
            } else if c.sign_count < u32::MAX {
                (c.sign_count + 1) as u32
            } else {
                u32::MAX
            };
            let message = seq![0u8] + application + seq![1u8] + be_digits(n as nat, 4) + challenge;
            &&& p1 == 0x07 ==> response.status == 0x9000 && response.data@.len() == 0 && after
                == before
            &&& p1 != 0x07 && p1 != 0x03 ==> response.status == 0x6A80 && response.data@.len() == 0
                && after == before
            &&& p1 == 0x03 && !up_confirmed ==> response.status == 0x6985 && response.data@.len()
                == 0 && after == before
            &&& p1 == 0x03 && up_confirmed ==> {
                &&& after == counted(before, handle)
                &&& p256_signature(c.private_key, message) matches Some(signature) ==> (
                signature.len() <= 80 ==> response.status == 0x9000 && response.data@ == seq![1u8]
                    + be_digits(n as nat, 4) + signature)
                &&& p256_signature(c.private_key, message) is None ==> response.status == 0x6985
                    && response.data@.len() == 0
            }
        },
{
    let data = raw_authentication(challenge, application, handle, more);
    raw_apdu_is_read(0, 0x02, p1, p2, data, rest);
    assert(data[64] == handle.len());
    assert(data.subrange(65, 65int + handle.len()) =~= handle);
    assert(data.subrange(0, 32) =~= challenge);
    assert(data.subrange(32, 64) =~= application);
}

/// Data that is too short for a key handle, or has none, is wrong data.
pub proof fn authentication_needs_a_key_handle(
    p1: u8,
    p2: u8,
    data: Seq<u8>,
    rest: Seq<u8>,
    up_confirmed: bool,
    before: Seq<CredentialView>,
    after: Seq<CredentialView>,
    refused: bool,
    response: U2fResponse,
)
    requires
        data.len() <= 256,
        data.len() < 65 || data[64] == 0 || data.len() < 65 + data[64],
        handle_effect(
            raw_apdu(0, 0x02, p1, p2, data, rest),
            up_confirmed,
            before,
            after,
            refused,
            response,
        ),
    ensures
        response.status == 0x6A80,
        response.data@.len() == 0,
        after == before,
{
    raw_apdu_is_read(0, 0x02, p1, p2, data, rest);
}

/// A counter that the store gave is signed as it is, and one that it refused as zero.
pub proof fn refused_counter_is_zero(n: u32)
    ensures
        crate::u2f::signed_counter(Some(n)) == n,
        crate::u2f::signed_counter(None) == 0,
{
}

/// Presence is asked for by an authentication that enforces it, and by no other request.
pub proof fn enforced_authentication_asks_for_presence(
    cla: u8,
    ins: u8,
    p1: u8,
    p2: u8,
    data: Seq<u8>,
    rest: Seq<u8>,
)
    requires
        data.len() <= 256,
    ensures
        crate::u2f::asks_for_presence(raw_apdu(cla, ins, p1, p2, data, rest)) <==> (ins == 0x02
            && p1 == 0x03),
{
    raw_apdu_is_read(cla, ins, p1, p2, data, rest);
}

} // verus!
