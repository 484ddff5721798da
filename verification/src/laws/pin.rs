//! PIN protocol: which PINs are set and accepted, and what a token is good for.
use vstd::prelude::*;
use crate::authenticator::Rng;
use crate::crypto::{
    cbc_decrypted, cbc_encrypted, hmac_of, is_scalar, p256_agreed, p256_key_valid, p256_point,
    sha256_of,
};
use crate::ctap2::Ctap2Status;
use crate::pin::{
    agreement_outcome, token_outcome, ClientPinRequestView, ClientPinView, Ec2KeyAgreementView,
    KeyAgreementResponse, PinState, PinTokenResponse,
};

verus! {

/// The secret that a private scalar and the platform's public point share, where both are
/// what they have to be.
pub open spec fn secret_of(private: Seq<u8>, platform: Ec2KeyAgreementView) -> Option<Seq<u8>> {
    if p256_point(private) is Some && p256_key_valid(seq![0x04u8] + platform.x + platform.y) {
        p256_agreed(private, seq![0x04u8] + platform.x + platform.y)
    } else {
        None
    }
}

/// The secret of a request is that of the last key agreement and the key that it carries.
pub proof fn secret_is_that_of_the_last_agreement(
    handler: ClientPinView,
    request: ClientPinRequestView,
)
    ensures
        request.key_agreement is None <==> handler.shared(request) == Err::<Seq<u8>, Ctap2Status>(
            Ctap2Status::MissingParameter,
        ),
        request.key_agreement matches Some(platform) ==> {
            &&& handler.agreement_private is None ==> handler.shared(request) == Err::<
                Seq<u8>,
                Ctap2Status,
            >(Ctap2Status::InvalidParameter)
            &&& handler.agreement_private matches Some(private) ==> {
                &&& secret_of(private, platform) matches Some(secret) ==> handler.shared(request)
                    == Ok::<Seq<u8>, Ctap2Status>(secret)
                &&& p256_point(private) is None ==> handler.shared(request) == Err::<
                    Seq<u8>,
                    Ctap2Status,
                >(Ctap2Status::Other)
                &&& p256_point(private) is Some && !p256_key_valid(
                    seq![0x04u8] + platform.x + platform.y,
                ) ==> handler.shared(request) == Err::<Seq<u8>, Ctap2Status>(
                    Ctap2Status::InvalidParameter,
                )
            }
        },
{
}

/// Whether a payload was sent under a secret: whole blocks, with the HMAC over them.
pub open spec fn sent_under(secret: Seq<u8>, payload: Seq<u8>, auth: Seq<u8>) -> bool {
    &&& auth == hmac_of(secret, payload)
    &&& payload.len() > 0
    &&& payload.len() % 16 == 0
}

/// A PIN that the platform sends under the secret is set: what is stored is the hash of
/// the first 64 bytes of what was sent. Nothing else sets a PIN.
pub proof fn sent_pin_is_set(handler: ClientPinView, request: ClientPinRequestView, secret: Seq<u8>)
    requires
        handler.shared(request) == Ok::<Seq<u8>, Ctap2Status>(secret),
    ensures
        ({
            let r = handler.hash_to_set(request);
            match (request.new_pin_enc, request.pin_uv_auth_param) {
                (Some(payload), Some(auth)) => {
                    let block = cbc_decrypted(secret, secret.subrange(0, 16), payload);
                    &&& sent_under(secret, payload, auth) && block.len() >= 64 ==> r == Ok::<
                        Seq<u8>,
                        Ctap2Status,
                    >(sha256_of(block.subrange(0, 64)))
                    &&& auth != hmac_of(secret, payload) ==> r == Err::<Seq<u8>, Ctap2Status>(
                        Ctap2Status::PinAuthInvalid,
                    )
                    &&& auth == hmac_of(secret, payload) && (payload.len() == 0
                    || payload.len() % 16
                        != 0) ==> r == Err::<Seq<u8>, Ctap2Status>(Ctap2Status::InvalidLength)
                    &&& sent_under(secret, payload, auth) && block.len() < 64 ==> r == Err::<
                        Seq<u8>,
                        Ctap2Status,
                    >(Ctap2Status::InvalidLength)
                },
                _ => r == Err::<Seq<u8>, Ctap2Status>(Ctap2Status::MissingParameter),
            }
        }),
{
    if let Some(payload) = request.new_pin_enc {
        let block = cbc_decrypted(secret, secret.subrange(0, 16), payload);
        if block.len() >= 64 {
            assert(crate::pin::padded(block.subrange(0, 64)) =~= block.subrange(0, 64));
        }
    }
}

/// A PIN hash that the platform sends under the secret is compared with the stored one by
/// its first half, and by nothing else.
pub proof fn sent_hash_is_compared(
    handler: ClientPinView,
    request: ClientPinRequestView,
    secret: Seq<u8>,
    stored: Seq<u8>,
)
    requires
        handler.shared(request) == Ok::<Seq<u8>, Ctap2Status>(secret),
    ensures
        ({
            let r = handler.pin_matches(request, stored);
            match (request.pin_hash_enc, request.pin_uv_auth_param) {
                (Some(payload), Some(auth)) => {
                    let block = cbc_decrypted(secret, secret.subrange(0, 16), payload);
                    &&& sent_under(secret, payload, auth) ==> r == Ok::<bool, Ctap2Status>(
                        block.subrange(0, 16) == stored.subrange(0, 16),
                    )
                    &&& auth != hmac_of(secret, payload) ==> r == Err::<bool, Ctap2Status>(
                        Ctap2Status::PinAuthInvalid,
                    )
                    &&& auth == hmac_of(secret, payload) && (payload.len() == 0
                    || payload.len() % 16
                        != 0) ==> r == Err::<bool, Ctap2Status>(Ctap2Status::InvalidLength)
                },
                _ => r == Err::<bool, Ctap2Status>(Ctap2Status::MissingParameter),
            }
        }),
{
}

/// A request whose secret cannot be made sets and opens nothing, for the reason that the
/// secret lacks.
pub proof fn without_a_secret_nothing_is_opened(
    handler: ClientPinView,
    request: ClientPinRequestView,
    stored: Seq<u8>,
)
    ensures
        handler.shared(request) matches Err(status) ==> {
            &&& handler.hash_to_set(request) == Err::<Seq<u8>, Ctap2Status>(status)
            &&& handler.pin_matches(request, stored) == Err::<bool, Ctap2Status>(status)
        },
{
}

/// Setting a PIN changes the state exactly where the request is good and the state takes
/// it: then the hash is the one that was sent, and all eight tries are there.
pub proof fn set_pin_takes_effect<P: PinState>(
    handler: ClientPinView,
    request: ClientPinRequestView,
    before: P,
    after: P,
    r: Result<(), Ctap2Status>,
)
    requires
        handler.pin_set(request, before, after, r),
    ensures
        handler.hash_to_set(request) matches Err(status) ==> r == Err::<(), Ctap2Status>(status)
            && after == before,
        handler.hash_to_set(request) matches Ok(hash) ==> {
            &&& after.pin_refusals() == before.pin_refusals() ==> r is Ok
                && after.hash() == Some(hash) && after.retries() == 8
            &&& after.pin_refusals() != before.pin_refusals() ==> r == Err::<(), Ctap2Status>(
                Ctap2Status::Other,
            )
            &&& after.beside() == before.beside()
        },
{
}

/// What a token request gives, by what the state holds and the PIN it carries. Without a
/// PIN there is nothing to ask for; a blocked PIN is blocked whatever is sent; a right PIN
/// gives a token of 32 fresh bytes under the secret and all eight tries; a wrong one costs
/// a try, and the last one blocks.
pub proof fn token_is_given_for_the_right_pin<P: PinState, R: Rng>(
    handler: ClientPinView,
    handler_after: ClientPinView,
    request: ClientPinRequestView,
    before: P,
    after: P,
    rng_before: R,
    rng_after: R,
    r: Result<PinTokenResponse, Ctap2Status>,
)
    requires
        token_outcome(handler, handler_after, request, before, after, rng_before, rng_after, r),
    ensures
        before.hash() is None ==> r == Err::<PinTokenResponse, Ctap2Status>(Ctap2Status::PinNotSet),
        before.hash() is Some && before.retries() == 0 ==> r == Err::<
            PinTokenResponse,
            Ctap2Status,
        >(Ctap2Status::PinBlocked) && after.retries() == 0,
        after.hash() == before.hash(),
        after.beside() == before.beside(),
        before.hash() matches Some(stored) ==> before.retries() > 0 ==> {
            let taken = after.pin_refusals() == before.pin_refusals();
            &&& handler.pin_matches(request, stored) matches Err(status) ==> r == Err::<
                PinTokenResponse,
                Ctap2Status,
            >(status) && after.retries() == before.retries()
            &&& handler.pin_matches(request, stored) == Ok::<bool, Ctap2Status>(true) && taken ==> {
                &&& after.retries() == 8
                &&& r matches Ok(response)
                &&& handler.shared(request) matches Ok(secret)
                &&& handler_after.pin_uv_auth_token matches Some(token)
                &&& token.len() == 32
                &&& rng_after.drawn() == rng_before.drawn().push(token)
                &&& response.token@ == cbc_encrypted(secret, secret.subrange(0, 16), token)
                &&& cbc_decrypted(secret, secret.subrange(0, 16), response.token@) == token
            }
            &&& handler.pin_matches(request, stored) == Ok::<bool, Ctap2Status>(false)
            && taken ==> {
                &&& after.retries() == before.retries() - 1
                &&& r == Err::<PinTokenResponse, Ctap2Status>(
                    if before.retries() == 1 {
                        Ctap2Status::PinBlocked
                    } else {
                        Ctap2Status::PinInvalid
                    },
                )
            }
            &&& handler.pin_matches(request, stored) is Ok && !taken ==> r == Err::<
                PinTokenResponse,
                Ctap2Status,
            >(Ctap2Status::Other)
        },
        r is Err ==> handler_after == handler && rng_after.drawn() == rng_before.drawn(),
{
}

/// A token authenticates the front of its HMAC of a message, of any length from one byte
/// to all 32, and nothing else; without a token nothing is authenticated.
pub proof fn token_authenticates_its_messages(
    handler: ClientPinView,
    message: Seq<u8>,
    param: Seq<u8>,
    n: int,
)
    ensures
        handler.pin_uv_auth_token is None ==> !handler.authenticates(param, message),
        handler.pin_uv_auth_token matches Some(token) ==> {
            let whole = hmac_of(token, message);
            &&& 1 <= n <= 32 && whole.len() == 32 ==> handler.authenticates(
                whole.subrange(0, n),
                message,
            )
            &&& handler.authenticates(param, message) ==> 1 <= param.len() <= 32 && param
                == whole.subrange(0, param.len() as int)
        },
        param.len() == 0 || param.len() > 32 ==> !handler.authenticates(param, message),
{
}

/// The bytes that are hashed for a PIN: the PIN, filled up with zeros to 64, and cut there.
pub proof fn pin_is_padded_with_zeros(pin: Seq<u8>, i: int)
    ensures
        crate::pin::padded(pin).len() == 64,
        0 <= i < 64 && i < pin.len() ==> crate::pin::padded(pin)[i] == pin[i],
        pin.len() <= i < 64 ==> crate::pin::padded(pin)[i] == 0,
{
}

/// A key agreement answers with the point of the key that it retains, which is the first
/// scalar of at most sixteen fresh draws; it keeps the token. Where none of the sixteen is a
/// scalar it fails, and only then.
pub proof fn agreement_retains_what_it_answers(
    before: ClientPinView,
    after: ClientPinView,
    drawn: Seq<Seq<u8>>,
    drawn_after: Seq<Seq<u8>>,
    r: Result<KeyAgreementResponse, Ctap2Status>,
    j: int,
)
    requires
        agreement_outcome(before, after, drawn, drawn_after, r),
    ensures
        drawn.len() < drawn_after.len() <= drawn.len() + 16,
        drawn.len() <= j < drawn_after.len() ==> drawn_after[j].len() == 32,
        drawn.len() <= j < drawn_after.len() - 1 ==> !is_scalar(drawn_after[j]),
        r is Ok <==> is_scalar(drawn_after[drawn_after.len() - 1]),
        r matches Ok(response) ==> {
            &&& after.agreement_private matches Some(private)
            &&& private == drawn_after[drawn_after.len() - 1]
            &&& p256_point(private) == Some((response.key.x@, response.key.y@))
            &&& after.pin_uv_auth_token == before.pin_uv_auth_token
        },
        r matches Err(status) ==> status == Ctap2Status::Other && after == before
            && drawn_after.len() == drawn.len() + 16,
{
}

} // verus!
