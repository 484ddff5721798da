//! Registration and assertion: which credential is made, found, refused and signed
//! with.
use vstd::prelude::*;
use vstd::utf8::encode_utf8;
use crate::authenticator::{
    answered, asserted, assertion_outcome, chosen, count_given, deletion_outcome, first_allowed,
    key_drawn, metadata_of, new_credential, registered, registration, registration_denied,
    registration_outcome, reset_outcome, GetAssertionResponse, KeyPair, MakeCredentialResponse, Rng,
    TokenStore,
};
use crate::bytes::{be_value, digits_of_four, digits_of_two, regroup};
use crate::cbor::{bytes_item, int_item, map_head, text_item};
use crate::codec::Encode;
use crate::credential::{
    counted, inserted, is_first, is_preferred, lookup, occurring_id_has_a_place, place_is_unique,
    place_of, removed, stored_credential_is_found, CredentialStore, CredentialView,
};
use crate::crypto::{is_scalar, p256_order, p256_point, p256_signature, sha256_of};
use crate::ctap2::{ec2_form_length, Ctap2Status, GetAssertionView, MakeCredentialView};

verus! {

/// Whether credential `k` of the list is the first with its id, and belongs to the
/// relying party.
pub open spec fn answers_for(
    credentials: Seq<CredentialView>,
    k: int,
    id: Seq<u8>,
    rp_id: Seq<char>,
) -> bool {
    &&& 0 <= k < credentials.len()
    &&& credentials[k].id == id
    &&& credentials[k].rp_id == rp_id
    &&& forall|j: int| 0 <= j < k ==> (#[trigger] credentials[j]).id != id
}

/// Whether an id is stored for the relying party.
pub open spec fn stored_for(credentials: Seq<CredentialView>, id: Seq<u8>,
    rp_id: Seq<char>) -> bool {
    exists|k: int| answers_for(credentials, k, id, rp_id)
}

/// Looking an id up finds the first credential that has it, and nothing where none
/// has it.
pub proof fn lookup_finds_the_first(credentials: Seq<CredentialView>, id: Seq<u8>, k: int)
    ensures
        0 <= k < credentials.len() && credentials[k].id == id && (forall|j: int|
            0 <= j < k ==> (#[trigger] credentials[j]).id != id)
                ==> lookup(credentials, id) == Some(
            credentials[k],
        ),
        (forall|j: int| 0 <= j < credentials.len() ==> (#[trigger] credentials[j]).id != id)
            ==> lookup(credentials, id) is None,
        lookup(credentials, id) matches Some(c) ==> c.id == id && exists|j: int|
            0 <= j < credentials.len() && #[trigger] credentials[j] == c,
{
    if 0 <= k < credentials.len() && credentials[k].id == id && (forall|j: int|
        0 <= j < k ==> (#[trigger] credentials[j]).id != id) {
        assert(is_first(credentials, id, k));
        place_is_unique(credentials, id, k);
    }
    if exists|i: int| is_first(credentials, id, i) {
        let i = choose|i: int| is_first(credentials, id, i);
        assert(credentials[i].id == id);
    }
}

proof fn stored_means_looked_up(credentials: Seq<CredentialView>, id: Seq<u8>, rp_id: Seq<char>)
    ensures
        stored_for(credentials, id, rp_id) <==> (lookup(credentials, id) matches Some(c) && c.rp_id
            == rp_id),
{
    if stored_for(credentials, id, rp_id) {
        let k = choose|k: int| answers_for(credentials, k, id, rp_id);
        lookup_finds_the_first(credentials, id, k);
    }
    if let Some(c) = lookup(credentials, id) {
        if c.rp_id == rp_id {
            let k = place_of(credentials, id)->0;
            assert(is_first(credentials, id, k));
            assert(answers_for(credentials, k, id, rp_id));
        }
    }
}

proof fn first_allowed_is_the_first(
    credentials: Seq<CredentialView>,
    list: Seq<Seq<u8>>,
    rp_id: Seq<char>,
    from: int,
    i: int,
)
    requires
        0 <= from <= i < list.len(),
        lookup(credentials, list[i]) matches Some(c) && c.rp_id == rp_id,
        forall|j: int|
            from <= j < i ==> !(lookup(credentials, #[trigger] list[j]) matches Some(c) && c.rp_id
                == rp_id),
    ensures
        first_allowed(credentials, list, rp_id, from) == lookup(credentials, list[i]),
    decreases i - from,
{
    if from < i {
        assert(!(lookup(credentials, list[from]) matches Some(c) && c.rp_id == rp_id));
        first_allowed_is_the_first(credentials, list, rp_id, from + 1, i);
    }
}

proof fn none_allowed(
    credentials: Seq<CredentialView>,
    list: Seq<Seq<u8>>,
    rp_id: Seq<char>,
    from: int,
)
    requires
        0 <= from <= list.len(),
        forall|j: int|
            from <= j < list.len() ==> !(lookup(credentials, #[trigger] list[j]) matches Some(c)
                && c.rp_id == rp_id),
    ensures
        first_allowed(credentials, list, rp_id, from) is None,
    decreases list.len() - from,
{
    if from < list.len() {
        assert(!(lookup(credentials, list[from]) matches Some(c) && c.rp_id == rp_id));
        none_allowed(credentials, list, rp_id, from + 1);
    }
}

/// An allow list is searched to its end: the listed credential that answers is the
/// one of the first place whose id is stored for the relying party, wherever that
/// place is and whatever stands before it.
pub proof fn allow_list_is_searched_to_its_end(
    credentials: Seq<CredentialView>,
    request: GetAssertionView,
    i: int,
    k: int,
)
    requires
        0 <= i < request.allow_list.len(),
        answers_for(credentials, k, request.allow_list[i], request.rp_id),
        forall|j: int|
            0 <= j < i ==> !stored_for(
                credentials,
                #[trigger] request.allow_list[j],
                request.rp_id,
            ),
    ensures
        chosen(credentials, request) == Some(credentials[k]),
{
    let list = request.allow_list;
    lookup_finds_the_first(credentials, list[i], k);
    assert forall|j: int| 0 <= j < i implies !(lookup(credentials, #[trigger] list[j]) matches Some(
        c,
    ) && c.rp_id == request.rp_id) by {
        stored_means_looked_up(credentials, list[j], request.rp_id);
    }
    first_allowed_is_the_first(credentials, list, request.rp_id, 0, i);
}

/// Where nothing on a list is stored for the relying party, nothing answers, and no
/// other credential steps in.
pub proof fn unlisted_credentials_do_not_answer(
    credentials: Seq<CredentialView>,
    request: GetAssertionView,
)
    requires
        request.allow_list.len() > 0,
        forall|j: int|
            0 <= j < request.allow_list.len() ==> !stored_for(
                credentials,
                #[trigger] request.allow_list[j],
                request.rp_id,
            ),
    ensures
        chosen(credentials, request) is None,
{
    let list = request.allow_list;
    assert forall|j: int| 0 <= j < list.len() implies !(lookup(credentials, #[trigger] list[j])
        matches Some(c) && c.rp_id == request.rp_id) by {
        stored_means_looked_up(credentials, list[j], request.rp_id);
    }
    none_allowed(credentials, list, request.rp_id, 0);
}

proof fn some_is_preferred(credentials: Seq<CredentialView>, rp_id: Seq<char>, i: int,
    n: int) -> (k:
    int)
    requires
        0 <= i < n <= credentials.len(),
        credentials[i].rp_id == rp_id,
    ensures
        is_preferred(credentials.take(n), rp_id, k),
    decreases n,
{
    let seen = credentials.take(n);
    let last = n - 1;
    if i == last && forall|j: int|
        0 <= j < last ==> (#[trigger] credentials[j]).rp_id != rp_id {
        assert forall|j: int| 0 <= j < seen.len() && j != last implies (#[trigger] seen[j]).rp_id
            != rp_id by {
            assert(credentials[j].rp_id != rp_id);
        }
        last
    } else {
        let other = if i < last {
            i
        } else {
            choose|j: int| 0 <= j < last && (#[trigger] credentials[j]).rp_id == rp_id
        };
        let best = some_is_preferred(credentials, rp_id, other, last);
        let fewer = credentials.take(last);
        assert(fewer[best].rp_id == rp_id);
        let k = if credentials[last].rp_id == rp_id && (credentials[last].discoverable
            || !credentials[best].discoverable) {
            last
        } else {
            best
        };
        assert forall|j: int| 0 <= j < seen.len() && j != k && (#[trigger] seen[j]).rp_id
            == rp_id implies {
            ||| seen[k].discoverable && !seen[j].discoverable
            ||| seen[k].discoverable == seen[j].discoverable && j < k
        } by {
            if j < last {
                assert(fewer[j] == seen[j]);
                if j != best {
                    assert(fewer[j].rp_id == rp_id);
                }
            }
        }
        k
    }
}

/// Without an allow list, a credential of the relying party answers wherever there is
/// one: a discoverable one before others, and of several the one stored last.
pub proof fn any_credential_of_the_relying_party_answers(
    credentials: Seq<CredentialView>,
    request: GetAssertionView,
    i: int,
)
    requires
        request.allow_list.len() == 0,
        0 <= i < credentials.len(),
        credentials[i].rp_id == request.rp_id,
    ensures
        exists|k: int|
            {
                &&& 0 <= k < credentials.len()
                &&& chosen(credentials, request) == Some(#[trigger] credentials[k])
                &&& credentials[k].rp_id == request.rp_id
                &&& credentials[i].discoverable ==> credentials[k].discoverable
                &&& credentials[i].discoverable == credentials[k].discoverable ==> i <= k
            },
{
    let best = some_is_preferred(credentials, request.rp_id, i, credentials.len() as int);
    assert(credentials.take(credentials.len() as int) =~= credentials);
    let k = choose|k: int| is_preferred(credentials, request.rp_id, k);
    assert(is_preferred(credentials, request.rp_id, best));
    assert(is_preferred(credentials, request.rp_id, k));
    assert(credentials[i].rp_id == request.rp_id);
    assert(chosen(credentials, request) == Some(credentials[k]));
}

/// Without an allow list and without a credential of the relying party nothing
/// answers.
pub proof fn nothing_stored_nothing_answers(
    credentials: Seq<CredentialView>,
    request: GetAssertionView,
)
    requires
        forall|i: int|
            0 <= i < credentials.len() ==> (#[trigger] credentials[i]).rp_id != request.rp_id,
    ensures
        chosen(credentials, request) is None,
{
    if request.allow_list.len() > 0 {
        assert forall|j: int| 0 <= j < request.allow_list.len() implies !stored_for(
            credentials,
            #[trigger] request.allow_list[j],
            request.rp_id,
        ) by {}
        unlisted_credentials_do_not_answer(credentials, request);
    } else if exists|k: int| is_preferred(credentials, request.rp_id, k) {
        let k = choose|k: int| is_preferred(credentials, request.rp_id, k);
        assert(credentials[k].rp_id == request.rp_id);
    }
}

/// A registration is refused before anything is drawn exactly where presence is
/// missing, where verification was asked for and is missing, or where a listed
/// credential, at any place of the list, is stored for the relying party.
pub proof fn registration_is_refused_for_these_reasons(
    request: MakeCredentialView,
    credentials: Seq<CredentialView>,
    up_confirmed: bool,
    uv_confirmed: bool,
)
    ensures
        ({
            let listed = exists|i: int|
                0 <= i < request.exclude_list.len() && stored_for(
                    credentials,
                    #[trigger] request.exclude_list[i],
                    request.rp_id,
                );
            let r = registration_denied(request, credentials, up_confirmed, uv_confirmed);
            &&& !up_confirmed <==> r == Some(Ctap2Status::UpRequired)
            &&& up_confirmed && request.uv && !uv_confirmed <==> r == Some(
                Ctap2Status::PinAuthInvalid,
            )
            &&& up_confirmed && (uv_confirmed || !request.uv) && listed <==> r == Some(
                Ctap2Status::CredentialExcluded,
            )
            &&& up_confirmed && (uv_confirmed || !request.uv) && !listed <==> r is None
        }),
{
    let list = request.exclude_list;
    assert forall|i: int| 0 <= i < list.len() implies (stored_for(
        credentials,
        #[trigger] list[i],
        request.rp_id,
    ) <==> (lookup(credentials, list[i]) matches Some(c) && c.rp_id == request.rp_id)) by {
        stored_means_looked_up(credentials, list[i], request.rp_id);
    }
}

/// What was registered excludes itself: a second registration for the relying party
/// that lists the credential, at any place, is refused.
pub proof fn registered_credential_is_excluded(
    before: Seq<CredentialView>,
    after: Seq<CredentialView>,
    first: MakeCredentialView,
    uv_confirmed: bool,
    key: KeyPair,
    id: Seq<u8>,
    response: MakeCredentialResponse,
    second: MakeCredentialView,
    i: int,
)
    requires
        registered(before, after, first, uv_confirmed, key, id, response),
        second.rp_id == first.rp_id,
        0 <= i < second.exclude_list.len(),
        second.exclude_list[i] == id,
        second.uv ==> uv_confirmed,
    ensures
        registration_denied(second, after, true, uv_confirmed) == Some(
            Ctap2Status::CredentialExcluded,
        ),
{
    stored_credential_is_found(before, new_credential(first, key, id));
    stored_means_looked_up(after, id, second.rp_id);
    registration_is_refused_for_these_reasons(second, after, true, uv_confirmed);
}

/// The COSE form of a public key: type EC2, algorithm ES256, curve P-256 and the two
/// coordinates.
pub open spec fn public_key_form(x: Seq<u8>, y: Seq<u8>) -> Seq<u8> {
    map_head(5) + int_item(1) + int_item(2) + int_item(3) + int_item(-7) + int_item(-1) + int_item(
        1,
    ) + int_item(-2) + bytes_item(x) + int_item(-3) + bytes_item(y)
}

/// Where each part of the authenticator data of a registration stands: the hash of the
/// relying party, the flags, a counter of zero, the model, the id behind its length,
/// and the public key that belongs to the stored private key. The signature is over
/// all of it and the client data hash, made with that key.
pub proof fn registration_data_is_laid_out(
    before: Seq<CredentialView>,
    after: Seq<CredentialView>,
    request: MakeCredentialView,
    uv_confirmed: bool,
    key: KeyPair,
    id: Seq<u8>,
    response: MakeCredentialResponse,
)
    requires
        registered(before, after, request, uv_confirmed, key, id, response),
        key.matching(),
        id.len() == 16,
        sha256_of(encode_utf8(request.rp_id)).len() == 32,
    ensures
        ({
            let data = response.auth_data@;
            let c = lookup(after, id)->0;
            &&& data.len() == 148
            &&& data.subrange(0, 32) == sha256_of(encode_utf8(request.rp_id))
            &&& data[32] == if uv_confirmed {
                0x45u8
            } else {
                0x41u8
            }
            &&& data.subrange(33, 37) == seq![0u8, 0, 0, 0]
            &&& data.subrange(37, 53) == seq![
                0x41u8,
                0x47,
                0x53,
                0x54,
                0x4F,
                0x4B,
                0x45,
                0x4E,
                0xA3,
                0x67,
                0x69,
                0x73,
                0x2E,
                0x30,
                0x30,
                0x31,
            ]
            &&& data.subrange(53, 55) == seq![0u8, 16]
            &&& data.subrange(55, 71) == id
            &&& data.subrange(71, 148) == public_key_form(key.x@, key.y@)
            &&& lookup(after, id) is Some
            &&& p256_point(c.private_key) == Some((key.x@, key.y@))
            &&& p256_signature(c.private_key, data + request.client_data_hash) == Some(
                response.signature@,
            )
        }),
{
    stored_credential_is_found(before, new_credential(request, key, id));
    digits_of_two(16);
    digits_of_four(0);
    ec2_form_length(key.cose_key());
    let data = response.auth_data@;
    let form = public_key_form(key.x@, key.y@);
    assert(form =~= key.cose_key().cbor());
    assert(data.subrange(0, 32) =~= sha256_of(encode_utf8(request.rp_id)));
    assert(data.subrange(33, 37) =~= seq![0u8, 0, 0, 0]);
    assert(data.subrange(37, 53) =~= crate::ctap2::AAGUID@);
    assert(crate::ctap2::AAGUID@ =~= seq![
        0x41u8,
        0x47,
        0x53,
        0x54,
        0x4F,
        0x4B,
        0x45,
        0x4E,
        0xA3,
        0x67,
        0x69,
        0x73,
        0x2E,
        0x30,
        0x30,
        0x31,
    ]);
    assert(data.subrange(53, 55) =~= seq![0u8, 16]);
    assert(data.subrange(55, 71) =~= id);
    assert(data.subrange(71, 148) =~= form);
}

/// What a registration stores: the credential of the request under the id, with a
/// counter of zero, discoverable exactly where a resident key was asked for. Every
/// other credential stays.
pub proof fn registration_stores_the_credential(
    before: Seq<CredentialView>,
    after: Seq<CredentialView>,
    request: MakeCredentialView,
    uv_confirmed: bool,
    key: KeyPair,
    id: Seq<u8>,
    response: MakeCredentialResponse,
    other: Seq<u8>,
)
    requires
        registered(before, after, request, uv_confirmed, key, id, response),
        other != id,
    ensures
        lookup(after, id) matches Some(c) && {
            &&& c.id == id
            &&& c.rp_id == request.rp_id
            &&& c.user_id == request.user_id
            &&& c.private_key == key.private_key@
            &&& c.sign_count == 0
            &&& c.discoverable == request.rk
            &&& c.algorithm == -7
        },
        lookup(after, other) == lookup(before, other),
{
    let c = new_credential(request, key, id);
    stored_credential_is_found(before, c);
    inserting_leaves_others(before, c, other);
}

proof fn inserting_leaves_others(list: Seq<CredentialView>, c: CredentialView, other: Seq<u8>)
    requires
        other != c.id,
    ensures
        lookup(inserted(list, c), other) == lookup(list, other),
{
    let after = inserted(list, c);
    if let Some(k) = place_of(list, c.id) {
        assert(is_first(list, c.id, k));
    }
    if exists|i: int| is_first(list, other, i) {
        let i = choose|i: int| is_first(list, other, i);
        assert forall|j: int| 0 <= j < i implies (#[trigger] after[j]).id != other by {
            let at = list[j];
        }
        assert(is_first(after, other, i));
        place_is_unique(list, other, i);
        place_is_unique(after, other, i);
    } else if exists|i: int| is_first(after, other, i) {
        let i = choose|i: int| is_first(after, other, i);
        assert(after[i].id == other);
        assert(i < list.len());
        occurring_id_has_a_place(list, other, i);
        let k = place_of(list, other)->0;
        assert(is_first(list, other, k));
    }
}

/// A registration answers with what it made unless the store refused it.
pub proof fn registration_succeeds_unless_refused(
    before: Seq<CredentialView>,
    after: Seq<CredentialView>,
    request: MakeCredentialView,
    uv_confirmed: bool,
    key: KeyPair,
    id: Seq<u8>,
    r: Result<MakeCredentialResponse, Ctap2Status>,
)
    ensures
        registration(before, after, request, uv_confirmed, key, id, false, r) ==> (r matches Ok(
            response,
        ) && registered(before, after, request, uv_confirmed, key, id, response)),
        registration(before, after, request, uv_confirmed, key, id, true, r) ==> r == Err::<
            MakeCredentialResponse,
            Ctap2Status,
        >(Ctap2Status::LimitExceeded),
{
}

/// A discoverable credential that was just registered answers a request of its relying
/// party that lists none, where no other credential had its id.
pub proof fn new_discoverable_credential_answers(
    before: Seq<CredentialView>,
    after: Seq<CredentialView>,
    registration: MakeCredentialView,
    uv_confirmed: bool,
    key: KeyPair,
    id: Seq<u8>,
    response: MakeCredentialResponse,
    request: GetAssertionView,
)
    requires
        registered(before, after, registration, uv_confirmed, key, id, response),
        registration.rk,
        lookup(before, id) is None,
        request.rp_id == registration.rp_id,
        request.allow_list.len() == 0,
    ensures
        chosen(after, request) == lookup(after, id),
        chosen(after, request) is Some,
{
    let c = new_credential(registration, key, id);
    stored_credential_is_found(before, c);
    let last = after.len() - 1;
    assert(after[last] == c);
    any_credential_of_the_relying_party_answers(after, request, last);
}

/// Where each part of the authenticator data of an assertion stands: the hash of the
/// relying party, the flags and the counter. The signature is over it and the client
/// data hash, made with the key of the credential.
pub proof fn assertion_data_is_laid_out(
    c: CredentialView,
    count: u32,
    request: GetAssertionView,
    uv_confirmed: bool,
    response: GetAssertionResponse,
)
    requires
        asserted(c, count, request, uv_confirmed, response),
        sha256_of(encode_utf8(request.rp_id)).len() == 32,
    ensures
        ({
            let data = response.auth_data@;
            &&& data.len() == 37
            &&& data.subrange(0, 32) == sha256_of(encode_utf8(request.rp_id))
            &&& data[32] == if uv_confirmed {
                0x05u8
            } else {
                0x01u8
            }
            &&& data[33] * 0x1000000 + data[34] * 0x10000 + data[35] * 0x100 + data[36] == count
            &&& response.credential_id@ == c.id
            &&& response.user_id@ == c.user_id
            &&& p256_signature(c.private_key, data + request.client_data_hash) == Some(
                response.signature@,
            )
        }),
{
    digits_of_four(count as nat);
    let data = response.auth_data@;
    assert(data.subrange(0, 32) =~= sha256_of(encode_utf8(request.rp_id)));
    let n = count as nat;
    assert(n / 0x1000000 % 256 == n / 0x1000000);
}

/// What a chosen credential answers: nothing but an assertion with the next counter,
/// unless the store refused to count or the key is no scalar.
pub proof fn chosen_credential_asserts(
    credentials: Seq<CredentialView>,
    c: CredentialView,
    request: GetAssertionView,
    uv_confirmed: bool,
    refused: bool,
    r: Result<GetAssertionResponse, Ctap2Status>,
)
    requires
        lookup(credentials, c.id) == Some(c),
        answered(c, count_given(credentials, c.id, refused), request, uv_confirmed, r),
    ensures
        refused <==> r == Err::<GetAssertionResponse, Ctap2Status>(Ctap2Status::InvalidCredential),
        !refused && p256_point(c.private_key) is None <==> r == Err::<
            GetAssertionResponse,
            Ctap2Status,
        >(Ctap2Status::Other),
        !refused && p256_point(c.private_key) is Some ==> (r matches Ok(response) && asserted(
            c,
            if c.sign_count < u32::MAX {
                (c.sign_count + 1) as u32
            } else {
                u32::MAX
            },
            request,
            uv_confirmed,
            response,
        )),
{
}

/// The counter of a credential goes up by one with each assertion, so a copy of it
/// shows.
pub proof fn successive_assertions_count_up(
    credentials: Seq<CredentialView>,
    id: Seq<u8>,
)
    requires
        lookup(credentials, id) matches Some(c) && c.sign_count < u32::MAX - 1,
    ensures
        ({
            let c = lookup(credentials, id)->0;
            let once = counted(credentials, id);
            &&& count_given(credentials, id, false) == Some((c.sign_count + 1) as u32)
            &&& count_given(once, id, false) == Some((c.sign_count + 2) as u32)
            &&& count_given(credentials, id, true) is None
        }),
{
    let other = id.push(0);
    assert(other.len() != id.len());
    crate::credential::counting_touches_one_credential(credentials, id, other);
}

/// A removed credential no longer answers, and every other that did still does, where
/// no id occurs twice.
pub proof fn removed_credential_does_not_answer(
    credentials: Seq<CredentialView>,
    id: Seq<u8>,
    other: Seq<u8>,
)
    requires
        crate::credential::ids_distinct(credentials),
        other != id,
    ensures
        lookup(removed(credentials, id), id) is None,
        lookup(removed(credentials, id), other) == lookup(credentials, other),
        lookup(credentials, id) is Some ==> removed(credentials, id).len() == credentials.len() - 1,
{
    crate::credential::removed_credential_is_gone(credentials, id);
    let after = removed(credentials, id);
    if let Some(k) = place_of(credentials, id) {
        assert(is_first(credentials, id, k));
        let n = credentials.len() - 1;
        if let Some(i) = place_of(credentials, other) {
            assert(is_first(credentials, other, i));
            let place = if i == n {
                k
            } else {
                i
            };
            assert(after[place] == credentials[i]);
            assert forall|j: int| 0 <= j < place implies (#[trigger] after[j]).id != other by {
                let at = credentials[j];
                if j == k {
                    assert(after[j] == credentials[n]);
                    if credentials[n].id == other && i != n {
                        assert(credentials[i].id == credentials[n].id);
                    }
                } else if credentials[j].id == other {
                    if j < i {
                        assert(false);
                    } else if i < j {
                        assert(credentials[i].id == credentials[j].id);
                    }
                }
            }
            assert(is_first(after, other, place));
            place_is_unique(after, other, place);
        } else if exists|i: int| is_first(after, other, i) {
            let i = choose|i: int| is_first(after, other, i);
            assert(after[i].id == other);
            let from = if i == k {
                n
            } else {
                i
            };
            assert(credentials[from].id == other);
            occurring_id_has_a_place(credentials, other, from);
        }
    }
}

/// The answer to a registration on the wire: the format under 1, the authenticator
/// data under 2, and under 3 the algorithm and the signature.
pub open spec fn registration_form(auth_data: Seq<u8>, signature: Seq<u8>) -> Seq<u8> {
    map_head(3) + (int_item(1) + (text_item("packed"@) + (int_item(2) + (bytes_item(auth_data) + (
    int_item(3) + (map_head(2) + (text_item("alg"@) + (int_item(-7) + (text_item("sig"@)
        + bytes_item(signature))))))))))
}

/// An answer to a registration is written under its numbers.
pub proof fn registration_answer_on_the_wire(response: MakeCredentialResponse)
    ensures
        response.cbor() == registration_form(response.auth_data@, response.signature@),
{
    let e0 = map_head(3);
    let e1 = int_item(1);
    let e2 = text_item("packed"@);
    let e3 = int_item(2);
    let e4 = bytes_item(response.auth_data@);
    let e5 = int_item(3);
    let e6 = map_head(2);
    let e7 = text_item("alg"@);
    let e8 = int_item(-7);
    let e9 = text_item("sig"@);
    let e10 = bytes_item(response.signature@);
    let p1 = e0 + e1;
    let p2 = p1 + e2;
    let p3 = p2 + e3;
    let p4 = p3 + e4;
    let p5 = p4 + e5;
    let p6 = p5 + e6;
    let p7 = p6 + e7;
    let p8 = p7 + e8;
    let p9 = p8 + e9;
    regroup(p8, e9, e10);
    regroup(p7, e8, e9 + e10);
    regroup(p6, e7, e8 + (e9 + e10));
    regroup(p5, e6, e7 + (e8 + (e9 + e10)));
    regroup(p4, e5, e6 + (e7 + (e8 + (e9 + e10))));
    regroup(p3, e4, e5 + (e6 + (e7 + (e8 + (e9 + e10)))));
    regroup(p2, e3, e4 + (e5 + (e6 + (e7 + (e8 + (e9 + e10))))));
    regroup(p1, e2, e3 + (e4 + (e5 + (e6 + (e7 + (e8 + (e9 + e10)))))));
    regroup(e0, e1, e2 + (e3 + (e4 + (e5 + (e6 + (e7 + (e8 + (e9 + e10))))))));
}

/// A credential in the answer to an assertion: its id and its type.
pub open spec fn credential_form(id: Seq<u8>) -> Seq<u8> {
    map_head(2) + (text_item("id"@) + (bytes_item(id) + (text_item("type"@) + text_item(
        "public-key"@,
    ))))
}

/// A user in the answer to an assertion: the handle.
pub open spec fn user_form(id: Seq<u8>) -> Seq<u8> {
    map_head(1) + (text_item("id"@) + bytes_item(id))
}

/// The answer to an assertion on the wire: the credential under 1, the authenticator
/// data under 2, the signature under 3 and the user under 4.
pub open spec fn assertion_form(
    id: Seq<u8>,
    auth_data: Seq<u8>,
    signature: Seq<u8>,
    user_id: Seq<u8>,
) -> Seq<u8> {
    map_head(4) + (int_item(1) + (credential_form(id) + (int_item(2) + (bytes_item(auth_data) + (
    int_item(3) + (bytes_item(signature) + (int_item(4) + user_form(user_id))))))))
}

proof fn credential_on_the_wire(response: GetAssertionResponse)
    ensures
        response.descriptor_form() == credential_form(response.credential_id@),
        response.user_form() == user_form(response.user_id@),
{
    let e0 = map_head(2);
    let e1 = text_item("id"@);
    let e2 = bytes_item(response.credential_id@);
    let e3 = text_item("type"@);
    let e4 = text_item("public-key"@);
    let p1 = e0 + e1;
    let p2 = p1 + e2;
    let p3 = p2 + e3;
    regroup(p2, e3, e4);
    regroup(p1, e2, e3 + e4);
    regroup(e0, e1, e2 + (e3 + e4));
    regroup(map_head(1), text_item("id"@), bytes_item(response.user_id@));
}

/// An answer to an assertion is written under its numbers.
pub proof fn assertion_answer_on_the_wire(response: GetAssertionResponse)
    ensures
        response.cbor() == assertion_form(
            response.credential_id@,
            response.auth_data@,
            response.signature@,
            response.user_id@,
        ),
{
    credential_on_the_wire(response);
    let e0 = map_head(4);
    let e1 = int_item(1);
    let e2 = response.descriptor_form();
    let e3 = int_item(2);
    let e4 = bytes_item(response.auth_data@);
    let e5 = int_item(3);
    let e6 = bytes_item(response.signature@);
    let e7 = int_item(4);
    let e8 = response.user_form();
    let p1 = e0 + e1;
    let p2 = p1 + e2;
    let p3 = p2 + e3;
    let p4 = p3 + e4;
    let p5 = p4 + e5;
    let p6 = p5 + e6;
    let p7 = p6 + e7;
    regroup(p6, e7, e8);
    regroup(p5, e6, e7 + e8);
    regroup(p4, e5, e6 + (e7 + e8));
    regroup(p3, e4, e5 + (e6 + (e7 + e8)));
    regroup(p2, e3, e4 + (e5 + (e6 + (e7 + e8))));
    regroup(p1, e2, e3 + (e4 + (e5 + (e6 + (e7 + e8)))));
    regroup(e0, e1, e2 + (e3 + (e4 + (e5 + (e6 + (e7 + e8))))));
}

/// What an assertion request gives, by what is confirmed and what is stored. Nothing
/// happens without presence, nor without a verification that was asked for, nor where no
/// credential answers; else the credential that answers counts and signs.
pub proof fn assertion_follows_presence_and_choice<S: CredentialStore>(
    before: S,
    after: S,
    request: GetAssertionView,
    up_confirmed: bool,
    uv_confirmed: bool,
    r: Result<GetAssertionResponse, Ctap2Status>,
)
    requires
        assertion_outcome(before, after, request, up_confirmed, uv_confirmed, r),
    ensures
        r == Err::<GetAssertionResponse, Ctap2Status>(Ctap2Status::UpRequired) <==> !up_confirmed,
        r == Err::<GetAssertionResponse, Ctap2Status>(Ctap2Status::PinAuthInvalid) <==> up_confirmed
            && request.uv && !uv_confirmed,
        r == Err::<GetAssertionResponse, Ctap2Status>(Ctap2Status::NoCredentials) <==> up_confirmed
            && (uv_confirmed || !request.uv) && chosen(before.credentials(), request) is None,
        r matches Ok(response) ==> {
            &&& up_confirmed
            &&& request.uv ==> uv_confirmed
            &&& chosen(before.credentials(), request) matches Some(c)
            &&& lookup(before.credentials(), c.id) matches Some(stored)
            &&& asserted(
                c,
                if stored.sign_count < u32::MAX {
                    (stored.sign_count + 1) as u32
                } else {
                    u32::MAX
                },
                request,
                uv_confirmed,
                response,
            )
            &&& after.credentials() == counted(before.credentials(), c.id)
            &&& after.refusals() == before.refusals()
        },
        up_confirmed && (uv_confirmed || !request.uv) && after.refusals() == before.refusals()
            ==> (chosen(before.credentials(), request) matches Some(c) ==> (lookup(
            before.credentials(),
            c.id,
        ) is Some && p256_point(c.private_key) is Some ==> r is Ok)),
        r matches Err(status) ==> status == Ctap2Status::UpRequired || status
            == Ctap2Status::PinAuthInvalid || status == Ctap2Status::NoCredentials ==> after
            == before,
{
}

/// What a registration request gives, by what is confirmed and what is stored: a refused
/// one draws and stores nothing; else the key pair is that of the first scalar drawn, and
/// the id is the draw after it.
pub proof fn registration_follows_presence_and_draws<S: CredentialStore, R: Rng>(
    before: S,
    after: S,
    rng_before: R,
    rng_after: R,
    request: MakeCredentialView,
    up_confirmed: bool,
    uv_confirmed: bool,
    r: Result<MakeCredentialResponse, Ctap2Status>,
)
    requires
        registration_outcome(
            before,
            after,
            rng_before,
            rng_after,
            request,
            up_confirmed,
            uv_confirmed,
            r,
        ),
    ensures
        r == Err::<MakeCredentialResponse, Ctap2Status>(Ctap2Status::UpRequired) <==> !up_confirmed,
        r == Err::<MakeCredentialResponse, Ctap2Status>(Ctap2Status::PinAuthInvalid)
            <==> up_confirmed && request.uv && !uv_confirmed,
        r matches Ok(response) ==> {
            let n = rng_after.drawn().len();
            let id = rng_after.drawn()[n - 1];
            &&& n >= rng_before.drawn().len() + 2
            &&& id.len() == 16
            &&& lookup(after.credentials(), id) matches Some(c)
            &&& c.private_key == rng_after.drawn()[n - 2]
            &&& 0 < be_value(c.private_key) < p256_order()
            &&& forall|j: int|
                rng_before.drawn().len() <= j < n - 2
                    ==> !is_scalar(#[trigger] rng_after.drawn()[j])
            &&& c.rp_id == request.rp_id
            &&& after.refusals() == before.refusals()
        },
        r == Err::<MakeCredentialResponse, Ctap2Status>(Ctap2Status::Other) ==> after == before
            && rng_after.drawn().len() == rng_before.drawn().len() + 16,
        r == Err::<MakeCredentialResponse, Ctap2Status>(Ctap2Status::LimitExceeded)
            ==> after.refusals() == before.refusals() + 1,
        r == Err::<MakeCredentialResponse, Ctap2Status>(Ctap2Status::CredentialExcluded) ==> after
            == before && rng_after == rng_before,
        r matches Err(status) ==> {
            ||| status == Ctap2Status::UpRequired
            ||| status == Ctap2Status::PinAuthInvalid
            ||| status == Ctap2Status::CredentialExcluded
            ||| status == Ctap2Status::LimitExceeded
            ||| status == Ctap2Status::Other
        },
{
    if registration_denied(request, before.credentials(), up_confirmed, uv_confirmed) is None {
        let drawn = rng_after.drawn();
        if let Ok(response) = r {
            let key = choose|key: KeyPair|
                key_drawn(rng_before.drawn(), drawn.drop_last(), key) && #[trigger] registration(
                    before.credentials(),
                    after.credentials(),
                    request,
                    uv_confirmed,
                    key,
                    drawn.last(),
                    r is Err,
                    r,
                );
            stored_credential_is_found(
                before.credentials(),
                new_credential(request, key, drawn.last()),
            );
            let earlier = drawn.drop_last();
            assert(earlier.last() == drawn[drawn.len() - 2]);
            assert forall|j: int| rng_before.drawn().len() <= j < drawn.len() - 2 implies !is_scalar(
                #[trigger] drawn[j],
            ) by {
                assert(earlier[j] == drawn[j]);
            }
        }
    }
}

/// A reset needs presence and then leaves no credential that could answer, and no PIN.
pub proof fn reset_leaves_nothing_to_answer<S: TokenStore>(
    before: S,
    after: S,
    up_confirmed: bool,
    r: Result<(), Ctap2Status>,
    request: GetAssertionView,
)
    requires
        reset_outcome(before, after, up_confirmed, r),
    ensures
        r == Err::<(), Ctap2Status>(Ctap2Status::UpRequired) <==> !up_confirmed,
        !up_confirmed ==> after == before,
        up_confirmed ==> after.credentials().len() == 0 && chosen(after.credentials(), request)
            is None,
        r is Ok ==> after.hash() is None,
        up_confirmed && after.refusals() == before.refusals() ==> r is Ok,
{
    if up_confirmed {
        nothing_stored_nothing_answers(after.credentials(), request);
    }
}

/// The metadata of a store adds up to its eight places.
pub proof fn metadata_adds_up(n: nat)
    ensures
        n <= 8 ==> metadata_of(n).existing == n && metadata_of(n).existing
            + metadata_of(n).remaining
            == 8,
        8 < n <= u32::MAX ==> metadata_of(n).existing == n && metadata_of(n).remaining == 0,
{
}

/// Deleting a credential takes it away, and only it, where no id occurs twice; what is not
/// there cannot be deleted.
pub proof fn deletion_takes_one_away<S: CredentialStore>(
    before: S,
    after: S,
    id: Seq<u8>,
    r: Result<(), Ctap2Status>,
    other: Seq<u8>,
)
    requires
        deletion_outcome(before, after, id, r),
        crate::credential::ids_distinct(before.credentials()),
        other != id,
    ensures
        lookup(before.credentials(), id) is None <==> r == Err::<(), Ctap2Status>(
            Ctap2Status::NoCredentials,
        ),
        lookup(before.credentials(), id) is None ==> after == before,
        lookup(after.credentials(), id) is None,
        lookup(after.credentials(), other) == lookup(before.credentials(), other),
        lookup(before.credentials(), id) is Some && after.refusals() == before.refusals() ==> r
            is Ok,
{
    removed_credential_does_not_answer(before.credentials(), id, other);
}

} // verus!
