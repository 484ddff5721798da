//! CTAP2 requests: what a client writes is what the authenticator understands.
use vstd::prelude::*;
use vstd::utf8::encode_utf8;
use crate::authenticator::{CredentialManagementRequest, CredentialManagementView};
use crate::bytes::regroup;
use crate::cbor::{
    array_head, bool_item, bool_round_trip, bytes_item, bytes_round_trip, int_item, int_round_trip,
    map_head, map_round_trip, text_item, text_round_trip, uint_round_trip,
};
use crate::codec::Decode;
use crate::ctap2::{
    requested, take_rp_id, take_user_id, CredentialParam, CredentialParams, Ctap2RequestView,
    Ctap2Status, DescriptorFields, DescriptorList, GetAssertionFields, GetAssertionFieldsView,
    GetAssertionView, MakeCredentialFields, MakeCredentialFieldsView, MakeCredentialView,
    RequestOptions, RpEntity, UserEntity,
};
use crate::laws::wire::{
    counting, item_step, items_begin, named, named_others, named_others_step, named_step, numbered,
    numbered_others, numbered_others_step, numbered_step, reading, reading_begins, reading_ends,
    skippable, unknown_name_reads, unknown_names, unknown_number_reads, unknown_numbers,
};
use crate::pin::{
    client_pin_requested, ClientPinRequest, ClientPinRequestView, Ec2KeyAgreement,
    Ec2KeyAgreementView,
};
use crate::record::{take_items, take_record, Record};

verus! {

/// The entries that stand around the one that counts, in a map with text keys.
pub struct Around {
    /// Those before it.
    pub before: Seq<(Seq<char>, Seq<u8>)>,
    /// Those behind it.
    pub behind: Seq<(Seq<char>, Seq<u8>)>,
}

impl Around {
    /// Whether none of them has the key that counts.
    pub open spec fn beside(self, key: Seq<char>) -> bool {
        &&& unknown_names(self.before, set![key])
        &&& unknown_names(self.behind, set![key])
    }

    /// The map with the entry that counts among them.
    pub open spec fn map(self, key: Seq<char>, value: Seq<u8>) -> Seq<u8> {
        map_head(self.before.len() + 1 + self.behind.len()) + (named_others(self.before) + (named(
            key,
            Some(value),
        ) + named_others(self.behind)))
    }
}

proof fn map_around_regroups(around: Around, key: Seq<char>, value: Seq<u8>, rest: Seq<u8>)
    ensures
        around.map(key, value) + rest == map_head(
            around.before.len() + 1 + around.behind.len(),
        ) + (named_others(around.before) + (named(key, Some(value)) + (named_others(around.behind)
            + rest))),
{
    let head = map_head(around.before.len() + 1 + around.behind.len());
    let before = named_others(around.before);
    let entry = named(key, Some(value));
    let behind = named_others(around.behind);
    regroup(head, before + (entry + behind), rest);
    regroup(before, entry + behind, rest);
    regroup(entry, behind, rest);
}

proof fn option_names_differ()
    ensures
        encode_utf8("id"@).len() == 2,
        encode_utf8("alg"@).len() == 3,
        encode_utf8("rk"@).len() == 2,
        encode_utf8("uv"@).len() == 2,
        encode_utf8("up"@).len() == 2,
        "rk"@ != "uv"@,
        "rk"@ != "up"@,
        "uv"@ != "up"@,
{
    reveal_strlit("id");
    reveal_strlit("alg");
    reveal_strlit("rk");
    reveal_strlit("uv");
    reveal_strlit("up");
    vstd::utf8::is_ascii_chars_encode_utf8("id"@);
    vstd::utf8::is_ascii_chars_encode_utf8("alg"@);
    vstd::utf8::is_ascii_chars_encode_utf8("rk"@);
    vstd::utf8::is_ascii_chars_encode_utf8("uv"@);
    vstd::utf8::is_ascii_chars_encode_utf8("up"@);
    assert("rk"@[0] == 'r' && "uv"@[0] == 'u' && "up"@[0] == 'u');
    assert("uv"@[1] == 'v' && "up"@[1] == 'p');
}

proof fn other_rp_entry_is_skipped(key: Seq<char>, value: Seq<u8>, acc: Option<Seq<char>>,
    tail: Seq<u8>)
    requires
        encode_utf8(key).len() <= u64::MAX,
        key != "id"@,
        skippable(value),
    ensures
        RpEntity::entry(text_item(key) + (value + tail), acc) == Ok::<
            (Option<Seq<char>>, Seq<u8>),
            Ctap2Status,
        >(
            (acc, tail),
        ),
{
    unknown_name_reads(key, value, tail);
}

proof fn rp_id_is_read(id: Seq<char>, tail: Seq<u8>)
    requires
        encode_utf8(id).len() <= 64,
    ensures
        RpEntity::entry(text_item("id"@) + (text_item(id) + tail), RpEntity::blank()) == Ok::<
            (Option<Seq<char>>, Seq<u8>),
            Ctap2Status,
        >((Some(id), tail)),
{
    option_names_differ();
    text_round_trip("id"@, text_item(id) + tail);
    text_round_trip(id, tail);
}

/// A relying party entity is read for its `id`, whatever else it says.
pub proof fn relying_party_is_read(id: Seq<char>, around: Around, rest: Seq<u8>)
    requires
        encode_utf8(id).len() <= 64,
        around.beside("id"@),
    ensures
        take_rp_id(around.map("id"@, text_item(id)) + rest) == Ok::<
            (Seq<char>, Seq<u8>),
            Ctap2Status,
        >(
            (id, rest),
        ),
{
    let n = around.before.len() + 1 + around.behind.len();
    let value = text_item(id);
    let r2 = named_others(around.behind) + rest;
    let r1 = named("id"@, Some(value)) + r2;
    let r0 = named_others(around.before) + r1;
    map_around_regroups(around, "id"@, value, rest);
    reading_begins::<RpEntity>(r0, n);
    let none: Option<Seq<char>> = None;
    assert forall|i: int, tail: Seq<u8>| 0 <= i < around.before.len() implies RpEntity::entry(
        text_item((#[trigger] around.before[i]).0) + #[trigger] (around.before[i].1 + tail),
        none,
    ) == Ok::<(Option<Seq<char>>, Seq<u8>), Ctap2Status>((none, tail)) by {
        other_rp_entry_is_skipped(around.before[i].0, around.before[i].1, none, tail);
    }
    named_others_step::<RpEntity>(around.before, 1 + around.behind.len(), none, r1);
    rp_id_is_read(id, r2);
    named_step::<RpEntity>("id"@, Some(value), around.behind.len(), none, Some(id), r2);
    assert forall|i: int, tail: Seq<u8>| 0 <= i < around.behind.len() implies RpEntity::entry(
        text_item((#[trigger] around.behind[i]).0) + #[trigger] (around.behind[i].1 + tail),
        Some(id),
    ) == Ok::<(Option<Seq<char>>, Seq<u8>), Ctap2Status>((Some(id), tail)) by {
        other_rp_entry_is_skipped(around.behind[i].0, around.behind[i].1, Some(id), tail);
    }
    named_others_step::<RpEntity>(around.behind, 0, Some(id), rest);
    reading_ends::<RpEntity>(rest, Some(id));
}

proof fn other_user_entry_is_skipped(key: Seq<char>, value: Seq<u8>, acc: (Seq<u8>, bool),
    tail: Seq<u8>)
    requires
        encode_utf8(key).len() <= u64::MAX,
        key != "id"@,
        skippable(value),
    ensures
        UserEntity::entry(text_item(key) + (value + tail), acc)
            == Ok::<((Seq<u8>, bool), Seq<u8>), Ctap2Status>(
            (acc, tail),
        ),
{
    unknown_name_reads(key, value, tail);
}

proof fn user_id_is_read(id: Seq<u8>, tail: Seq<u8>)
    requires
        id.len() <= 64,
    ensures
        UserEntity::entry(text_item("id"@) + (bytes_item(id) + tail), UserEntity::blank()) == Ok::<
            ((Seq<u8>, bool), Seq<u8>),
            Ctap2Status,
        >(((id, true), tail)),
{
    option_names_differ();
    text_round_trip("id"@, bytes_item(id) + tail);
    bytes_round_trip(id, tail);
    assert(Seq::<u8>::empty() + id =~= id);
}

/// A user entity is read for its `id`, whatever else it says.
pub proof fn user_is_read(id: Seq<u8>, around: Around, rest: Seq<u8>)
    requires
        id.len() <= 64,
        around.beside("id"@),
    ensures
        take_user_id(around.map("id"@, bytes_item(id)) + rest) == Ok::<
            (Seq<u8>, Seq<u8>),
            Ctap2Status,
        >((id, rest)),
{
    let n = around.before.len() + 1 + around.behind.len();
    let value = bytes_item(id);
    let r2 = named_others(around.behind) + rest;
    let r1 = named("id"@, Some(value)) + r2;
    let r0 = named_others(around.before) + r1;
    map_around_regroups(around, "id"@, value, rest);
    reading_begins::<UserEntity>(r0, n);
    let none = (Seq::<u8>::empty(), false);
    assert forall|i: int, tail: Seq<u8>| 0 <= i < around.before.len() implies UserEntity::entry(
        text_item((#[trigger] around.before[i]).0) + #[trigger] (around.before[i].1 + tail),
        none,
    ) == Ok::<((Seq<u8>, bool), Seq<u8>), Ctap2Status>((none, tail)) by {
        other_user_entry_is_skipped(around.before[i].0, around.before[i].1, none, tail);
    }
    named_others_step::<UserEntity>(around.before, 1 + around.behind.len(), none, r1);
    user_id_is_read(id, r2);
    named_step::<UserEntity>("id"@, Some(value), around.behind.len(), none, (id, true), r2);
    assert forall|i: int, tail: Seq<u8>| 0 <= i < around.behind.len() implies UserEntity::entry(
        text_item((#[trigger] around.behind[i]).0) + #[trigger] (around.behind[i].1 + tail),
        (id, true),
    ) == Ok::<((Seq<u8>, bool), Seq<u8>), Ctap2Status>(((id, true), tail)) by {
        other_user_entry_is_skipped(around.behind[i].0, around.behind[i].1, (id, true), tail);
    }
    named_others_step::<UserEntity>(around.behind, 0, (id, true), rest);
    reading_ends::<UserEntity>(rest, (id, true));
}

proof fn other_descriptor_entry_is_skipped(key: Seq<char>, value: Seq<u8>, acc: Option<Seq<u8>>,
    tail: Seq<u8>)
    requires
        encode_utf8(key).len() <= u64::MAX,
        key != "id"@,
        skippable(value),
    ensures
        DescriptorFields::entry(text_item(key) + (value + tail), acc) == Ok::<
            (Option<Seq<u8>>, Seq<u8>),
            Ctap2Status,
        >(
            (acc, tail),
        ),
{
    unknown_name_reads(key, value, tail);
}

proof fn descriptor_id_is_read(id: Seq<u8>, tail: Seq<u8>)
    requires
        id.len() <= 64,
    ensures
        DescriptorFields::entry(text_item("id"@) + (bytes_item(id)
            + tail), DescriptorFields::blank()) == Ok::<
            (Option<Seq<u8>>, Seq<u8>),
            Ctap2Status,
        >((Some(id), tail)),
{
    option_names_differ();
    text_round_trip("id"@, bytes_item(id) + tail);
    bytes_round_trip(id, tail);
}

proof fn descriptor_is_read(id: Seq<u8>, around: Around, rest: Seq<u8>)
    requires
        id.len() <= 64,
        around.beside("id"@),
    ensures
        take_record::<DescriptorFields>(around.map("id"@, bytes_item(id)) + rest) == Ok::<
            (Option<Seq<u8>>, Seq<u8>),
            Ctap2Status,
        >((Some(id), rest)),
{
    let n = around.before.len() + 1 + around.behind.len();
    let value = bytes_item(id);
    let r2 = named_others(around.behind) + rest;
    let r1 = named("id"@, Some(value)) + r2;
    let r0 = named_others(around.before) + r1;
    map_around_regroups(around, "id"@, value, rest);
    reading_begins::<DescriptorFields>(r0, n);
    let none: Option<Seq<u8>> = None;
    assert forall|i: int, tail: Seq<u8>|
        0 <= i < around.before.len() implies DescriptorFields::entry(
        text_item((#[trigger] around.before[i]).0) + #[trigger] (around.before[i].1 + tail),
        none,
    ) == Ok::<(Option<Seq<u8>>, Seq<u8>), Ctap2Status>((none, tail)) by {
        other_descriptor_entry_is_skipped(around.before[i].0, around.before[i].1, none, tail);
    }
    named_others_step::<DescriptorFields>(around.before, 1 + around.behind.len(), none, r1);
    descriptor_id_is_read(id, r2);
    named_step::<DescriptorFields>("id"@, Some(value), around.behind.len(), none, Some(id), r2);
    assert forall|i: int, tail: Seq<u8>|
        0 <= i < around.behind.len() implies DescriptorFields::entry(
        text_item((#[trigger] around.behind[i]).0) + #[trigger] (around.behind[i].1 + tail),
        Some(id),
    ) == Ok::<(Option<Seq<u8>>, Seq<u8>), Ctap2Status>((Some(id), tail)) by {
        other_descriptor_entry_is_skipped(around.behind[i].0, around.behind[i].1, Some(id), tail);
    }
    named_others_step::<DescriptorFields>(around.behind, 0, Some(id), rest);
    reading_ends::<DescriptorFields>(rest, Some(id));
}

proof fn other_param_is_skipped(key: Seq<char>, value: Seq<u8>, acc: Option<i64>, tail: Seq<u8>)
    requires
        encode_utf8(key).len() <= u64::MAX,
        key != "alg"@,
        skippable(value),
    ensures
        CredentialParam::entry(text_item(key) + (value + tail), acc) == Ok::<
            (Option<i64>, Seq<u8>),
            Ctap2Status,
        >((acc, tail)),
{
    unknown_name_reads(key, value, tail);
}

proof fn alg_is_read(alg: i64, acc: Option<i64>, tail: Seq<u8>)
    ensures
        CredentialParam::entry(text_item("alg"@) + (int_item(alg as int) + tail), acc) == Ok::<
            (Option<i64>, Seq<u8>),
            Ctap2Status,
        >((Some(alg), tail)),
{
    option_names_differ();
    text_round_trip("alg"@, int_item(alg as int) + tail);
    int_round_trip(alg as int, tail);
}

proof fn param_is_read(alg: i64, around: Around, rest: Seq<u8>)
    requires
        around.beside("alg"@),
    ensures
        take_record::<CredentialParam>(around.map("alg"@, int_item(alg as int)) + rest) == Ok::<
            (Option<i64>, Seq<u8>),
            Ctap2Status,
        >((Some(alg), rest)),
{
    let n = around.before.len() + 1 + around.behind.len();
    let value = int_item(alg as int);
    let r2 = named_others(around.behind) + rest;
    let r1 = named("alg"@, Some(value)) + r2;
    let r0 = named_others(around.before) + r1;
    map_around_regroups(around, "alg"@, value, rest);
    reading_begins::<CredentialParam>(r0, n);
    let none: Option<i64> = None;
    assert forall|i: int, tail: Seq<u8>|
        0 <= i < around.before.len() implies CredentialParam::entry(
        text_item((#[trigger] around.before[i]).0) + #[trigger] (around.before[i].1 + tail),
        none,
    ) == Ok::<(Option<i64>, Seq<u8>), Ctap2Status>((none, tail)) by {
        other_param_is_skipped(around.before[i].0, around.before[i].1, none, tail);
    }
    named_others_step::<CredentialParam>(around.before, 1 + around.behind.len(), none, r1);
    alg_is_read(alg, none, r2);
    named_step::<CredentialParam>("alg"@, Some(value), around.behind.len(), none, Some(alg), r2);
    assert forall|i: int, tail: Seq<u8>|
        0 <= i < around.behind.len() implies CredentialParam::entry(
        text_item((#[trigger] around.behind[i]).0) + #[trigger] (around.behind[i].1 + tail),
        Some(alg),
    ) == Ok::<(Option<i64>, Seq<u8>), Ctap2Status>((Some(alg), tail)) by {
        other_param_is_skipped(around.behind[i].0, around.behind[i].1, Some(alg), tail);
    }
    named_others_step::<CredentialParam>(around.behind, 0, Some(alg), rest);
    reading_ends::<CredentialParam>(rest, Some(alg));
}

/// A listed credential on the wire: its id, and what else its descriptor says.
pub struct ListedId {
    /// The credential id.
    pub id: Seq<u8>,
    /// What else the descriptor says.
    pub around: Around,
}

/// A listed algorithm on the wire, and what else its entry says.
pub struct ListedAlg {
    /// The COSE algorithm.
    pub alg: i64,
    /// What else the entry says.
    pub around: Around,
}

/// The ids of a list, in order.
pub open spec fn listed_ids(list: Seq<ListedId>) -> Seq<Seq<u8>> {
    Seq::new(list.len(), |i: int| list[i].id)
}

/// The algorithms of a list, in order.
pub open spec fn listed_algs(list: Seq<ListedAlg>) -> Seq<i64> {
    Seq::new(list.len(), |i: int| list[i].alg)
}

/// Whether a list of credentials can be sent: at most eight, with ids of at most 64
/// bytes.
pub open spec fn ids_sendable(list: Seq<ListedId>) -> bool {
    &&& list.len() <= 8
    &&& forall|i: int|
        0 <= i < list.len() ==> (#[trigger] list[i]).id.len() <= 64 && list[i].around.beside("id"@)
}

/// Whether a list of algorithms can be sent: at most eight.
pub open spec fn algs_sendable(list: Seq<ListedAlg>) -> bool {
    &&& list.len() <= 8
    &&& forall|i: int| 0 <= i < list.len() ==> (#[trigger] list[i]).around.beside("alg"@)
}

/// The descriptors of a list from place `i` on.
pub open spec fn id_items(list: Seq<ListedId>, i: int) -> Seq<u8>
    decreases list.len() - i,
{
    if 0 <= i < list.len() {
        list[i].around.map("id"@, bytes_item(list[i].id)) + id_items(list, i + 1)
    } else {
        Seq::empty()
    }
}

/// The algorithm entries of a list from place `i` on.
pub open spec fn alg_items(list: Seq<ListedAlg>, i: int) -> Seq<u8>
    decreases list.len() - i,
{
    if 0 <= i < list.len() {
        list[i].around.map("alg"@, int_item(list[i].alg as int)) + alg_items(list, i + 1)
    } else {
        Seq::empty()
    }
}

proof fn listed_id_is_read(id: Seq<u8>, around: Around, acc: Seq<Seq<u8>>, tail: Seq<u8>)
    requires
        id.len() <= 64,
        around.beside("id"@),
        acc.len() < 8,
    ensures
        DescriptorList::entry(around.map("id"@, bytes_item(id)) + tail, acc) == Ok::<
            (Seq<Seq<u8>>, Seq<u8>),
            Ctap2Status,
        >((acc.push(id), tail)),
{
    descriptor_is_read(id, around, tail);
}

proof fn listed_alg_is_read(alg: i64, around: Around, acc: Seq<i64>, tail: Seq<u8>)
    requires
        around.beside("alg"@),
        acc.len() < 8,
    ensures
        CredentialParams::entry(around.map("alg"@, int_item(alg as int)) + tail, acc) == Ok::<
            (Seq<i64>, Seq<u8>),
            Ctap2Status,
        >((acc.push(alg), tail)),
{
    param_is_read(alg, around, tail);
}

proof fn ids_are_read(list: Seq<ListedId>, i: int, rest: Seq<u8>)
    requires
        ids_sendable(list),
        0 <= i <= list.len(),
    ensures
        reading::<DescriptorList>(
            id_items(list, i) + rest,
            (list.len() - i) as nat,
            listed_ids(list).take(i),
        ) == Ok::<(Seq<Seq<u8>>, Seq<u8>), Ctap2Status>((listed_ids(list), rest)),
    decreases list.len() - i,
{
    let ids = listed_ids(list);
    if i < list.len() {
        let item = list[i].around.map("id"@, bytes_item(list[i].id));
        let tail = id_items(list, i + 1) + rest;
        regroup(item, id_items(list, i + 1), rest);
        listed_id_is_read(list[i].id, list[i].around, ids.take(i), tail);
        assert(ids.take(i).push(list[i].id) =~= ids.take(i + 1));
        item_step::<DescriptorList>(item, (list.len() - i - 1) as nat, ids.take(i), ids.take(i
            + 1), tail);
        ids_are_read(list, i + 1, rest);
    } else {
        assert(id_items(list, i) + rest =~= rest);
        reading_ends::<DescriptorList>(rest, ids);
        assert(ids.take(i) =~= ids);
    }
}

proof fn algs_are_read(list: Seq<ListedAlg>, i: int, rest: Seq<u8>)
    requires
        algs_sendable(list),
        0 <= i <= list.len(),
    ensures
        reading::<CredentialParams>(
            alg_items(list, i) + rest,
            (list.len() - i) as nat,
            listed_algs(list).take(i),
        ) == Ok::<(Seq<i64>, Seq<u8>), Ctap2Status>((listed_algs(list), rest)),
    decreases list.len() - i,
{
    let algs = listed_algs(list);
    if i < list.len() {
        let item = list[i].around.map("alg"@, int_item(list[i].alg as int));
        let tail = alg_items(list, i + 1) + rest;
        regroup(item, alg_items(list, i + 1), rest);
        listed_alg_is_read(list[i].alg, list[i].around, algs.take(i), tail);
        assert(algs.take(i).push(list[i].alg) =~= algs.take(i + 1));
        item_step::<CredentialParams>(item, (list.len() - i - 1) as nat, algs.take(i),
            algs.take(i + 1), tail);
        algs_are_read(list, i + 1, rest);
    } else {
        assert(alg_items(list, i) + rest =~= rest);
        reading_ends::<CredentialParams>(rest, algs);
        assert(algs.take(i) =~= algs);
    }
}

/// A list of credentials on the wire.
pub open spec fn id_array(list: Seq<ListedId>) -> Seq<u8> {
    array_head(list.len()) + id_items(list, 0)
}

/// A list of algorithms on the wire.
pub open spec fn alg_array(list: Seq<ListedAlg>) -> Seq<u8> {
    array_head(list.len()) + alg_items(list, 0)
}

/// A list of credentials is read in order, each with its id.
pub proof fn credential_list_is_read(list: Seq<ListedId>, rest: Seq<u8>)
    requires
        ids_sendable(list),
    ensures
        take_items::<DescriptorList>(id_array(list) + rest, Seq::empty()) == Ok::<
            (Seq<Seq<u8>>, Seq<u8>),
            Ctap2Status,
        >((listed_ids(list), rest)),
{
    regroup(array_head(list.len()), id_items(list, 0), rest);
    items_begin::<DescriptorList>(id_items(list, 0) + rest, list.len(), Seq::empty());
    assert(listed_ids(list).take(0) =~= Seq::empty());
    ids_are_read(list, 0, rest);
}

/// A list of algorithms is read in order.
pub proof fn algorithm_list_is_read(list: Seq<ListedAlg>, rest: Seq<u8>)
    requires
        algs_sendable(list),
    ensures
        take_items::<CredentialParams>(alg_array(list) + rest, Seq::empty()) == Ok::<
            (Seq<i64>, Seq<u8>),
            Ctap2Status,
        >((listed_algs(list), rest)),
{
    regroup(array_head(list.len()), alg_items(list, 0), rest);
    items_begin::<CredentialParams>(alg_items(list, 0) + rest, list.len(), Seq::empty());
    assert(listed_algs(list).take(0) =~= Seq::empty());
    algs_are_read(list, 0, rest);
}

/// Request options on the wire: each may be left out.
pub struct SentOptions {
    /// Resident key.
    pub rk: Option<bool>,
    /// User verification.
    pub uv: Option<bool>,
    /// User presence.
    pub up: Option<bool>,
    /// Further options.
    pub others: Seq<(Seq<char>, Seq<u8>)>,
}

/// The item of an optional truth value.
pub open spec fn sent_bool(b: Option<bool>) -> Option<Seq<u8>> {
    match b {
        Some(b) => Some(bool_item(b)),
        None => None,
    }
}

/// The item of optional bytes.
pub open spec fn sent_bytes(b: Option<Seq<u8>>) -> Option<Seq<u8>> {
    match b {
        Some(b) => Some(bytes_item(b)),
        None => None,
    }
}

impl SentOptions {
    /// Whether the further options are further ones.
    pub open spec fn sendable(self) -> bool {
        unknown_names(self.others, set!["rk"@, "uv"@, "up"@])
    }

    /// The map.
    pub open spec fn map(self) -> Seq<u8> {
        map_head(
            counting(self.rk) + counting(self.uv) + counting(self.up) + self.others.len(),
        ) + (named("rk"@, sent_bool(self.rk)) + (named("uv"@, sent_bool(self.uv)) + (named(
            "up"@,
            sent_bool(self.up),
        ) + named_others(self.others))))
    }
}

proof fn option_is_read(rk: bool, uv: bool, up: bool, acc: RequestOptions, tail: Seq<u8>)
    ensures
        RequestOptions::entry(text_item("rk"@) + (bool_item(rk) + tail), acc) == Ok::<
            (RequestOptions, Seq<u8>),
            Ctap2Status,
        >((RequestOptions { rk, ..acc }, tail)),
        RequestOptions::entry(text_item("uv"@) + (bool_item(uv) + tail), acc) == Ok::<
            (RequestOptions, Seq<u8>),
            Ctap2Status,
        >((RequestOptions { uv, ..acc }, tail)),
        RequestOptions::entry(text_item("up"@) + (bool_item(up) + tail), acc) == Ok::<
            (RequestOptions, Seq<u8>),
            Ctap2Status,
        >((RequestOptions { up, ..acc }, tail)),
{
    option_names_differ();
    text_round_trip("rk"@, bool_item(rk) + tail);
    bool_round_trip(rk, tail);
    text_round_trip("uv"@, bool_item(uv) + tail);
    bool_round_trip(uv, tail);
    text_round_trip("up"@, bool_item(up) + tail);
    bool_round_trip(up, tail);
}

proof fn other_option_is_skipped(
    key: Seq<char>,
    value: Seq<u8>,
    acc: RequestOptions,
    tail: Seq<u8>,
)
    requires
        encode_utf8(key).len() <= u64::MAX,
        key != "rk"@,
        key != "uv"@,
        key != "up"@,
        skippable(value),
    ensures
        RequestOptions::entry(text_item(key) + (value + tail), acc) == Ok::<
            (RequestOptions, Seq<u8>),
            Ctap2Status,
        >((acc, tail)),
{
    unknown_name_reads(key, value, tail);
}

/// Options mean what their names say, and one that is left out is off.
pub proof fn options_are_read(options: SentOptions, rest: Seq<u8>)
    requires
        options.sendable(),
    ensures
        take_record::<RequestOptions>(options.map() + rest) == Ok::<
            (RequestOptions, Seq<u8>),
            Ctap2Status,
        >(
            (
                RequestOptions {
                    rk: options.rk == Some(true),
                    uv: options.uv == Some(true),
                    up: options.up == Some(true),
                },
                rest,
            ),
        ),
{
    let n3 = options.others.len();
    let n2 = n3 + counting(options.up);
    let n1 = n2 + counting(options.uv);
    let n0 = n1 + counting(options.rk);
    let e0 = named("rk"@, sent_bool(options.rk));
    let e1 = named("uv"@, sent_bool(options.uv));
    let e2 = named("up"@, sent_bool(options.up));
    let e3 = named_others(options.others);
    let r3 = e3 + rest;
    let r2 = e2 + r3;
    let r1 = e1 + r2;
    let r0 = e0 + r1;
    regroup(map_head(n0), e0 + (e1 + (e2 + e3)), rest);
    regroup(e0, e1 + (e2 + e3), rest);
    regroup(e1, e2 + e3, rest);
    regroup(e2, e3, rest);
    reading_begins::<RequestOptions>(r0, n0);
    let f0 = RequestOptions { rk: false, uv: false, up: false };
    let f1 = RequestOptions { rk: options.rk == Some(true), ..f0 };
    let f2 = RequestOptions { uv: options.uv == Some(true), ..f1 };
    let f3 = RequestOptions { up: options.up == Some(true), ..f2 };
    if let Some(rk) = options.rk {
        option_is_read(rk, rk, rk, f0, r1);
    }
    named_step::<RequestOptions>("rk"@, sent_bool(options.rk), n1, f0, f1, r1);
    if let Some(uv) = options.uv {
        option_is_read(uv, uv, uv, f1, r2);
    }
    named_step::<RequestOptions>("uv"@, sent_bool(options.uv), n2, f1, f2, r2);
    if let Some(up) = options.up {
        option_is_read(up, up, up, f2, r3);
    }
    named_step::<RequestOptions>("up"@, sent_bool(options.up), n3, f2, f3, r3);
    assert forall|i: int, tail: Seq<u8>|
        0 <= i < options.others.len() implies RequestOptions::entry(
        text_item((#[trigger] options.others[i]).0) + #[trigger] (options.others[i].1 + tail),
        f3,
    ) == Ok::<(RequestOptions, Seq<u8>), Ctap2Status>((f3, tail)) by {
        other_option_is_skipped(options.others[i].0, options.others[i].1, f3, tail);
    }
    named_others_step::<RequestOptions>(options.others, 0, f3, rest);
    reading_ends::<RequestOptions>(rest, f3);
}

/// A `makeCredential` request on the wire: a map with numbers for keys, of which
/// each entry may be left out.
pub struct SentMakeCredential {
    /// Under 1: the client data hash.
    pub hash: Option<Seq<u8>>,
    /// Under 2: the relying party, and what else its entity says.
    pub rp: Option<(Seq<char>, Around)>,
    /// Under 3: the user handle, and what else its entity says.
    pub user: Option<(Seq<u8>, Around)>,
    /// Under 4: the acceptable algorithms.
    pub algs: Option<Seq<ListedAlg>>,
    /// Under 5: the credentials to avoid.
    pub excluded: Option<Seq<ListedId>>,
    /// Under 7: the options.
    pub options: Option<SentOptions>,
    /// Under 8: the PIN/UV auth parameter.
    pub param: Option<Seq<u8>>,
    /// Under any other number: whatever is left out.
    pub others: Seq<(int, Seq<u8>)>,
}

/// The item of an optional list of credentials.
pub open spec fn sent_ids(list: Option<Seq<ListedId>>) -> Option<Seq<u8>> {
    match list {
        Some(list) => Some(id_array(list)),
        None => None,
    }
}

/// The item of an optional list of algorithms.
pub open spec fn sent_algs(list: Option<Seq<ListedAlg>>) -> Option<Seq<u8>> {
    match list {
        Some(list) => Some(alg_array(list)),
        None => None,
    }
}

/// The item of optional options.
pub open spec fn sent_options(options: Option<SentOptions>) -> Option<Seq<u8>> {
    match options {
        Some(options) => Some(options.map()),
        None => None,
    }
}

/// The item of an optional entity with a text for its id.
pub open spec fn sent_rp(rp: Option<(Seq<char>, Around)>) -> Option<Seq<u8>> {
    match rp {
        Some((id, around)) => Some(around.map("id"@, text_item(id))),
        None => None,
    }
}

/// The item of an optional entity with bytes for its id.
pub open spec fn sent_user(user: Option<(Seq<u8>, Around)>) -> Option<Seq<u8>> {
    match user {
        Some((id, around)) => Some(around.map("id"@, bytes_item(id))),
        None => None,
    }
}

/// Whether an optional option was sent and is on.
pub open spec fn switched_on(options: Option<SentOptions>, uv: bool) -> bool {
    match options {
        Some(options) => if uv {
            options.uv == Some(true)
        } else {
            options.rk == Some(true)
        },
        None => false,
    }
}

impl SentMakeCredential {
    /// Whether what is sent has the sizes that a request may have.
    pub open spec fn sendable(self) -> bool {
        &&& self.hash matches Some(hash) ==> hash.len() == 32
        &&& self.rp matches Some((id, around)) ==> encode_utf8(id).len() <= 64 && around.beside(
            "id"@,
        )
        &&& self.user matches Some((id, around)) ==> id.len() <= 64 && around.beside("id"@)
        &&& self.algs matches Some(list) ==> algs_sendable(list)
        &&& self.excluded matches Some(list) ==> ids_sendable(list)
        &&& self.options matches Some(options) ==> options.sendable()
        &&& self.param matches Some(param) ==> param.len() <= 64
        &&& unknown_numbers(self.others, set![1int, 2, 3, 4, 5, 7, 8])
    }

    /// The number of entries.
    pub open spec fn count(self) -> nat {
        counting(self.hash) + counting(self.rp) + counting(self.user) + counting(self.algs)
            + counting(self.excluded) + counting(self.options) + counting(self.param)
            + self.others.len()
    }

    /// The entries.
    pub open spec fn entries(self) -> Seq<u8> {
        numbered(1, sent_bytes(self.hash)) + (numbered(2, sent_rp(self.rp)) + (numbered(
            3,
            sent_user(self.user),
        ) + (numbered(4, sent_algs(self.algs)) + (numbered(5, sent_ids(self.excluded)) + (numbered(
            7,
            sent_options(self.options),
        ) + (numbered(8, sent_bytes(self.param)) + numbered_others(self.others)))))))
    }

    /// What the request says.
    pub open spec fn said(self) -> MakeCredentialView {
        MakeCredentialView {
            client_data_hash: self.hash->0,
            rp_id: (self.rp->0).0,
            user_id: match self.user {
                Some((id, _around)) => id,
                None => Seq::empty(),
            },
            exclude_list: match self.excluded {
                Some(list) => listed_ids(list),
                None => Seq::empty(),
            },
            algs: match self.algs {
                Some(list) => listed_algs(list),
                None => Seq::empty(),
            },
            rk: switched_on(self.options, false),
            uv: switched_on(self.options, true),
            pin_uv_auth_param: self.param,
        }
    }
}

proof fn mc_hash(hash: Seq<u8>, acc: MakeCredentialFieldsView, rest: Seq<u8>)
    requires
        hash.len() == 32,
    ensures
        MakeCredentialFields::entry(int_item(1) + (bytes_item(hash) + rest), acc) == Ok::<
            (MakeCredentialFieldsView, Seq<u8>),
            Ctap2Status,
        >((MakeCredentialFieldsView { client_data_hash: Some(hash), ..acc }, rest)),
{
    int_round_trip(1, bytes_item(hash) + rest);
    bytes_round_trip(hash, rest);
}

proof fn mc_rp(id: Seq<char>, around: Around, acc: MakeCredentialFieldsView, rest: Seq<u8>)
    requires
        encode_utf8(id).len() <= 64,
        around.beside("id"@),
    ensures
        MakeCredentialFields::entry(
            int_item(2) + (around.map("id"@, text_item(id)) + rest),
            acc,
        ) == Ok::<(MakeCredentialFieldsView, Seq<u8>), Ctap2Status>(
            (MakeCredentialFieldsView { rp_id: Some(id), ..acc }, rest),
        ),
{
    int_round_trip(2, around.map("id"@, text_item(id)) + rest);
    relying_party_is_read(id, around, rest);
}

proof fn mc_user(id: Seq<u8>, around: Around, acc: MakeCredentialFieldsView, rest: Seq<u8>)
    requires
        id.len() <= 64,
        around.beside("id"@),
    ensures
        MakeCredentialFields::entry(
            int_item(3) + (around.map("id"@, bytes_item(id)) + rest),
            acc,
        ) == Ok::<(MakeCredentialFieldsView, Seq<u8>), Ctap2Status>(
            (MakeCredentialFieldsView { user_id: id, ..acc }, rest),
        ),
{
    int_round_trip(3, around.map("id"@, bytes_item(id)) + rest);
    user_is_read(id, around, rest);
}

proof fn mc_algs(list: Seq<ListedAlg>, acc: MakeCredentialFieldsView, rest: Seq<u8>)
    requires
        algs_sendable(list),
        acc.algs == Seq::<i64>::empty(),
    ensures
        MakeCredentialFields::entry(int_item(4) + (alg_array(list) + rest), acc) == Ok::<
            (MakeCredentialFieldsView, Seq<u8>),
            Ctap2Status,
        >((MakeCredentialFieldsView { algs: listed_algs(list), ..acc }, rest)),
{
    int_round_trip(4, alg_array(list) + rest);
    algorithm_list_is_read(list, rest);
}

proof fn mc_excluded(list: Seq<ListedId>, acc: MakeCredentialFieldsView, rest: Seq<u8>)
    requires
        ids_sendable(list),
        acc.exclude_list == Seq::<Seq<u8>>::empty(),
    ensures
        MakeCredentialFields::entry(int_item(5) + (id_array(list) + rest), acc) == Ok::<
            (MakeCredentialFieldsView, Seq<u8>),
            Ctap2Status,
        >((MakeCredentialFieldsView { exclude_list: listed_ids(list), ..acc }, rest)),
{
    int_round_trip(5, id_array(list) + rest);
    credential_list_is_read(list, rest);
}

proof fn mc_options(options: SentOptions, acc: MakeCredentialFieldsView, rest: Seq<u8>)
    requires
        options.sendable(),
    ensures
        MakeCredentialFields::entry(int_item(7) + (options.map() + rest), acc) == Ok::<
            (MakeCredentialFieldsView, Seq<u8>),
            Ctap2Status,
        >(
            (
                MakeCredentialFieldsView {
                    rk: options.rk == Some(true),
                    uv: options.uv == Some(true),
                    ..acc
                },
                rest,
            ),
        ),
{
    int_round_trip(7, options.map() + rest);
    options_are_read(options, rest);
}

proof fn mc_param(param: Seq<u8>, acc: MakeCredentialFieldsView, rest: Seq<u8>)
    requires
        param.len() <= 64,
    ensures
        MakeCredentialFields::entry(int_item(8) + (bytes_item(param) + rest), acc) == Ok::<
            (MakeCredentialFieldsView, Seq<u8>),
            Ctap2Status,
        >((MakeCredentialFieldsView { pin_uv_auth_param: Some(param), ..acc }, rest)),
{
    int_round_trip(8, bytes_item(param) + rest);
    bytes_round_trip(param, rest);
}

proof fn mc_other(key: int, value: Seq<u8>, acc: MakeCredentialFieldsView, rest: Seq<u8>)
    requires
        i64::MIN <= key <= i64::MAX,
        !set![1int, 2, 3, 4, 5, 7, 8].contains(key),
        skippable(value),
    ensures
        MakeCredentialFields::entry(int_item(key) + (value + rest), acc) == Ok::<
            (MakeCredentialFieldsView, Seq<u8>),
            Ctap2Status,
        >((acc, rest)),
{
    unknown_number_reads(key, value, rest);
}

proof fn mc_hash_step(value: Option<Seq<u8>>, left: nat, acc: MakeCredentialFieldsView,
    rest: Seq<u8>)
    requires
        value matches Some(hash) ==> hash.len() == 32,
    ensures
        reading::<MakeCredentialFields>(numbered(1, sent_bytes(value)) + rest, left
            + counting(value), acc) == reading::<
            MakeCredentialFields,
        >(rest, left, MakeCredentialFieldsView {
            client_data_hash: if value is Some { value } else { acc.client_data_hash },
            ..acc
        }),
{
    let next = MakeCredentialFieldsView {
            client_data_hash: if value is Some { value } else { acc.client_data_hash },
            ..acc
        };
    if let Some(v) = value {
        mc_hash(v, acc, rest);
    }
    assert(counting(sent_bytes(value)) == counting(value));
    numbered_step::<MakeCredentialFields>(1, sent_bytes(value), left, acc, next, rest);
}

proof fn mc_rp_step(value: Option<(Seq<char>, Around)>, left: nat, acc: MakeCredentialFieldsView,
    rest: Seq<u8>)
    requires
        value matches Some((id, around)) ==> encode_utf8(id).len() <= 64 && around.beside("id"@),
    ensures
        reading::<MakeCredentialFields>(numbered(2, sent_rp(value)) + rest, left
            + counting(value), acc) == reading::<
            MakeCredentialFields,
        >(rest, left, MakeCredentialFieldsView {
            rp_id: if value is Some { Some((value->0).0) } else { acc.rp_id },
            ..acc
        }),
{
    let next = MakeCredentialFieldsView {
            rp_id: if value is Some { Some((value->0).0) } else { acc.rp_id },
            ..acc
        };
    if let Some(v) = value {
        mc_rp(v.0, v.1, acc, rest);
    }
    assert(counting(sent_rp(value)) == counting(value));
    numbered_step::<MakeCredentialFields>(2, sent_rp(value), left, acc, next, rest);
}

proof fn mc_user_step(value: Option<(Seq<u8>, Around)>, left: nat, acc: MakeCredentialFieldsView,
    rest: Seq<u8>)
    requires
        value matches Some((id, around)) ==> id.len() <= 64 && around.beside("id"@),
    ensures
        reading::<MakeCredentialFields>(numbered(3, sent_user(value)) + rest, left
            + counting(value), acc) == reading::<
            MakeCredentialFields,
        >(rest, left, MakeCredentialFieldsView {
            user_id: if value is Some { (value->0).0 } else { acc.user_id },
            ..acc
        }),
{
    let next = MakeCredentialFieldsView {
            user_id: if value is Some { (value->0).0 } else { acc.user_id },
            ..acc
        };
    if let Some(v) = value {
        mc_user(v.0, v.1, acc, rest);
    }
    assert(counting(sent_user(value)) == counting(value));
    numbered_step::<MakeCredentialFields>(3, sent_user(value), left, acc, next, rest);
}

proof fn mc_algs_step(value: Option<Seq<ListedAlg>>, left: nat, acc: MakeCredentialFieldsView,
    rest: Seq<u8>)
    requires
        value matches Some(list) ==> algs_sendable(list),
        acc.algs == Seq::<i64>::empty(),
    ensures
        reading::<MakeCredentialFields>(numbered(4, sent_algs(value)) + rest, left
            + counting(value), acc) == reading::<
            MakeCredentialFields,
        >(rest, left, MakeCredentialFieldsView {
            algs: if value is Some { listed_algs(value->0) } else { acc.algs },
            ..acc
        }),
{
    let next = MakeCredentialFieldsView {
            algs: if value is Some { listed_algs(value->0) } else { acc.algs },
            ..acc
        };
    if let Some(v) = value {
        mc_algs(v, acc, rest);
    }
    assert(counting(sent_algs(value)) == counting(value));
    numbered_step::<MakeCredentialFields>(4, sent_algs(value), left, acc, next, rest);
}

proof fn mc_excluded_step(value: Option<Seq<ListedId>>, left: nat, acc: MakeCredentialFieldsView,
    rest: Seq<u8>)
    requires
        value matches Some(list) ==> ids_sendable(list),
        acc.exclude_list == Seq::<Seq<u8>>::empty(),
    ensures
        reading::<MakeCredentialFields>(numbered(5, sent_ids(value)) + rest, left
            + counting(value), acc) == reading::<
            MakeCredentialFields,
        >(rest, left, MakeCredentialFieldsView {
            exclude_list: if value is Some { listed_ids(value->0) } else { acc.exclude_list },
            ..acc
        }),
{
    let next = MakeCredentialFieldsView {
            exclude_list: if value is Some { listed_ids(value->0) } else { acc.exclude_list },
            ..acc
        };
    if let Some(v) = value {
        mc_excluded(v, acc, rest);
    }
    assert(counting(sent_ids(value)) == counting(value));
    numbered_step::<MakeCredentialFields>(5, sent_ids(value), left, acc, next, rest);
}

proof fn mc_options_step(value: Option<SentOptions>, left: nat, acc: MakeCredentialFieldsView,
    rest: Seq<u8>)
    requires
        value matches Some(options) ==> options.sendable(),
    ensures
        reading::<MakeCredentialFields>(numbered(7, sent_options(value)) + rest, left
            + counting(value), acc) == reading::<
            MakeCredentialFields,
        >(rest, left, MakeCredentialFieldsView {
            rk: if value is Some { switched_on(value, false) } else { acc.rk },
            uv: if value is Some { switched_on(value, true) } else { acc.uv },
            ..acc
        }),
{
    let next = MakeCredentialFieldsView {
            rk: if value is Some { switched_on(value, false) } else { acc.rk },
            uv: if value is Some { switched_on(value, true) } else { acc.uv },
            ..acc
        };
    if let Some(v) = value {
        mc_options(v, acc, rest);
    }
    assert(counting(sent_options(value)) == counting(value));
    numbered_step::<MakeCredentialFields>(7, sent_options(value), left, acc, next, rest);
}

proof fn mc_param_step(value: Option<Seq<u8>>, left: nat, acc: MakeCredentialFieldsView,
    rest: Seq<u8>)
    requires
        value matches Some(param) ==> param.len() <= 64,
    ensures
        reading::<MakeCredentialFields>(numbered(8, sent_bytes(value)) + rest, left
            + counting(value), acc) == reading::<
            MakeCredentialFields,
        >(rest, left, MakeCredentialFieldsView {
            pin_uv_auth_param: if value is Some { value } else { acc.pin_uv_auth_param },
            ..acc
        }),
{
    let next = MakeCredentialFieldsView {
            pin_uv_auth_param: if value is Some { value } else { acc.pin_uv_auth_param },
            ..acc
        };
    if let Some(v) = value {
        mc_param(v, acc, rest);
    }
    assert(counting(sent_bytes(value)) == counting(value));
    numbered_step::<MakeCredentialFields>(8, sent_bytes(value), left, acc, next, rest);
}

proof fn mc_others_step(others: Seq<(int, Seq<u8>)>, acc: MakeCredentialFieldsView, rest: Seq<u8>)
    requires
        unknown_numbers(others, set![1int, 2, 3, 4, 5, 7, 8]),
    ensures
        reading::<MakeCredentialFields>(numbered_others(others) + rest, others.len(), acc) == Ok::<
            (MakeCredentialFieldsView, Seq<u8>),
            Ctap2Status,
        >((acc, rest)),
{
    assert forall|i: int, tail: Seq<u8>| 0 <= i < others.len() implies MakeCredentialFields::entry(
        int_item((#[trigger] others[i]).0) + #[trigger] (others[i].1 + tail),
        acc,
    ) == Ok::<(MakeCredentialFieldsView, Seq<u8>), Ctap2Status>((acc, tail)) by {
        mc_other(others[i].0, others[i].1, acc, tail);
    }
    numbered_others_step::<MakeCredentialFields>(others, 0, acc, rest);
    reading_ends::<MakeCredentialFields>(rest, acc);
}

proof fn mc_entries_regroup(sent: SentMakeCredential, rest: Seq<u8>)
    ensures
        sent.entries() + rest == numbered(1, sent_bytes(sent.hash)) + (numbered(2, sent_rp(sent.rp))
            + (numbered(3, sent_user(sent.user)) + (numbered(4, sent_algs(sent.algs)) + (numbered(
            5,
            sent_ids(sent.excluded),
        ) + (numbered(7, sent_options(sent.options)) + (numbered(8, sent_bytes(sent.param)) + (
        numbered_others(sent.others) + rest))))))),
{
    let e0 = numbered(1, sent_bytes(sent.hash));
    let e1 = numbered(2, sent_rp(sent.rp));
    let e2 = numbered(3, sent_user(sent.user));
    let e3 = numbered(4, sent_algs(sent.algs));
    let e4 = numbered(5, sent_ids(sent.excluded));
    let e5 = numbered(7, sent_options(sent.options));
    let e6 = numbered(8, sent_bytes(sent.param));
    let e7 = numbered_others(sent.others);
    regroup(e0, e1 + (e2 + (e3 + (e4 + (e5 + (e6 + e7))))), rest);
    regroup(e1, e2 + (e3 + (e4 + (e5 + (e6 + e7)))), rest);
    regroup(e2, e3 + (e4 + (e5 + (e6 + e7))), rest);
    regroup(e3, e4 + (e5 + (e6 + e7)), rest);
    regroup(e4, e5 + (e6 + e7), rest);
    regroup(e5, e6 + e7, rest);
    regroup(e6, e7, rest);
}

proof fn mc_fields_are_read(sent: SentMakeCredential, rest: Seq<u8>)
    requires
        sent.sendable(),
    ensures
        take_record::<MakeCredentialFields>(map_head(sent.count()) + (sent.entries() + rest))
            == Ok::<(MakeCredentialFieldsView, Seq<u8>), Ctap2Status>(
            (
                MakeCredentialFieldsView {
                    client_data_hash: sent.hash,
                    rp_id: match sent.rp {
                        Some((id, _around)) => Some(id),
                        None => None,
                    },
                    user_id: sent.said().user_id,
                    exclude_list: sent.said().exclude_list,
                    algs: sent.said().algs,
                    rk: sent.said().rk,
                    uv: sent.said().uv,
                    pin_uv_auth_param: sent.param,
                },
                rest,
            ),
        ),
{
    let n7 = sent.others.len();
    let n6 = n7 + counting(sent.param);
    let n5 = n6 + counting(sent.options);
    let n4 = n5 + counting(sent.excluded);
    let n3 = n4 + counting(sent.algs);
    let n2 = n3 + counting(sent.user);
    let n1 = n2 + counting(sent.rp);
    let r7 = numbered_others(sent.others) + rest;
    let r6 = numbered(8, sent_bytes(sent.param)) + r7;
    let r5 = numbered(7, sent_options(sent.options)) + r6;
    let r4 = numbered(5, sent_ids(sent.excluded)) + r5;
    let r3 = numbered(4, sent_algs(sent.algs)) + r4;
    let r2 = numbered(3, sent_user(sent.user)) + r3;
    let r1 = numbered(2, sent_rp(sent.rp)) + r2;
    mc_entries_regroup(sent, rest);
    reading_begins::<MakeCredentialFields>(sent.entries() + rest, sent.count());
    let f0 = MakeCredentialFields::blank();
    let f1 = MakeCredentialFieldsView { client_data_hash: sent.hash, ..f0 };
    let f2 = MakeCredentialFieldsView {
        rp_id: match sent.rp {
            Some((id, _around)) => Some(id),
            None => None,
        },
        ..f1
    };
    let f3 = MakeCredentialFieldsView { user_id: sent.said().user_id, ..f2 };
    let f4 = MakeCredentialFieldsView { algs: sent.said().algs, ..f3 };
    let f5 = MakeCredentialFieldsView { exclude_list: sent.said().exclude_list, ..f4 };
    let f6 = MakeCredentialFieldsView { rk: sent.said().rk, uv: sent.said().uv, ..f5 };
    let f7 = MakeCredentialFieldsView { pin_uv_auth_param: sent.param, ..f6 };
    mc_hash_step(sent.hash, n1, f0, r1);
    mc_rp_step(sent.rp, n2, f1, r2);
    mc_user_step(sent.user, n3, f2, r3);
    mc_algs_step(sent.algs, n4, f3, r4);
    mc_excluded_step(sent.excluded, n5, f4, r5);
    mc_options_step(sent.options, n6, f5, r6);
    mc_param_step(sent.param, n7, f6, r7);
    mc_others_step(sent.others, f7, rest);
}

/// Parsing gives back what the client wrote: whatever hash, relying party, user,
/// algorithms, excluded credentials, options and PIN parameter are sent under their
/// numbers, and whatever else surrounds them, the request says exactly those. One
/// without a hash or a relying party is refused for what it lacks.
pub proof fn make_credential_is_understood(sent: SentMakeCredential, rest: Seq<u8>)
    requires
        sent.sendable(),
    ensures
        sent.hash is Some && sent.rp is Some ==> requested(
            0x01,
            map_head(sent.count()) + (sent.entries() + rest),
        ) == Ok::<Ctap2RequestView, Ctap2Status>(Ctap2RequestView::MakeCredential(sent.said())),
        sent.hash is None || sent.rp is None ==> requested(
            0x01,
            map_head(sent.count()) + (sent.entries() + rest),
        ) == Err::<Ctap2RequestView, Ctap2Status>(Ctap2Status::MissingParameter),
{
    mc_fields_are_read(sent, rest);
}

/// The item of an optional text.
pub open spec fn sent_text(t: Option<Seq<char>>) -> Option<Seq<u8>> {
    match t {
        Some(t) => Some(text_item(t)),
        None => None,
    }
}

/// The item of an optional small number.
pub open spec fn sent_number(n: Option<u8>) -> Option<Seq<u8>> {
    match n {
        Some(n) => Some(int_item(n as int)),
        None => None,
    }
}

/// A `getAssertion` request on the wire: a map with numbers for keys, of which
/// each entry may be left out.
pub struct SentGetAssertion {
    /// Under 1: the relying party.
    pub rp: Option<Seq<char>>,
    /// Under 2: the client data hash.
    pub hash: Option<Seq<u8>>,
    /// Under 3: the credentials that are accepted.
    pub allowed: Option<Seq<ListedId>>,
    /// Under 5: the options.
    pub options: Option<SentOptions>,
    /// Under 6: the PIN/UV auth parameter.
    pub param: Option<Seq<u8>>,
    /// Under any other number: whatever is left out.
    pub others: Seq<(int, Seq<u8>)>,
}

impl SentGetAssertion {
    /// Whether what is sent has the sizes that a request may have.
    pub open spec fn sendable(self) -> bool {
        &&& self.rp matches Some(v) ==> encode_utf8(v).len() <= 64
        &&& self.hash matches Some(v) ==> v.len() == 32
        &&& self.allowed matches Some(v) ==> ids_sendable(v)
        &&& self.options matches Some(v) ==> v.sendable()
        &&& self.param matches Some(v) ==> v.len() <= 64
        &&& unknown_numbers(self.others, set![1int, 2, 3, 5, 6])
    }

    /// The number of entries.
    pub open spec fn count(self) -> nat {
        counting(self.rp) + counting(self.hash) + counting(self.allowed)
            + counting(self.options) + counting(self.param) + self.others.len()
    }

    /// The entries.
    pub open spec fn entries(self) -> Seq<u8> {
        numbered(1, sent_text(self.rp)) + (numbered(2, sent_bytes(self.hash))
            + (numbered(3, sent_ids(self.allowed)) + (numbered(5, sent_options(self.options))
            + (numbered(6, sent_bytes(self.param)) + (numbered_others(self.others))))))
    }

    /// The fields that are read.
    pub open spec fn fields(self) -> GetAssertionFieldsView {
        GetAssertionFieldsView {
            rp_id: self.rp,
            client_data_hash: self.hash,
            allow_list: match self.allowed {
                Some(list) => listed_ids(list),
                None => Seq::empty(),
            },
            up: match self.options {
                Some(options) => options.up == Some(true),
                None => true,
            },
            uv: match self.options {
                Some(options) => options.uv == Some(true),
                None => false,
            },
            pin_uv_auth_param: self.param,
        }
    }

    /// What the request says.
    pub open spec fn said(self) -> GetAssertionView {
        GetAssertionView {
            rp_id: self.rp->0,
            client_data_hash: self.hash->0,
            allow_list: self.fields().allow_list,
            up: self.fields().up,
            uv: self.fields().uv,
            pin_uv_auth_param: self.param,
        }
    }
}

proof fn ga_rp(v: Seq<char>, acc: GetAssertionFieldsView, rest: Seq<u8>)
    requires
        encode_utf8(v).len() <= 64,
    ensures
        GetAssertionFields::entry(int_item(1) + (text_item(v) + rest), acc) == Ok::<
            (GetAssertionFieldsView, Seq<u8>),
            Ctap2Status,
        >(
            (GetAssertionFieldsView { rp_id: Some(v), ..acc }, rest),
        ),
{
    int_round_trip(1, text_item(v) + rest);
    text_round_trip(v, rest);
}

proof fn ga_rp_step(value: Option<Seq<char>>, left: nat, acc: GetAssertionFieldsView, rest: Seq<u8>)
    requires
        value matches Some(v) ==> encode_utf8(v).len() <= 64,
    ensures
        reading::<GetAssertionFields>(numbered(1, sent_text(value)) + rest, left
            + counting(value), acc) == reading::<
            GetAssertionFields,
        >(rest, left, GetAssertionFieldsView {
            rp_id: if value is Some { value } else { acc.rp_id },
            ..acc
        }),
{
    let next = GetAssertionFieldsView {
            rp_id: if value is Some { value } else { acc.rp_id },
            ..acc
        };
    if let Some(v) = value {
        ga_rp(v, acc, rest);
    }
    assert(counting(sent_text(value)) == counting(value));
    numbered_step::<GetAssertionFields>(1, sent_text(value), left, acc, next, rest);
}

proof fn ga_hash(v: Seq<u8>, acc: GetAssertionFieldsView, rest: Seq<u8>)
    requires
        v.len() == 32,
    ensures
        GetAssertionFields::entry(int_item(2) + (bytes_item(v) + rest), acc) == Ok::<
            (GetAssertionFieldsView, Seq<u8>),
            Ctap2Status,
        >(
            (GetAssertionFieldsView { client_data_hash: Some(v), ..acc }, rest),
        ),
{
    int_round_trip(2, bytes_item(v) + rest);
    bytes_round_trip(v, rest);
}

proof fn ga_hash_step(value: Option<Seq<u8>>, left: nat, acc: GetAssertionFieldsView, rest: Seq<u8>)
    requires
        value matches Some(v) ==> v.len() == 32,
    ensures
        reading::<GetAssertionFields>(numbered(2, sent_bytes(value)) + rest, left
            + counting(value), acc) == reading::<
            GetAssertionFields,
        >(rest, left, GetAssertionFieldsView {
            client_data_hash: if value is Some { value } else { acc.client_data_hash },
            ..acc
        }),
{
    let next = GetAssertionFieldsView {
            client_data_hash: if value is Some { value } else { acc.client_data_hash },
            ..acc
        };
    if let Some(v) = value {
        ga_hash(v, acc, rest);
    }
    assert(counting(sent_bytes(value)) == counting(value));
    numbered_step::<GetAssertionFields>(2, sent_bytes(value), left, acc, next, rest);
}

proof fn ga_allowed(v: Seq<ListedId>, acc: GetAssertionFieldsView, rest: Seq<u8>)
    requires
        ids_sendable(v),
        acc.allow_list == Seq::<Seq<u8>>::empty(),
    ensures
        GetAssertionFields::entry(int_item(3) + (id_array(v) + rest), acc) == Ok::<
            (GetAssertionFieldsView, Seq<u8>),
            Ctap2Status,
        >(
            (GetAssertionFieldsView { allow_list: listed_ids(v), ..acc }, rest),
        ),
{
    int_round_trip(3, id_array(v) + rest);
    credential_list_is_read(v, rest);
}

proof fn ga_allowed_step(value: Option<Seq<ListedId>>, left: nat, acc: GetAssertionFieldsView,
    rest: Seq<u8>)
    requires
        value matches Some(v) ==> ids_sendable(v),
        acc.allow_list == Seq::<Seq<u8>>::empty(),
    ensures
        reading::<GetAssertionFields>(numbered(3, sent_ids(value)) + rest, left
            + counting(value), acc) == reading::<
            GetAssertionFields,
        >(rest, left, GetAssertionFieldsView {
            allow_list: if value is Some { listed_ids(value->0) } else { acc.allow_list },
            ..acc
        }),
{
    let next = GetAssertionFieldsView {
            allow_list: if value is Some { listed_ids(value->0) } else { acc.allow_list },
            ..acc
        };
    if let Some(v) = value {
        ga_allowed(v, acc, rest);
    }
    assert(counting(sent_ids(value)) == counting(value));
    numbered_step::<GetAssertionFields>(3, sent_ids(value), left, acc, next, rest);
}

proof fn ga_options(v: SentOptions, acc: GetAssertionFieldsView, rest: Seq<u8>)
    requires
        v.sendable(),
    ensures
        GetAssertionFields::entry(int_item(5) + (v.map() + rest), acc) == Ok::<
            (GetAssertionFieldsView, Seq<u8>),
            Ctap2Status,
        >(
            (GetAssertionFieldsView { up: v.up == Some(true), uv: v.uv
                == Some(true), ..acc }, rest),
        ),
{
    int_round_trip(5, v.map() + rest);
    options_are_read(v, rest);
}

proof fn ga_options_step(value: Option<SentOptions>, left: nat, acc: GetAssertionFieldsView,
    rest: Seq<u8>)
    requires
        value matches Some(v) ==> v.sendable(),
    ensures
        reading::<GetAssertionFields>(numbered(5, sent_options(value)) + rest, left
            + counting(value), acc) == reading::<
            GetAssertionFields,
        >(rest, left, GetAssertionFieldsView {
            up: if value is Some { (value->0).up == Some(true) } else { acc.up },
            uv: if value is Some { (value->0).uv == Some(true) } else { acc.uv },
            ..acc
        }),
{
    let next = GetAssertionFieldsView {
            up: if value is Some { (value->0).up == Some(true) } else { acc.up },
            uv: if value is Some { (value->0).uv == Some(true) } else { acc.uv },
            ..acc
        };
    if let Some(v) = value {
        ga_options(v, acc, rest);
    }
    assert(counting(sent_options(value)) == counting(value));
    numbered_step::<GetAssertionFields>(5, sent_options(value), left, acc, next, rest);
}

proof fn ga_param(v: Seq<u8>, acc: GetAssertionFieldsView, rest: Seq<u8>)
    requires
        v.len() <= 64,
    ensures
        GetAssertionFields::entry(int_item(6) + (bytes_item(v) + rest), acc) == Ok::<
            (GetAssertionFieldsView, Seq<u8>),
            Ctap2Status,
        >(
            (GetAssertionFieldsView { pin_uv_auth_param: Some(v), ..acc }, rest),
        ),
{
    int_round_trip(6, bytes_item(v) + rest);
    bytes_round_trip(v, rest);
}

proof fn ga_param_step(value: Option<Seq<u8>>, left: nat, acc: GetAssertionFieldsView,
    rest: Seq<u8>)
    requires
        value matches Some(v) ==> v.len() <= 64,
    ensures
        reading::<GetAssertionFields>(numbered(6, sent_bytes(value)) + rest, left
            + counting(value), acc) == reading::<
            GetAssertionFields,
        >(rest, left, GetAssertionFieldsView {
            pin_uv_auth_param: if value is Some { value } else { acc.pin_uv_auth_param },
            ..acc
        }),
{
    let next = GetAssertionFieldsView {
            pin_uv_auth_param: if value is Some { value } else { acc.pin_uv_auth_param },
            ..acc
        };
    if let Some(v) = value {
        ga_param(v, acc, rest);
    }
    assert(counting(sent_bytes(value)) == counting(value));
    numbered_step::<GetAssertionFields>(6, sent_bytes(value), left, acc, next, rest);
}

proof fn ga_others_step(others: Seq<(int, Seq<u8>)>, acc: GetAssertionFieldsView, rest: Seq<u8>)
    requires
        unknown_numbers(others, set![1int, 2, 3, 5, 6]),
    ensures
        reading::<GetAssertionFields>(numbered_others(others) + rest, others.len(), acc) == Ok::<
            (GetAssertionFieldsView, Seq<u8>),
            Ctap2Status,
        >((acc, rest)),
{
    assert forall|i: int, tail: Seq<u8>| 0 <= i < others.len() implies GetAssertionFields::entry(
        int_item((#[trigger] others[i]).0) + #[trigger] (others[i].1 + tail),
        acc,
    ) == Ok::<(GetAssertionFieldsView, Seq<u8>), Ctap2Status>((acc, tail)) by {
        unknown_number_reads(others[i].0, others[i].1, tail);
    }
    numbered_others_step::<GetAssertionFields>(others, 0, acc, rest);
    reading_ends::<GetAssertionFields>(rest, acc);
}

proof fn ga_entries_regroup(sent: SentGetAssertion, rest: Seq<u8>)
    ensures
        sent.entries() + rest == numbered(1, sent_text(sent.rp))
            + (numbered(2, sent_bytes(sent.hash)) + (numbered(3, sent_ids(sent.allowed))
            + (numbered(5, sent_options(sent.options)) + (numbered(6, sent_bytes(sent.param))
            + (numbered_others(sent.others) + rest))))),
{
    let e0 = numbered(1, sent_text(sent.rp));
    let e1 = numbered(2, sent_bytes(sent.hash));
    let e2 = numbered(3, sent_ids(sent.allowed));
    let e3 = numbered(5, sent_options(sent.options));
    let e4 = numbered(6, sent_bytes(sent.param));
    let e5 = numbered_others(sent.others);
    regroup(e0, e1 + (e2 + (e3 + (e4 + e5))), rest);
    regroup(e1, e2 + (e3 + (e4 + e5)), rest);
    regroup(e2, e3 + (e4 + e5), rest);
    regroup(e3, e4 + e5, rest);
    regroup(e4, e5, rest);
}

proof fn ga_fields_are_read(sent: SentGetAssertion, rest: Seq<u8>)
    requires
        sent.sendable(),
    ensures
        take_record::<GetAssertionFields>(map_head(sent.count()) + (sent.entries() + rest)) == Ok::<
            (GetAssertionFieldsView, Seq<u8>),
            Ctap2Status,
        >(
            (sent.fields(), rest),
        ),
{
    let n5 = sent.others.len();
    let n4 = n5 + counting(sent.param);
    let n3 = n4 + counting(sent.options);
    let n2 = n3 + counting(sent.allowed);
    let n1 = n2 + counting(sent.hash);
    let r5 = numbered_others(sent.others) + rest;
    let r4 = numbered(6, sent_bytes(sent.param)) + r5;
    let r3 = numbered(5, sent_options(sent.options)) + r4;
    let r2 = numbered(3, sent_ids(sent.allowed)) + r3;
    let r1 = numbered(2, sent_bytes(sent.hash)) + r2;
    ga_entries_regroup(sent, rest);
    reading_begins::<GetAssertionFields>(sent.entries() + rest, sent.count());
    let f0 = GetAssertionFields::blank();
    let f1 = GetAssertionFieldsView { rp_id: sent.fields().rp_id, ..f0 };
    let f2 = GetAssertionFieldsView { client_data_hash: sent.fields().client_data_hash, ..f1 };
    let f3 = GetAssertionFieldsView { allow_list: sent.fields().allow_list, ..f2 };
    let f4 = GetAssertionFieldsView { up: sent.fields().up, uv: sent.fields().uv, ..f3 };
    let f5 = GetAssertionFieldsView { pin_uv_auth_param: sent.fields().pin_uv_auth_param, ..f4 };
    ga_rp_step(sent.rp, n1, f0, r1);
    ga_hash_step(sent.hash, n2, f1, r2);
    ga_allowed_step(sent.allowed, n3, f2, r3);
    ga_options_step(sent.options, n4, f3, r4);
    ga_param_step(sent.param, n5, f4, r5);
    ga_others_step(sent.others, f5, rest);
}

/// Parsing gives back what the client wrote: whatever relying party, hash, accepted
/// credentials, options and PIN parameter are sent under their numbers, the request
/// says exactly those. Without options presence is asked for and verification is not.
/// A request without a relying party or a hash is refused for what it lacks.
pub proof fn get_assertion_is_understood(sent: SentGetAssertion, rest: Seq<u8>)
    requires
        sent.sendable(),
    ensures
        sent.rp is Some && sent.hash is Some ==> requested(
            0x02,
            map_head(sent.count()) + (sent.entries() + rest),
        ) == Ok::<Ctap2RequestView, Ctap2Status>(Ctap2RequestView::GetAssertion(sent.said())),
        sent.rp is None || sent.hash is None ==> requested(
            0x02,
            map_head(sent.count()) + (sent.entries() + rest),
        ) == Err::<Ctap2RequestView, Ctap2Status>(Ctap2Status::MissingParameter),
{
    ga_fields_are_read(sent, rest);
}

/// A key agreement key on the wire: a COSE key of type EC2 for ECDH-ES on P-256, with
/// its coordinates under -2 and -3.
pub open spec fn cose_key(key: Ec2KeyAgreementView) -> Seq<u8> {
    map_head(5) + int_item(1) + int_item(2) + int_item(3) + int_item(-25) + int_item(-1) + int_item(
        1,
    ) + int_item(-2) + bytes_item(key.x) + int_item(-3) + bytes_item(key.y)
}

/// The item of an optional key agreement key.
pub open spec fn sent_key(key: Option<Ec2KeyAgreementView>) -> Option<Seq<u8>> {
    match key {
        Some(key) => Some(cose_key(key)),
        None => None,
    }
}

/// A COSE key is read for its coordinates.
pub proof fn cose_key_is_read(key: Ec2KeyAgreementView, rest: Seq<u8>)
    requires
        key.x.len() == 32,
        key.y.len() == 32,
    ensures
        Ec2KeyAgreement::take(cose_key(key) + rest) == Some((key, rest)),
{
    crate::pin::agreement_key_round_trips(key, rest);
    assert(cose_key(key) == key.cbor());
}

/// A `clientPIN` request on the wire: a map with numbers for keys, of which each
/// entry may be left out.
pub struct SentClientPin {
    /// Under 1: the protocol version.
    pub protocol: Option<u8>,
    /// Under 2: the subcommand.
    pub sub_command: Option<u8>,
    /// Under 3: the key agreement key of the platform.
    pub key: Option<Ec2KeyAgreementView>,
    /// Under 4: the authentication of what is sent.
    pub auth: Option<Seq<u8>>,
    /// Under 5: the new PIN, encrypted.
    pub new_pin: Option<Seq<u8>>,
    /// Under 6: the hash of the PIN, encrypted.
    pub pin_hash: Option<Seq<u8>>,
    /// Under any other number: whatever is left out.
    pub others: Seq<(int, Seq<u8>)>,
}

impl SentClientPin {
    /// Whether what is sent has the sizes that a request may have.
    pub open spec fn sendable(self) -> bool {
        &&& self.key matches Some(v) ==> v.x.len() == 32 && v.y.len() == 32
        &&& self.auth matches Some(v) ==> v.len() <= 64
        &&& self.new_pin matches Some(v) ==> v.len() <= 96
        &&& self.pin_hash matches Some(v) ==> v.len() <= 32
        &&& unknown_numbers(self.others, set![1int, 2, 3, 4, 5, 6])
        &&& forall|i: int| 0 <= i < self.others.len() ==> 0 <= (#[trigger] self.others[i]).0 <= 255
    }

    /// The number of entries.
    pub open spec fn count(self) -> nat {
        counting(self.protocol) + counting(self.sub_command) + counting(self.key)
            + counting(self.auth) + counting(self.new_pin) + counting(self.pin_hash)
            + self.others.len()
    }

    /// The entries.
    pub open spec fn entries(self) -> Seq<u8> {
        numbered(1, sent_number(self.protocol)) + (numbered(2, sent_number(self.sub_command))
            + (numbered(3, sent_key(self.key)) + (numbered(4, sent_bytes(self.auth))
            + (numbered(5, sent_bytes(self.new_pin)) + (numbered(6, sent_bytes(self.pin_hash))
            + (numbered_others(self.others)))))))
    }

    /// What the request says.
    pub open spec fn fields(self) -> ClientPinRequestView {
        ClientPinRequestView {
            protocol: match self.protocol {
                Some(protocol) => protocol,
                None => 1,
            },
            sub_command: match self.sub_command {
                Some(sub_command) => sub_command,
                None => 0,
            },
            key_agreement: self.key,
            pin_uv_auth_param: self.auth,
            new_pin_enc: self.new_pin,
            pin_hash_enc: self.pin_hash,
        }
    }
}

proof fn cp_protocol(v: u8, acc: ClientPinRequestView, rest: Seq<u8>)
    ensures
        ClientPinRequest::entry(int_item(1) + (int_item(v as int) + rest), acc) == Ok::<
            (ClientPinRequestView, Seq<u8>),
            Ctap2Status,
        >(
            (ClientPinRequestView { protocol: v, ..acc }, rest),
        ),
{
    uint_round_trip(1, 0xff, int_item(v as int) + rest);
    uint_round_trip(v as nat, 0xff, rest);
}

proof fn cp_protocol_step(value: Option<u8>, left: nat, acc: ClientPinRequestView, rest: Seq<u8>)
    ensures
        reading::<ClientPinRequest>(numbered(1, sent_number(value)) + rest, left
            + counting(value), acc) == reading::<
            ClientPinRequest,
        >(rest, left, ClientPinRequestView {
            protocol: if value is Some { value->0 } else { acc.protocol },
            ..acc
        }),
{
    let next = ClientPinRequestView {
            protocol: if value is Some { value->0 } else { acc.protocol },
            ..acc
        };
    if let Some(v) = value {
        cp_protocol(v, acc, rest);
    }
    assert(counting(sent_number(value)) == counting(value));
    numbered_step::<ClientPinRequest>(1, sent_number(value), left, acc, next, rest);
}

proof fn cp_sub_command(v: u8, acc: ClientPinRequestView, rest: Seq<u8>)
    ensures
        ClientPinRequest::entry(int_item(2) + (int_item(v as int) + rest), acc) == Ok::<
            (ClientPinRequestView, Seq<u8>),
            Ctap2Status,
        >(
            (ClientPinRequestView { sub_command: v, ..acc }, rest),
        ),
{
    uint_round_trip(2, 0xff, int_item(v as int) + rest);
    uint_round_trip(v as nat, 0xff, rest);
}

proof fn cp_sub_command_step(value: Option<u8>, left: nat, acc: ClientPinRequestView, rest: Seq<u8>)
    ensures
        reading::<ClientPinRequest>(numbered(2, sent_number(value)) + rest, left
            + counting(value), acc) == reading::<
            ClientPinRequest,
        >(rest, left, ClientPinRequestView {
            sub_command: if value is Some { value->0 } else { acc.sub_command },
            ..acc
        }),
{
    let next = ClientPinRequestView {
            sub_command: if value is Some { value->0 } else { acc.sub_command },
            ..acc
        };
    if let Some(v) = value {
        cp_sub_command(v, acc, rest);
    }
    assert(counting(sent_number(value)) == counting(value));
    numbered_step::<ClientPinRequest>(2, sent_number(value), left, acc, next, rest);
}

proof fn cp_key(v: Ec2KeyAgreementView, acc: ClientPinRequestView, rest: Seq<u8>)
    requires
        v.x.len() == 32 && v.y.len() == 32,
    ensures
        ClientPinRequest::entry(int_item(3) + (cose_key(v) + rest), acc) == Ok::<
            (ClientPinRequestView, Seq<u8>),
            Ctap2Status,
        >(
            (ClientPinRequestView { key_agreement: Some(v), ..acc }, rest),
        ),
{
    uint_round_trip(3, 0xff, cose_key(v) + rest);
    cose_key_is_read(v, rest);
}

proof fn cp_key_step(value: Option<Ec2KeyAgreementView>, left: nat, acc: ClientPinRequestView,
    rest: Seq<u8>)
    requires
        value matches Some(v) ==> v.x.len() == 32 && v.y.len() == 32,
    ensures
        reading::<ClientPinRequest>(numbered(3, sent_key(value)) + rest, left
            + counting(value), acc) == reading::<
            ClientPinRequest,
        >(rest, left, ClientPinRequestView {
            key_agreement: if value is Some { value } else { acc.key_agreement },
            ..acc
        }),
{
    let next = ClientPinRequestView {
            key_agreement: if value is Some { value } else { acc.key_agreement },
            ..acc
        };
    if let Some(v) = value {
        cp_key(v, acc, rest);
    }
    assert(counting(sent_key(value)) == counting(value));
    numbered_step::<ClientPinRequest>(3, sent_key(value), left, acc, next, rest);
}

proof fn cp_auth(v: Seq<u8>, acc: ClientPinRequestView, rest: Seq<u8>)
    requires
        v.len() <= 64,
    ensures
        ClientPinRequest::entry(int_item(4) + (bytes_item(v) + rest), acc) == Ok::<
            (ClientPinRequestView, Seq<u8>),
            Ctap2Status,
        >(
            (ClientPinRequestView { pin_uv_auth_param: Some(v), ..acc }, rest),
        ),
{
    uint_round_trip(4, 0xff, bytes_item(v) + rest);
    bytes_round_trip(v, rest);
}

proof fn cp_auth_step(value: Option<Seq<u8>>, left: nat, acc: ClientPinRequestView, rest: Seq<u8>)
    requires
        value matches Some(v) ==> v.len() <= 64,
    ensures
        reading::<ClientPinRequest>(numbered(4, sent_bytes(value)) + rest, left
            + counting(value), acc) == reading::<
            ClientPinRequest,
        >(rest, left, ClientPinRequestView {
            pin_uv_auth_param: if value is Some { value } else { acc.pin_uv_auth_param },
            ..acc
        }),
{
    let next = ClientPinRequestView {
            pin_uv_auth_param: if value is Some { value } else { acc.pin_uv_auth_param },
            ..acc
        };
    if let Some(v) = value {
        cp_auth(v, acc, rest);
    }
    assert(counting(sent_bytes(value)) == counting(value));
    numbered_step::<ClientPinRequest>(4, sent_bytes(value), left, acc, next, rest);
}

proof fn cp_new_pin(v: Seq<u8>, acc: ClientPinRequestView, rest: Seq<u8>)
    requires
        v.len() <= 96,
    ensures
        ClientPinRequest::entry(int_item(5) + (bytes_item(v) + rest), acc) == Ok::<
            (ClientPinRequestView, Seq<u8>),
            Ctap2Status,
        >(
            (ClientPinRequestView { new_pin_enc: Some(v), ..acc }, rest),
        ),
{
    uint_round_trip(5, 0xff, bytes_item(v) + rest);
    bytes_round_trip(v, rest);
}

proof fn cp_new_pin_step(value: Option<Seq<u8>>, left: nat, acc: ClientPinRequestView,
    rest: Seq<u8>)
    requires
        value matches Some(v) ==> v.len() <= 96,
    ensures
        reading::<ClientPinRequest>(numbered(5, sent_bytes(value)) + rest, left
            + counting(value), acc) == reading::<
            ClientPinRequest,
        >(rest, left, ClientPinRequestView {
            new_pin_enc: if value is Some { value } else { acc.new_pin_enc },
            ..acc
        }),
{
    let next = ClientPinRequestView {
            new_pin_enc: if value is Some { value } else { acc.new_pin_enc },
            ..acc
        };
    if let Some(v) = value {
        cp_new_pin(v, acc, rest);
    }
    assert(counting(sent_bytes(value)) == counting(value));
    numbered_step::<ClientPinRequest>(5, sent_bytes(value), left, acc, next, rest);
}

proof fn cp_pin_hash(v: Seq<u8>, acc: ClientPinRequestView, rest: Seq<u8>)
    requires
        v.len() <= 32,
    ensures
        ClientPinRequest::entry(int_item(6) + (bytes_item(v) + rest), acc) == Ok::<
            (ClientPinRequestView, Seq<u8>),
            Ctap2Status,
        >(
            (ClientPinRequestView { pin_hash_enc: Some(v), ..acc }, rest),
        ),
{
    uint_round_trip(6, 0xff, bytes_item(v) + rest);
    bytes_round_trip(v, rest);
}

proof fn cp_pin_hash_step(value: Option<Seq<u8>>, left: nat, acc: ClientPinRequestView,
    rest: Seq<u8>)
    requires
        value matches Some(v) ==> v.len() <= 32,
    ensures
        reading::<ClientPinRequest>(numbered(6, sent_bytes(value)) + rest, left
            + counting(value), acc) == reading::<
            ClientPinRequest,
        >(rest, left, ClientPinRequestView {
            pin_hash_enc: if value is Some { value } else { acc.pin_hash_enc },
            ..acc
        }),
{
    let next = ClientPinRequestView {
            pin_hash_enc: if value is Some { value } else { acc.pin_hash_enc },
            ..acc
        };
    if let Some(v) = value {
        cp_pin_hash(v, acc, rest);
    }
    assert(counting(sent_bytes(value)) == counting(value));
    numbered_step::<ClientPinRequest>(6, sent_bytes(value), left, acc, next, rest);
}

proof fn cp_others_step(others: Seq<(int, Seq<u8>)>, acc: ClientPinRequestView, rest: Seq<u8>)
    requires
        unknown_numbers(others, set![1int, 2, 3, 4, 5, 6]),
        forall|i: int| 0 <= i < others.len() ==> 0 <= (#[trigger] others[i]).0 <= 255,
    ensures
        reading::<ClientPinRequest>(numbered_others(others) + rest, others.len(), acc) == Ok::<
            (ClientPinRequestView, Seq<u8>),
            Ctap2Status,
        >((acc, rest)),
{
    assert forall|i: int, tail: Seq<u8>| 0 <= i < others.len() implies ClientPinRequest::entry(
        int_item((#[trigger] others[i]).0) + #[trigger] (others[i].1 + tail),
        acc,
    ) == Ok::<(ClientPinRequestView, Seq<u8>), Ctap2Status>((acc, tail)) by {
        unknown_number_reads(others[i].0, others[i].1, tail);
        uint_round_trip(others[i].0 as nat, 0xff, others[i].1 + tail);
    }
    numbered_others_step::<ClientPinRequest>(others, 0, acc, rest);
    reading_ends::<ClientPinRequest>(rest, acc);
}

proof fn cp_entries_regroup(sent: SentClientPin, rest: Seq<u8>)
    ensures
        sent.entries() + rest == numbered(1, sent_number(sent.protocol))
            + (numbered(2, sent_number(sent.sub_command)) + (numbered(3, sent_key(sent.key))
            + (numbered(4, sent_bytes(sent.auth)) + (numbered(5, sent_bytes(sent.new_pin))
            + (numbered(6, sent_bytes(sent.pin_hash)) + (numbered_others(sent.others) + rest)))))),
{
    let e0 = numbered(1, sent_number(sent.protocol));
    let e1 = numbered(2, sent_number(sent.sub_command));
    let e2 = numbered(3, sent_key(sent.key));
    let e3 = numbered(4, sent_bytes(sent.auth));
    let e4 = numbered(5, sent_bytes(sent.new_pin));
    let e5 = numbered(6, sent_bytes(sent.pin_hash));
    let e6 = numbered_others(sent.others);
    regroup(e0, e1 + (e2 + (e3 + (e4 + (e5 + e6)))), rest);
    regroup(e1, e2 + (e3 + (e4 + (e5 + e6))), rest);
    regroup(e2, e3 + (e4 + (e5 + e6)), rest);
    regroup(e3, e4 + (e5 + e6), rest);
    regroup(e4, e5 + e6, rest);
    regroup(e5, e6, rest);
}

proof fn cp_fields_are_read(sent: SentClientPin, rest: Seq<u8>)
    requires
        sent.sendable(),
    ensures
        take_record::<ClientPinRequest>(map_head(sent.count()) + (sent.entries() + rest)) == Ok::<
            (ClientPinRequestView, Seq<u8>),
            Ctap2Status,
        >(
            (sent.fields(), rest),
        ),
{
    let n6 = sent.others.len();
    let n5 = n6 + counting(sent.pin_hash);
    let n4 = n5 + counting(sent.new_pin);
    let n3 = n4 + counting(sent.auth);
    let n2 = n3 + counting(sent.key);
    let n1 = n2 + counting(sent.sub_command);
    let r6 = numbered_others(sent.others) + rest;
    let r5 = numbered(6, sent_bytes(sent.pin_hash)) + r6;
    let r4 = numbered(5, sent_bytes(sent.new_pin)) + r5;
    let r3 = numbered(4, sent_bytes(sent.auth)) + r4;
    let r2 = numbered(3, sent_key(sent.key)) + r3;
    let r1 = numbered(2, sent_number(sent.sub_command)) + r2;
    cp_entries_regroup(sent, rest);
    reading_begins::<ClientPinRequest>(sent.entries() + rest, sent.count());
    let f0 = ClientPinRequest::blank();
    let f1 = ClientPinRequestView { protocol: sent.fields().protocol, ..f0 };
    let f2 = ClientPinRequestView { sub_command: sent.fields().sub_command, ..f1 };
    let f3 = ClientPinRequestView { key_agreement: sent.fields().key_agreement, ..f2 };
    let f4 = ClientPinRequestView { pin_uv_auth_param: sent.fields().pin_uv_auth_param, ..f3 };
    let f5 = ClientPinRequestView { new_pin_enc: sent.fields().new_pin_enc, ..f4 };
    let f6 = ClientPinRequestView { pin_hash_enc: sent.fields().pin_hash_enc, ..f5 };
    cp_protocol_step(sent.protocol, n1, f0, r1);
    cp_sub_command_step(sent.sub_command, n2, f1, r2);
    cp_key_step(sent.key, n3, f2, r3);
    cp_auth_step(sent.auth, n4, f3, r4);
    cp_new_pin_step(sent.new_pin, n5, f4, r5);
    cp_pin_hash_step(sent.pin_hash, n6, f5, r6);
    cp_others_step(sent.others, f6, rest);
}

/// Parsing gives back what the client wrote: whatever subcommand, key, authentication,
/// new PIN and PIN hash are sent under their numbers, the request says exactly those,
/// in the one protocol version that is spoken. Another version is refused.
pub proof fn client_pin_is_understood(sent: SentClientPin, rest: Seq<u8>)
    requires
        sent.sendable(),
    ensures
        sent.protocol is None || sent.protocol == Some(1u8) ==> client_pin_requested(
            map_head(sent.count()) + (sent.entries() + rest),
        ) == Ok::<ClientPinRequestView, Ctap2Status>(sent.fields()),
        sent.protocol matches Some(protocol) ==> protocol != 1 ==> client_pin_requested(
            map_head(sent.count()) + (sent.entries() + rest),
        ) == Err::<ClientPinRequestView, Ctap2Status>(Ctap2Status::InvalidParameter),
{
    cp_fields_are_read(sent, rest);
}

/// A credential management request on the wire: a map with numbers for keys, of
/// which each entry may be left out.
pub struct SentCredentialManagement {
    /// Under 1: the subcommand.
    pub sub_command: Option<u8>,
    /// Under 2: the id of a credential.
    pub id: Option<Seq<u8>>,
    /// Under any other number: whatever is left out.
    pub others: Seq<(int, Seq<u8>)>,
}

impl SentCredentialManagement {
    /// Whether what is sent has the sizes that a request may have.
    pub open spec fn sendable(self) -> bool {
        &&& self.id matches Some(v) ==> v.len() <= 32
        &&& unknown_numbers(self.others, set![1int, 2])
        &&& forall|i: int| 0 <= i < self.others.len() ==> 0 <= (#[trigger] self.others[i]).0 <= 255
    }

    /// The number of entries.
    pub open spec fn count(self) -> nat {
        counting(self.sub_command) + counting(self.id) + self.others.len()
    }

    /// The entries.
    pub open spec fn entries(self) -> Seq<u8> {
        numbered(1, sent_number(self.sub_command)) + (numbered(2, sent_bytes(self.id))
            + (numbered_others(self.others)))
    }

    /// What the request says.
    pub open spec fn fields(self) -> CredentialManagementView {
        CredentialManagementView {
            sub_command: match self.sub_command {
                Some(sub_command) => sub_command,
                None => 0,
            },
            credential_id: self.id,
        }
    }
}

proof fn cm_sub_command(v: u8, acc: CredentialManagementView, rest: Seq<u8>)
    ensures
        CredentialManagementRequest::entry(int_item(1) + (int_item(v as int) + rest), acc) == Ok::<
            (CredentialManagementView, Seq<u8>),
            Ctap2Status,
        >(
            (CredentialManagementView { sub_command: v, ..acc }, rest),
        ),
{
    uint_round_trip(1, 0xff, int_item(v as int) + rest);
    uint_round_trip(v as nat, 0xff, rest);
}

proof fn cm_sub_command_step(value: Option<u8>, left: nat, acc: CredentialManagementView,
    rest: Seq<u8>)
    ensures
        reading::<CredentialManagementRequest>(numbered(1, sent_number(value)) + rest, left
            + counting(value), acc) == reading::<
            CredentialManagementRequest,
        >(rest, left, CredentialManagementView {
            sub_command: if value is Some { value->0 } else { acc.sub_command },
            ..acc
        }),
{
    let next = CredentialManagementView {
            sub_command: if value is Some { value->0 } else { acc.sub_command },
            ..acc
        };
    if let Some(v) = value {
        cm_sub_command(v, acc, rest);
    }
    assert(counting(sent_number(value)) == counting(value));
    numbered_step::<CredentialManagementRequest>(1, sent_number(value), left, acc, next, rest);
}

proof fn cm_id(v: Seq<u8>, acc: CredentialManagementView, rest: Seq<u8>)
    requires
        v.len() <= 32,
    ensures
        CredentialManagementRequest::entry(int_item(2) + (bytes_item(v) + rest), acc) == Ok::<
            (CredentialManagementView, Seq<u8>),
            Ctap2Status,
        >(
            (CredentialManagementView { credential_id: Some(v), ..acc }, rest),
        ),
{
    uint_round_trip(2, 0xff, bytes_item(v) + rest);
    bytes_round_trip(v, rest);
}

proof fn cm_id_step(value: Option<Seq<u8>>, left: nat, acc: CredentialManagementView, rest: Seq<u8>)
    requires
        value matches Some(v) ==> v.len() <= 32,
    ensures
        reading::<CredentialManagementRequest>(numbered(2, sent_bytes(value)) + rest, left
            + counting(value), acc) == reading::<
            CredentialManagementRequest,
        >(rest, left, CredentialManagementView {
            credential_id: if value is Some { value } else { acc.credential_id },
            ..acc
        }),
{
    let next = CredentialManagementView {
            credential_id: if value is Some { value } else { acc.credential_id },
            ..acc
        };
    if let Some(v) = value {
        cm_id(v, acc, rest);
    }
    assert(counting(sent_bytes(value)) == counting(value));
    numbered_step::<CredentialManagementRequest>(2, sent_bytes(value), left, acc, next, rest);
}

proof fn cm_others_step(others: Seq<(int, Seq<u8>)>, acc: CredentialManagementView, rest: Seq<u8>)
    requires
        unknown_numbers(others, set![1int, 2]),
        forall|i: int| 0 <= i < others.len() ==> 0 <= (#[trigger] others[i]).0 <= 255,
    ensures
        reading::<CredentialManagementRequest>(numbered_others(others)
            + rest, others.len(), acc) == Ok::<
            (CredentialManagementView, Seq<u8>),
            Ctap2Status,
        >((acc, rest)),
{
    assert forall|i: int, tail: Seq<u8>| 0 <= i < others.len() implies CredentialManagementRequest::entry(
        int_item((#[trigger] others[i]).0) + #[trigger] (others[i].1 + tail),
        acc,
    ) == Ok::<(CredentialManagementView, Seq<u8>), Ctap2Status>((acc, tail)) by {
        unknown_number_reads(others[i].0, others[i].1, tail);
        uint_round_trip(others[i].0 as nat, 0xff, others[i].1 + tail);
    }
    numbered_others_step::<CredentialManagementRequest>(others, 0, acc, rest);
    reading_ends::<CredentialManagementRequest>(rest, acc);
}

proof fn cm_entries_regroup(sent: SentCredentialManagement, rest: Seq<u8>)
    ensures
        sent.entries() + rest == numbered(1, sent_number(sent.sub_command))
            + (numbered(2, sent_bytes(sent.id)) + (numbered_others(sent.others) + rest)),
{
    let e0 = numbered(1, sent_number(sent.sub_command));
    let e1 = numbered(2, sent_bytes(sent.id));
    let e2 = numbered_others(sent.others);
    regroup(e0, e1 + e2, rest);
    regroup(e1, e2, rest);
}

/// Parsing gives back the subcommand and the credential id that the client wrote.
pub proof fn credential_management_is_understood(sent: SentCredentialManagement, rest: Seq<u8>)
    requires
        sent.sendable(),
    ensures
        take_record::<CredentialManagementRequest>(map_head(sent.count()) + (sent.entries() + rest))
            == Ok::<
            (CredentialManagementView, Seq<u8>),
            Ctap2Status,
        >(
            (sent.fields(), rest),
        ),
{
    let n2 = sent.others.len();
    let n1 = n2 + counting(sent.id);
    let r2 = numbered_others(sent.others) + rest;
    let r1 = numbered(2, sent_bytes(sent.id)) + r2;
    cm_entries_regroup(sent, rest);
    reading_begins::<CredentialManagementRequest>(sent.entries() + rest, sent.count());
    let f0 = CredentialManagementRequest::blank();
    let f1 = CredentialManagementView { sub_command: sent.fields().sub_command, ..f0 };
    let f2 = CredentialManagementView { credential_id: sent.fields().credential_id, ..f1 };
    cm_sub_command_step(sent.sub_command, n1, f0, r1);
    cm_id_step(sent.id, n2, f1, r2);
    cm_others_step(sent.others, f2, rest);
}

/// Every command byte that is known leads to its request, and no other does.
pub proof fn commands_are_dispatched(command: u8, params: Seq<u8>)
    ensures
        command == 0x04 <==> requested(command, params) == Ok::<Ctap2RequestView, Ctap2Status>(
            Ctap2RequestView::GetInfo,
        ),
        command == 0x06 <==> requested(command, params) == Ok::<Ctap2RequestView, Ctap2Status>(
            Ctap2RequestView::ClientPin,
        ),
        command == 0x07 <==> requested(command, params) == Ok::<Ctap2RequestView, Ctap2Status>(
            Ctap2RequestView::Reset,
        ),
        command == 0x08 <==> requested(command, params) == Ok::<Ctap2RequestView, Ctap2Status>(
            Ctap2RequestView::GetNextAssertion,
        ),
        command == 0x0A <==> requested(command, params) == Ok::<Ctap2RequestView, Ctap2Status>(
            Ctap2RequestView::CredentialManagement,
        ),
        command == 0x0B <==> requested(command, params) == Ok::<Ctap2RequestView, Ctap2Status>(
            Ctap2RequestView::Selection,
        ),
        command == 0x0C <==> requested(command, params) == Ok::<Ctap2RequestView, Ctap2Status>(
            Ctap2RequestView::LargeBlobs,
        ),
        command == 0x0D <==> requested(command, params) == Ok::<Ctap2RequestView, Ctap2Status>(
            Ctap2RequestView::Config,
        ),
        !set![0x01u8, 0x02, 0x04, 0x06, 0x07, 0x08, 0x0A, 0x0B, 0x0C, 0x0D].contains(command)
            ==> requested(command, params) == Err::<Ctap2RequestView, Ctap2Status>(
            Ctap2Status::InvalidCommand,
        ),
        requested(command, params) matches Ok(Ctap2RequestView::MakeCredential(_)) ==> command
            == 0x01,
        requested(command, params) matches Ok(Ctap2RequestView::GetAssertion(_))
            ==> command == 0x02,
{
}

/// A string that is longer than its field refuses the request, and so does a hash
/// that is not one.
pub proof fn oversized_fields_are_refused(n: nat, b: Seq<u8>, t: Seq<char>, rest: Seq<u8>)
    requires
        0 < n <= u64::MAX,
        b.len() <= u64::MAX,
        encode_utf8(t).len() <= u64::MAX,
    ensures
        b.len() != 32 ==> requested(
            0x01,
            map_head(n) + (int_item(1) + (bytes_item(b) + rest)),
        ) == Err::<Ctap2RequestView, Ctap2Status>(Ctap2Status::InvalidLength),
        b.len() > 64 ==> requested(
            0x01,
            map_head(n) + (int_item(8) + (bytes_item(b) + rest)),
        ) == Err::<Ctap2RequestView, Ctap2Status>(Ctap2Status::LimitExceeded),
        b.len() != 32 ==> requested(
            0x02,
            map_head(n) + (int_item(2) + (bytes_item(b) + rest)),
        ) == Err::<Ctap2RequestView, Ctap2Status>(Ctap2Status::InvalidLength),
        b.len() > 64 ==> requested(
            0x02,
            map_head(n) + (int_item(6) + (bytes_item(b) + rest)),
        ) == Err::<Ctap2RequestView, Ctap2Status>(Ctap2Status::LimitExceeded),
        encode_utf8(t).len() > 64 ==> requested(
            0x02,
            map_head(n) + (int_item(1) + (text_item(t) + rest)),
        ) == Err::<Ctap2RequestView, Ctap2Status>(Ctap2Status::LimitExceeded),
{
    oversized_make_credential(n, b, rest);
    oversized_get_assertion(n, b, rest);
    map_round_trip(n, int_item(1) + (text_item(t) + rest));
    int_round_trip(1, text_item(t) + rest);
    text_round_trip(t, rest);
}

proof fn oversized_make_credential(n: nat, b: Seq<u8>, rest: Seq<u8>)
    requires
        0 < n <= u64::MAX,
        b.len() <= u64::MAX,
    ensures
        b.len() != 32 ==> requested(
            0x01,
            map_head(n) + (int_item(1) + (bytes_item(b) + rest)),
        ) == Err::<Ctap2RequestView, Ctap2Status>(Ctap2Status::InvalidLength),
        b.len() > 64 ==> requested(
            0x01,
            map_head(n) + (int_item(8) + (bytes_item(b) + rest)),
        ) == Err::<Ctap2RequestView, Ctap2Status>(Ctap2Status::LimitExceeded),
{
    map_round_trip(n, int_item(1) + (bytes_item(b) + rest));
    map_round_trip(n, int_item(8) + (bytes_item(b) + rest));
    int_round_trip(1, bytes_item(b) + rest);
    int_round_trip(8, bytes_item(b) + rest);
    bytes_round_trip(b, rest);
}

proof fn oversized_get_assertion(n: nat, b: Seq<u8>, rest: Seq<u8>)
    requires
        0 < n <= u64::MAX,
        b.len() <= u64::MAX,
    ensures
        b.len() != 32 ==> requested(
            0x02,
            map_head(n) + (int_item(2) + (bytes_item(b) + rest)),
        ) == Err::<Ctap2RequestView, Ctap2Status>(Ctap2Status::InvalidLength),
        b.len() > 64 ==> requested(
            0x02,
            map_head(n) + (int_item(6) + (bytes_item(b) + rest)),
        ) == Err::<Ctap2RequestView, Ctap2Status>(Ctap2Status::LimitExceeded),
{
    map_round_trip(n, int_item(2) + (bytes_item(b) + rest));
    map_round_trip(n, int_item(6) + (bytes_item(b) + rest));
    int_round_trip(2, bytes_item(b) + rest);
    int_round_trip(6, bytes_item(b) + rest);
    bytes_round_trip(b, rest);
}

/// The same of a PIN request: each field has its own bound.
pub proof fn oversized_pin_fields_are_refused(n: nat, b: Seq<u8>, rest: Seq<u8>)
    requires
        0 < n <= u64::MAX,
        b.len() <= u64::MAX,
    ensures
        b.len() > 64 ==> client_pin_requested(map_head(n) + (int_item(4) + (bytes_item(b) + rest)))
            == Err::<ClientPinRequestView, Ctap2Status>(Ctap2Status::LimitExceeded),
        b.len() > 96 ==> client_pin_requested(map_head(n) + (int_item(5) + (bytes_item(b) + rest)))
            == Err::<ClientPinRequestView, Ctap2Status>(Ctap2Status::LimitExceeded),
        b.len() > 32 ==> client_pin_requested(map_head(n) + (int_item(6) + (bytes_item(b) + rest)))
            == Err::<ClientPinRequestView, Ctap2Status>(Ctap2Status::LimitExceeded),
{
    map_round_trip(n, int_item(4) + (bytes_item(b) + rest));
    map_round_trip(n, int_item(5) + (bytes_item(b) + rest));
    map_round_trip(n, int_item(6) + (bytes_item(b) + rest));
    uint_round_trip(4, 0xff, bytes_item(b) + rest);
    uint_round_trip(5, 0xff, bytes_item(b) + rest);
    uint_round_trip(6, 0xff, bytes_item(b) + rest);
    bytes_round_trip(b, rest);
}

} // verus!
