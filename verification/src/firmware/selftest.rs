//! On-target self-test.
//!
//! A set of non-destructive checks at boot, and a check of the sealed storage in
//! a scratch region. Applet checks only exercise routing and default data
//! objects, never key generation.
use vstd::prelude::*;
use vstd::utf8::encode_utf8;
use crate::bounded::{BoundedVec, FixedString};
use crate::bytes::{byte_array, repeated};
use crate::capabilities::DeviceCapabilities;
use crate::codec::encode_into;
use crate::configuration::DeviceConfig;
use crate::credential::{inserted, place_of, Credential, CredentialStore, CredentialView};
use crate::credential_store::{
    found, read_failed, sealed_record_is_readable, DatabaseView, SealedCredentialStore,
};
use crate::ctap2::{get_info_fits, GetInfoResponse, COSE_ALG_ES256};
use crate::error::CoreError;
use crate::identity::{BoardIdentity, MAX_BOARD_IDENTITY_LEN};
use crate::lifecycle::LifecycleState;
use crate::management_protocol::{ManagementCommand, ManagementService};
use crate::reports::{device_info_fits, DeviceInfoView};
use crate::secret::KEY_LEN;
use crate::storage::{exhausted, SlotLayout};
use crate::traits::Storage;

verus! {

/// A self-test check.
#[derive(Debug, Clone, Copy, PartialEq, Eq, Structural)]
pub enum Test {
    /// The pin count is one of the known packages.
    Capabilities,
    /// Both HID interfaces are there.
    UsbHid,
    /// The random number generator varies.
    Trng,
    /// The authenticator information encodes.
    GetInfoEncode,
    /// The management service answers.
    ManagementDeviceInfo,
    /// The BOOTSEL button can be read.
    BootselRead,
    /// The applets can be selected.
    AppletSelect,
    /// The sealed storage works.
    SealedStorage,
}

impl Test {
    /// The name of each check.
    pub open spec fn spec_name(self) -> Seq<char> {
        match self {
            Test::Capabilities => "capabilities"@,
            Test::UsbHid => "usb-hid"@,
            Test::Trng => "trng"@,
            Test::GetInfoEncode => "ctap2-getinfo-encode"@,
            Test::ManagementDeviceInfo => "management-device-info"@,
            Test::BootselRead => "bootsel-read"@,
            Test::AppletSelect => "applet-select"@,
            Test::SealedStorage => "sealed-storage"@,
        }
    }

    /// Name of this check.
    #[must_use]
    pub fn name(self) -> (r: &'static str)
        ensures
            r@ == self.spec_name(),
    {
        match self {
            Test::Capabilities => "capabilities",
            Test::UsbHid => "usb-hid",
            Test::Trng => "trng",
            Test::GetInfoEncode => "ctap2-getinfo-encode",
            Test::ManagementDeviceInfo => "management-device-info",
            Test::BootselRead => "bootsel-read",
            Test::AppletSelect => "applet-select",
            Test::SealedStorage => "sealed-storage",
        }
    }
}

/// Whether two draws of the random number generator look alive: they differ, and
/// the first is not all zero.
pub open spec fn draws_vary(first: Seq<u8>, second: Seq<u8>) -> bool {
    first != second && exists|i: int| 0 <= i < first.len() && first[i] != 0
}

/// The outcomes of a run. The information and management checks always pass.
pub open spec fn outcomes(
    capabilities: DeviceCapabilities,
    first: Seq<u8>,
    second: Seq<u8>,
    applets: bool,
    storage: Option<bool>,
) -> Seq<(Test, bool)> {
    let common = seq![
        (Test::Capabilities, capabilities.gpio_count == 30 || capabilities.gpio_count == 48),
        (Test::UsbHid, capabilities.usb.fido_hid && capabilities.usb.management_hid),
        (Test::Trng, draws_vary(first, second)),
        (Test::GetInfoEncode, true),
        (Test::ManagementDeviceInfo, true),
        (Test::BootselRead, true),
        (Test::AppletSelect, applets),
    ];
    match storage {
        Some(passed) => common.push((Test::SealedStorage, passed)),
        None => common,
    }
}

/// How many checks of a list failed.
pub open spec fn failures(outcomes: Seq<(Test, bool)>) -> nat
    decreases outcomes.len(),
{
    if outcomes.len() == 0 {
        0
    } else {
        failures(outcomes.drop_last()) + if outcomes.last().1 {
            0nat
        } else {
            1nat
        }
    }
}

fn trng_alive(first: &[u8; 32], second: &[u8; 32]) -> (r: bool)
    ensures
        r == draws_vary(first@, second@),
{
    let differ: bool = !crate::bytes::same_bytes(first, second);
    let mut nonzero: bool = false;
    let mut i: usize = 0;
    while i < 32
        invariant
            i <= 32,
            nonzero == exists|j: int| 0 <= j < i && first@[j] != 0,
        decreases 32 - i,
    {
        if first[i] != 0 {
            nonzero = true;
        }
        i += 1;
    }
    differ && nonzero
}

/// Run all self-test checks: on two draws of the random number generator, on the
/// outcome of the applet checks, and on that of the storage check where it was
/// made.
pub fn run(
    capabilities: DeviceCapabilities,
    identity: BoardIdentity,
    first: &[u8; 32],
    second: &[u8; 32],
    applets: bool,
    storage: Option<bool>,
) -> (r: Vec<(Test, bool)>)
    requires
        encode_utf8(identity.product@).len() <= MAX_BOARD_IDENTITY_LEN,
        encode_utf8(identity.manufacturer@).len() <= MAX_BOARD_IDENTITY_LEN,
    ensures
        r@ == outcomes(capabilities, first@, second@, applets, storage),
{
    let mut results: Vec<(Test, bool)> = Vec::new();
    results.push(
        (Test::Capabilities, capabilities.gpio_count == 30 || capabilities.gpio_count == 48),
    );
    results.push((Test::UsbHid, capabilities.usb.fido_hid && capabilities.usb.management_hid));
    results.push((Test::Trng, trng_alive(first, second)));
    let info = GetInfoResponse::default();
    proof {
        get_info_fits(info);
    }
    let mut buffer: [u8; 256] = [0u8;256];
    let encoded: bool = encode_into(&info, &mut buffer).is_ok();
    results.push((Test::GetInfoEncode, encoded));
    let mut service = ManagementService::new(
        capabilities,
        identity,
        DeviceConfig::for_board(identity, &capabilities),
        LifecycleState::Factory,
    );
    proof {
        device_info_fits(DeviceInfoView::of(identity, capabilities));
    }
    let response = service.handle(ManagementCommand::GetDeviceInfo, &[]);
    let answered: bool = response.status.is_ok() && !response.payload.is_empty();
    results.push((Test::ManagementDeviceInfo, answered));
    results.push((Test::BootselRead, true));
    results.push((Test::AppletSelect, applets));
    if let Some(passed) = storage {
        results.push((Test::SealedStorage, passed));
    }
    assert(results@ =~= outcomes(capabilities, first@, second@, applets, storage));
    results
}

/// The number of failed checks.
#[must_use]
pub fn failure_count(results: &[(Test, bool)]) -> (r: usize)
    ensures
        r == failures(results@),
{
    let mut count: usize = 0;
    let mut i: usize = 0;
    while i < results.len()
        invariant
            i <= results@.len(),
            count <= i,
            count == failures(results@.subrange(0, i as int)),
        decreases results@.len() - i,
    {
        assert(results@.subrange(0, i + 1).drop_last() =~= results@.subrange(0, i as int));
        if !results[i].1 {
            count += 1;
        }
        i += 1;
    }
    assert(results@.subrange(0, i as int) =~= results@);
    count
}

/// One exchange with the applets: a command, and whether it has to succeed.
#[derive(Debug)]
pub struct Exchange {
    /// The command bytes.
    pub command: Vec<u8>,
    /// Whether success is expected.
    pub succeeds: bool,
}

/// What an exchange is.
pub open spec fn exchange_of(exchange: Exchange) -> (Seq<u8>, bool) {
    (exchange.command@, exchange.succeeds)
}

/// The command that selects an applet.
pub open spec fn select_command(aid: Seq<u8>) -> Seq<u8> {
    seq![0x00u8, 0xA4, 0x04, 0x00, aid.len() as u8] + aid
}

/// Reads the default CCC of the PIV applet.
pub const PIV_READ_CCC: [u8; 10] = [0x00, 0xCB, 0x3F, 0xFF, 0x05, 0x5C, 0x03, 0x5F, 0xC1, 0x07];

/// Reads the default algorithm attributes of the OpenPGP applet.
pub const OPENPGP_READ_ATTRIBUTES: [u8; 5] = [0x00, 0xCA, 0x00, 0xC1, 0x00];

/// The applet exchanges, in order: each applet selects, an unknown one does not,
/// and two applets answer a default object without authentication.
pub open spec fn applet_exchanges(piv: Seq<u8>, openpgp: Seq<u8>, oath: Seq<u8>) -> Seq<
    (Seq<u8>, bool),
> {
    seq![
        (select_command(piv), true),
        (select_command(openpgp), true),
        (select_command(oath), true),
        (select_command(seq![0xFFu8, 0xFF, 0xFF, 0xFF, 0xFF, 0xFF, 0xFF, 0xFF]), false),
        (select_command(piv), true),
        (PIV_READ_CCC@, true),
        (select_command(openpgp), true),
        (OPENPGP_READ_ATTRIBUTES@, true),
        (select_command(oath), true),
    ]
}

fn select(aid: &[u8], succeeds: bool) -> (r: Exchange)
    requires
        aid@.len() <= 16,
    ensures
        exchange_of(r) == (select_command(aid@), succeeds),
{
    let mut command: Vec<u8> = vec![0x00u8, 0xA4, 0x04, 0x00, aid.len() as u8];
    let ghost head = command@;
    crate::bytes::append(&mut command, aid);
    assert(head =~= seq![0x00u8, 0xA4, 0x04, 0x00, aid@.len() as u8]);
    Exchange { command, succeeds }
}

fn command(bytes: &[u8]) -> (r: Exchange)
    ensures
        exchange_of(r) == (bytes@, true),
{
    Exchange { command: vstd::slice::slice_to_vec(bytes), succeeds: true }
}

/// The exchanges that check the applets with these identifiers. An identifier
/// that is too long to select fails the check.
#[must_use]
pub fn applet_script(piv: &[u8], openpgp: &[u8], oath: &[u8]) -> (r: Option<Vec<Exchange>>)
    ensures
        r is Some <==> piv@.len() <= 16 && openpgp@.len() <= 16 && oath@.len() <= 16,
        r matches Some(script) ==> script@.map_values(|e: Exchange| exchange_of(e))
            == applet_exchanges(piv@, openpgp@, oath@),
{
    if piv.len() > 16 || openpgp.len() > 16 || oath.len() > 16 {
        return None;
    }
    let unknown: [u8; 8] = [0xFF, 0xFF, 0xFF, 0xFF, 0xFF, 0xFF, 0xFF, 0xFF];
    assert(unknown@ =~= seq![0xFFu8, 0xFF, 0xFF, 0xFF, 0xFF, 0xFF, 0xFF, 0xFF]);
    let mut script: Vec<Exchange> = Vec::new();
    script.push(select(piv, true));
    script.push(select(openpgp, true));
    script.push(select(oath, true));
    script.push(select(&unknown, false));
    script.push(select(piv, true));
    script.push(command(&PIV_READ_CCC));
    script.push(select(openpgp, true));
    script.push(command(&OPENPGP_READ_ATTRIBUTES));
    script.push(select(oath, true));
    assert(script@.map_values(|e: Exchange| exchange_of(e)) =~= applet_exchanges(
        piv@,
        openpgp@,
        oath@,
    ));
    Some(script)
}

/// Whether every exchange so far went as the script expects.
pub open spec fn as_scripted(script: Seq<Exchange>, outcomes: Seq<bool>) -> bool {
    &&& outcomes.len() <= script.len()
    &&& forall|i: int|
        0 <= i < outcomes.len() ==> #[trigger] outcomes[i] == script[i].succeeds
}

/// What to do next with a script.
#[derive(Debug, Clone, Copy, PartialEq, Eq, Structural)]
pub enum ScriptStep {
    /// Run the exchange with this index.
    Run(usize),
    /// The check is over, and passed or not.
    Done(bool),
}

/// Whether the applets pass, given which exchanges of the script succeeded: all of
/// them were made and went as expected.
#[must_use]
pub fn applets_pass(script: &[Exchange], outcomes: &[bool]) -> (r: bool)
    ensures
        r == (outcomes@.len() == script@.len() && as_scripted(script@, outcomes@)),
{
    matches!(applet_step(script, outcomes), ScriptStep::Done(true))
}

/// What to do next, given which exchanges so far succeeded. The first that does not
/// go as expected ends the check.
#[must_use]
pub fn applet_step(script: &[Exchange], outcomes: &[bool]) -> (r: ScriptStep)
    ensures
        r == if !as_scripted(script@, outcomes@) {
            ScriptStep::Done(false)
        } else if outcomes@.len() == script@.len() {
            ScriptStep::Done(true)
        } else {
            ScriptStep::Run(outcomes@.len() as usize)
        },
{
    if outcomes.len() > script.len() {
        return ScriptStep::Done(false);
    }
    let mut i: usize = 0;
    while i < outcomes.len()
        invariant
            i <= outcomes@.len() <= script@.len(),
            forall|j: int| 0 <= j < i ==> #[trigger] outcomes@[j] == script@[j].succeeds,
        decreases outcomes@.len() - i,
    {
        if outcomes[i] != script[i].succeeds {
            return ScriptStep::Done(false);
        }
        i += 1;
    }
    if outcomes.len() == script.len() {
        ScriptStep::Done(true)
    } else {
        ScriptStep::Run(outcomes.len())
    }
}

/// Start of the scratch region in flash.
pub const SCRATCH_BASE: u32 = 0x0016_0000;

/// Size of a scratch slot.
pub const SLOT_SIZE: u32 = 4096;

/// The credential that the storage check inserts.
pub open spec fn scratch_view() -> CredentialView {
    CredentialView {
        id: repeated(0x42, 16),
        rp_id: "self-test.local"@,
        user_id: seq![0x01u8, 0x02, 0x03, 0x04],
        private_key: repeated(0x11, 32),
        algorithm: COSE_ALG_ES256,
        sign_count: 0,
        discoverable: true,
    }
}

fn scratch_credential() -> (r: Credential)
    ensures
        r@ == scratch_view(),
{
    proof {
        reveal_strlit("self-test.local");
        vstd::utf8::is_ascii_chars_encode_utf8("self-test.local"@);
    }
    let id_bytes: [u8; 16] = byte_array(0x42);
    let id = BoundedVec::<u8, 32>::from_slice(&id_bytes);
    let user_bytes: [u8; 4] = [0x01, 0x02, 0x03, 0x04];
    assert(user_bytes@ =~= seq![0x01u8, 0x02, 0x03, 0x04]);
    let user_id = BoundedVec::<u8, 64>::from_slice(&user_bytes);
    let rp_id = FixedString::<64>::new("self-test.local");
    Credential {
        id: id.unwrap(),
        rp_id: rp_id.unwrap(),
        user_id: user_id.unwrap(),
        private_key: byte_array(0x11),
        algorithm: COSE_ALG_ES256,
        sign_count: 0,
        discoverable: true,
    }
}

/// What a run of the storage check does to a store: it is reset, the scratch
/// credential is inserted, and it is reset again. The first write that fails ends
/// the run and fails the check.
pub open spec fn scratch_run<S: Storage>(
    before: SealedCredentialStore<S>,
    after: SealedCredentialStore<S>,
    passed: bool,
) -> bool {
    exists|
        blank: SealedCredentialStore<S>,
        filled: SealedCredentialStore<S>,
        first: Result<(), CoreError>,
        second: Result<(), CoreError>,
        third: Result<(), CoreError>,
    |
        #[trigger] scratch_steps(before, blank, filled, after, first, second, third) && passed == (
        first is Ok && second is Ok)
}

/// The steps of a run, each with the outcome of its write.
pub open spec fn scratch_steps<S: Storage>(
    before: SealedCredentialStore<S>,
    blank: SealedCredentialStore<S>,
    filled: SealedCredentialStore<S>,
    after: SealedCredentialStore<S>,
    first: Result<(), CoreError>,
    second: Result<(), CoreError>,
    third: Result<(), CoreError>,
) -> bool {
    &&& SealedCredentialStore::rewritten(before, blank, cleared(before.database()), first)
    &&& first is Err ==> after == blank
    &&& first is Ok ==> {
        &&& SealedCredentialStore::rewritten(
            blank,
            filled,
            blank.database().with_credentials(seq![scratch_view()]),
            second,
        )
        &&& second is Err ==> after == filled
        &&& second is Ok ==> SealedCredentialStore::rewritten(
            filled,
            after,
            cleared(filled.database()),
            third,
        )
    }
}

/// A database with nothing in it but the write counter.
pub open spec fn cleared(db: DatabaseView) -> DatabaseView {
    DatabaseView { counter: db.counter, ..DatabaseView::empty() }
}

/// Check a scratch store: reset it, insert a credential, count it, and reset it
/// again.
pub fn check_store<S: Storage>(store: &mut SealedCredentialStore<S>) -> (r: bool)
    ensures
        scratch_run(*old(store), *final(store), r),
{
    let ghost before = *store;
    let first: Result<(), CoreError> = store.reset();
    let ghost blank = *store;
    if first.is_err() {
        assert(scratch_steps(before, blank, blank, blank, first, first, first));
        return false;
    }
    let second: Result<(), CoreError> = store.insert(scratch_credential());
    let ghost filled = *store;
    proof {
        let none = Seq::<CredentialView>::empty();
        assert(blank.database().credentials =~= none);
        assert(place_of(none, scratch_view().id) is None);
        assert(inserted(none, scratch_view()) =~= seq![scratch_view()]);
    }
    if second.is_err() {
        assert(scratch_steps(before, blank, filled, filled, first, second, second));
        return false;
    }
    if store.count() != 1 {
        return false;
    }
    let third: Result<(), CoreError> = store.reset();
    assert(scratch_steps(before, blank, filled, *store, first, second, third));
    true
}

/// A check that passed leaves nothing in the store, whatever it held before, and
/// neither moves it nor changes its key.
pub proof fn scratch_run_leaves_nothing<S: Storage>(
    before: SealedCredentialStore<S>,
    after: SealedCredentialStore<S>,
)
    requires
        scratch_run(before, after, true),
    ensures
        after.database().credentials.len() == 0,
        after.database().pin_hash is None,
        after.layout() == before.layout(),
        after.key() == before.key(),
{
}

/// A check fails only where a write did: the storage has then reported an error, or
/// the slots have run out of sequence numbers, or the write counter is used up.
pub proof fn failed_scratch_run_is_a_storage_fault<S: Storage>(
    before: SealedCredentialStore<S>,
    after: SealedCredentialStore<S>,
)
    requires
        scratch_run(before, after, false),
    ensures
        after.refused() == before.refused() + 1,
        after.database().spent() || exhausted(after.flash(), after.layout()) || exists|
            e: CoreError,
        |
            after.faults() == #[trigger] before.faults().push(e),
{
    let (blank, filled, first, second, third) = choose|
        blank: SealedCredentialStore<S>,
        filled: SealedCredentialStore<S>,
        first: Result<(), CoreError>,
        second: Result<(), CoreError>,
        third: Result<(), CoreError>,
    |
        #[trigger] scratch_steps(before, blank, filled, after, first, second, third) && false == (
        first is Ok && second is Ok);
    let erased = cleared(before.database());
    if !erased.spent() {
        sealed_record_is_readable(before.key(), erased.advanced(), 0);
        if let Err(e) = first {
            assert(after.faults() == before.faults().push(e) || exhausted(
                after.flash(),
                after.layout(),
            ));
        } else if let Err(e) = second {
            let stocked = blank.database().with_credentials(seq![scratch_view()]);
            if !stocked.spent() {
                sealed_record_is_readable(before.key(), stocked.advanced(), 0);
                assert(after.faults() == before.faults().push(e) || exhausted(
                    after.flash(),
                    after.layout(),
                ));
            }
        }
    }
}

/// Whether `store` is what opening the scratch region of `storage` gives.
pub open spec fn scratch_opened<S: Storage>(store: SealedCredentialStore<S>, storage: S) -> bool {
    let layout = SlotLayout { base: SCRATCH_BASE, slot_size: SLOT_SIZE };
    let key = repeated(0x5A, KEY_LEN as nat);
    &&& store.flash() == storage.contents()
    &&& store.faults() == storage.faults()
    &&& store.edits() == storage.edits()
    &&& store.refused() == 0
    &&& store.layout() == layout
    &&& store.key() == key
    &&& found(storage.contents(), layout, key) == Ok::<DatabaseView, CoreError>(store.database())
}

/// Whether the scratch region does not open: its records are refused, or the
/// storage could not be read.
pub open spec fn scratch_refused<S: Storage>(storage: S) -> bool {
    let layout = SlotLayout { base: SCRATCH_BASE, slot_size: SLOT_SIZE };
    let key = repeated(0x5A, KEY_LEN as nat);
    ||| found(storage.contents(), layout, key) is Err
    ||| exists|e: CoreError| read_failed(storage, e)
}

/// Check the sealed storage in the scratch region. Records there that do not open
/// under the scratch key fail the check, and so does a storage that fails; a store
/// that opens is checked as [`check_store`] does.
pub fn storage_check<S: Storage>(storage: S) -> (r: bool)
    ensures
        ({
            ||| !r && scratch_refused(storage)
            ||| exists|opened: SealedCredentialStore<S>, after: SealedCredentialStore<S>|
                scratch_opened(opened, storage) && #[trigger] scratch_run(opened, after, r)
        }),
{
    let key: [u8; KEY_LEN] = byte_array(0x5A);
    match SealedCredentialStore::open(storage, SCRATCH_BASE, SLOT_SIZE, &key) {
        Ok(mut store) => {
            let ghost opened = store;
            let passed: bool = check_store(&mut store);
            assert(scratch_opened(opened, storage) && scratch_run(opened, store, passed));
            passed
        },
        Err(_) => false,
    }
}

} // verus!
