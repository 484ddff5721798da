//! The self test: what it checks, and when it passes.
use vstd::prelude::*;
use crate::capabilities::DeviceCapabilities;
use crate::credential_store::SealedCredentialStore;
use crate::firmware::selftest::{
    applet_exchanges, as_scripted, draws_vary, failures, outcomes, scratch_opened, scratch_view,
    select_command, Exchange, Test,
};
use crate::firmware::vendor_key::sec1_key;
use crate::laws::text::{blank, blanks_around_go, shown_bytes_are_read};
use crate::text::{hex_text, is_white_space};
use crate::traits::Storage;

verus! {

/// Two draws of a generator that is stuck, or that gives nothing but zeros at first, fail;
/// any others pass.
pub proof fn stuck_generators_fail(first: Seq<u8>, second: Seq<u8>, i: int)
    ensures
        first == second ==> !draws_vary(first, second),
        (forall|k: int| 0 <= k < first.len() ==> first[k] == 0) ==> !draws_vary(first, second),
        first != second && 0 <= i < first.len() && first[i] != 0 ==> draws_vary(first, second),
{
}

/// The failures of two lists add up, one check that failed counts one, and one that passed
/// counts none.
pub proof fn failures_add_up(a: Seq<(Test, bool)>, b: Seq<(Test, bool)>)
    ensures
        failures(a + b) == failures(a) + failures(b),
        forall|test: Test| #[trigger] failures(seq![(test, false)]) == 1,
        forall|test: Test| #[trigger] failures(seq![(test, true)]) == 0,
    decreases b.len(),
{
    assert forall|test: Test, passed: bool| #[trigger]
        failures(seq![(test, passed)]) == (if passed { 0nat } else { 1 }) by {
        let one = seq![(test, passed)];
        assert(one.drop_last() =~= Seq::<(Test, bool)>::empty());
        assert(failures(one.drop_last()) == 0);
    }
    if b.len() == 0 {
        assert(a + b =~= a);
    } else {
        failures_add_up(a, b.drop_last());
        assert((a + b).drop_last() =~= a + b.drop_last());
        assert((a + b).last() == b.last());
    }
}

/// A run makes seven checks, and the storage check where storage was tried. It passes if
/// and only if the package is a known one, both HID interfaces are there, the generator is
/// alive, and the applets, and the storage where it was tried, passed.
pub proof fn runs_pass_exactly(
    capabilities: DeviceCapabilities,
    first: Seq<u8>,
    second: Seq<u8>,
    applets: bool,
    storage: Option<bool>,
)
    ensures
        ({
            let run = outcomes(capabilities, first, second, applets, storage);
            &&& run.len() == (if storage is Some { 8int } else { 7 })
            &&& failures(run) == 0 <==> {
                &&& capabilities.gpio_count == 30 || capabilities.gpio_count == 48
                &&& capabilities.usb.fido_hid
                &&& capabilities.usb.management_hid
                &&& draws_vary(first, second)
                &&& applets
                &&& storage != Some(false)
            }
            &&& run[0].0 == Test::Capabilities && run[1].0 == Test::UsbHid && run[2].0 == Test::Trng
            &&& run[3] == (Test::GetInfoEncode, true)
            &&& run[4] == (Test::ManagementDeviceInfo, true)
            &&& run[5] == (Test::BootselRead, true)
            &&& run[6] == (Test::AppletSelect, applets)
            &&& storage matches Some(passed) ==> run[7] == (Test::SealedStorage, passed)
        }),
{
    let run = outcomes(capabilities, first, second, applets, storage);
    let common = outcomes(capabilities, first, second, applets, None);
    seven_checks(common);
    if let Some(passed) = storage {
        assert(run.drop_last() =~= common);
    }
}

proof fn seven_checks(run: Seq<(Test, bool)>)
    requires
        run.len() == 7,
    ensures
        failures(run) == 0 <==> run[0].1 && run[1].1 && run[2].1 && run[3].1 && run[4].1
            && run[5].1 && run[6].1,
{
    reveal_with_fuel(failures, 8);
}

/// An applet is selected by name, with its length before it.
pub proof fn select_commands_are_laid_out(aid: Seq<u8>, i: int)
    requires
        aid.len() <= 16,
        0 <= i < aid.len(),
    ensures
        select_command(aid).len() == 5 + aid.len(),
        select_command(aid).subrange(0, 4) == seq![0x00u8, 0xA4, 0x04, 0x00],
        select_command(aid)[4] == aid.len(),
        select_command(aid)[5 + i] == aid[i],
{
}

/// The applets are selected in turn, an unknown one is refused, and the PIV and OpenPGP
/// applets answer an object while they are selected.
pub proof fn applets_are_asked_in_this_order(piv: Seq<u8>, openpgp: Seq<u8>, oath: Seq<u8>)
    ensures
        ({
            let script = applet_exchanges(piv, openpgp, oath);
            &&& script.len() == 9
            &&& script[0] == (select_command(piv), true)
            &&& script[1] == (select_command(openpgp), true)
            &&& script[2] == (select_command(oath), true)
            &&& script[3] == (select_command(Seq::new(8, |i: int| 0xFFu8)), false)
            &&& script[4] == (select_command(piv), true)
            &&& script[5] == (
                seq![0x00u8, 0xCB, 0x3F, 0xFF, 0x05, 0x5C, 0x03, 0x5F, 0xC1, 0x07],
                true,
            )
            &&& script[6] == (select_command(openpgp), true)
            &&& script[7] == (seq![0x00u8, 0xCA, 0x00, 0xC1, 0x00], true)
            &&& script[8] == (select_command(oath), true)
        }),
{
    let script = applet_exchanges(piv, openpgp, oath);
    assert(Seq::new(8, |i: int| 0xFFu8) =~= seq![
        0xFFu8,
        0xFF,
        0xFF,
        0xFF,
        0xFF,
        0xFF,
        0xFF,
        0xFF,
    ]);
    assert(script[5].0 =~= seq![0x00u8, 0xCB, 0x3F, 0xFF, 0x05, 0x5C, 0x03, 0x5F, 0xC1, 0x07]);
    assert(script[7].0 =~= seq![0x00u8, 0xCA, 0x00, 0xC1, 0x00]);
}

/// A script that went as expected so far goes on so if and only if the next exchange does;
/// one that did not never recovers.
pub proof fn scripts_end_at_the_first_surprise(
    script: Seq<Exchange>,
    outcomes: Seq<bool>,
    next: bool,
)
    requires
        outcomes.len() < script.len(),
    ensures
        as_scripted(script, Seq::empty()),
        as_scripted(script, outcomes.push(next)) <==> (as_scripted(script, outcomes) && next
            == script[outcomes.len() as int].succeeds),
{
    let longer = outcomes.push(next);
    if as_scripted(script, longer) {
        assert(longer[outcomes.len() as int] == next);
        assert forall|i: int| 0 <= i < outcomes.len() implies #[trigger] outcomes[i]
            == script[i].succeeds by {
            assert(longer[i] == outcomes[i]);
        }
    }
}

/// The credential of the storage check, and where the check keeps it.
pub proof fn storage_is_checked_with_this<S: Storage>(store: SealedCredentialStore<S>, storage: S)
    requires
        scratch_opened(store, storage),
    ensures
        scratch_view().id == Seq::new(16, |i: int| 0x42u8),
        scratch_view().rp_id == "self-test.local"@,
        scratch_view().user_id == seq![1u8, 2, 3, 4],
        scratch_view().private_key == Seq::new(32, |i: int| 0x11u8),
        scratch_view().algorithm == -7,
        scratch_view().sign_count == 0,
        scratch_view().discoverable,
        store.layout().base == 0x16_0000,
        store.layout().slot_size == 4096,
        store.key() == Seq::new(32, |i: int| 0x5Au8),
        store.flash() == storage.contents(),
        store.refused() == 0,
{
    assert(scratch_view().id =~= Seq::new(16, |i: int| 0x42u8));
    assert(scratch_view().private_key =~= Seq::new(32, |i: int| 0x11u8));
    assert(store.key() =~= Seq::new(32, |i: int| 0x5Au8));
}

/// A vendor key that is written in hexadecimal, with blanks around it, is the key of the
/// build. A text of another length is none.
pub proof fn written_vendor_key_is_taken(key: Seq<u8>, lead: Seq<char>, trail: Seq<char>)
    requires
        blank(lead),
        blank(trail),
        key.len() > 0,
    ensures
        key.len() == 65 ==> sec1_key(lead + hex_text(key) + trail) == Some(key),
        key.len() != 65 ==> sec1_key(lead + hex_text(key) + trail) is None,
{
    shown_bytes_are_read(key);
    let s = hex_text(key);
    assert(!is_white_space(s[0]) && !is_white_space(s[s.len() - 1]));
    blanks_around_go(lead, s, trail);
}

} // verus!
