//! Firmware updates: which packages are accepted, and how an image is staged.
use vstd::prelude::*;
use crate::bytes::{le_digits, overwrite, values_spelled_out};
use crate::crypto::{p256_key_valid, p256_verifies, sha256_of};
use crate::error::CoreError;
use crate::traits::{erased, Storage};
use crate::update::{
    begun, chunk_written, erase_span, header_of, image_facts, image_finished, package_verdict,
    FirmwareVersion, PackageHeaderView, UpdateSession, UpdateSessionView, VerifiedImage,
};

verus! {

/// A package as a vendor writes it: the magic, the format, the header length, the
/// rollback counter, the version, the image length, the digest of the image and the
/// signature, and then the image.
pub struct SentPackage {
    /// Rollback counter.
    pub rollback: u32,
    /// Version.
    pub version: FirmwareVersion,
    /// Digest of the image.
    pub digest: Seq<u8>,
    /// Signature.
    pub signature: Seq<u8>,
    /// The image.
    pub image: Seq<u8>,
}

impl SentPackage {
    /// Whether the parts have their lengths.
    pub open spec fn whole(self) -> bool {
        &&& self.digest.len() == 32
        &&& self.signature.len() == 64
        &&& self.image.len() <= u32::MAX
    }

    /// The bytes in front of the signature.
    pub open spec fn signed_part(self) -> Seq<u8> {
        seq![0x41u8, 0x47, 0x46, 0x55, 1, 0, 115, 0] + le_digits(self.rollback as nat, 4) + seq![
            self.version.major,
            self.version.minor,
            self.version.patch,
        ] + le_digits(self.image.len(), 4) + self.digest
    }

    /// The header.
    pub open spec fn header(self) -> Seq<u8> {
        self.signed_part() + self.signature
    }

    /// The bytes.
    pub open spec fn bytes(self) -> Seq<u8> {
        self.header() + self.image
    }

    /// What the header says.
    pub open spec fn facts(self) -> PackageHeaderView {
        PackageHeaderView {
            rollback: self.rollback,
            version: self.version,
            image_len: self.image.len() as u32,
            image_sha256: self.digest,
            signature: self.signature,
        }
    }

    /// Whether the vendor made it: the digest is that of the image, and the signature is
    /// one of everything before it and the image.
    pub open spec fn genuine(self, vendor_key: Seq<u8>) -> bool {
        &&& sha256_of(self.image) == self.digest
        &&& p256_verifies(vendor_key, sha256_of(self.signed_part() + self.image), self.signature)
    }
}

proof fn number_is_read(n: nat)
    requires
        n <= u32::MAX,
    ensures
        le_digits(n, 4).len() == 4,
        crate::bytes::le_value(le_digits(n, 4)) == n,
{
    reveal_with_fuel(crate::bytes::pow256, 5);
    crate::bytes::le_digits_round_trip(n, 4);
}

/// A header that a vendor wrote is read for exactly what it says, whatever follows it.
pub proof fn written_header_is_read(sent: SentPackage, rest: Seq<u8>)
    requires
        sent.whole(),
    ensures
        sent.signed_part().len() == 51,
        sent.header().len() == 115,
        header_of(sent.header() + rest) == Some(sent.facts()),
        (sent.header() + rest).subrange(0, 51) == sent.signed_part(),
{
    number_is_read(sent.rollback as nat);
    number_is_read(sent.image.len());
    let bytes = sent.header() + rest;
    assert(crate::update::MAGIC@ =~= seq![0x41u8, 0x47, 0x46, 0x55]);
    assert(bytes.subrange(0, 4) =~= crate::update::MAGIC@);
    assert(bytes.subrange(4, 6) =~= seq![1u8, 0]);
    assert(bytes.subrange(6, 8) =~= seq![115u8, 0]);
    values_spelled_out(bytes.subrange(4, 6));
    values_spelled_out(bytes.subrange(6, 8));
    assert(bytes.subrange(8, 12) =~= le_digits(sent.rollback as nat, 4));
    assert(bytes.subrange(15, 19) =~= le_digits(sent.image.len(), 4));
    assert(bytes.subrange(19, 51) =~= sent.digest);
    assert(bytes.subrange(51, 115) =~= sent.signature);
    assert(bytes.subrange(0, 51) =~= sent.signed_part());
}

/// A genuine package is accepted wherever its rollback counter is at or above the floor,
/// the floor itself included, and for what it says. One that is not genuine, or is below
/// the floor, is refused.
pub proof fn package_is_accepted_exactly(
    sent: SentPackage,
    vendor_key: Seq<u8>,
    min_rollback: u32,
    rest: Seq<u8>,
)
    requires
        sent.whole(),
    ensures
        sent.genuine(vendor_key) && min_rollback <= sent.rollback ==> package_verdict(
            sent.bytes() + rest,
            vendor_key,
            min_rollback,
        ) == Ok::<VerifiedImage, CoreError>(
            VerifiedImage {
                version: sent.version,
                rollback: sent.rollback,
                image_len: sent.image.len() as u32,
            },
        ),
        !sent.genuine(vendor_key) || sent.rollback < min_rollback ==> package_verdict(
            sent.bytes() + rest,
            vendor_key,
            min_rollback,
        ) == Err::<VerifiedImage, CoreError>(CoreError::FirmwareError),
{
    let bytes = sent.bytes() + rest;
    crate::bytes::regroup(sent.header(), sent.image, rest);
    written_header_is_read(sent, sent.image + rest);
    assert(bytes.subrange(115, 115int + sent.image.len()) =~= sent.image);
    assert(bytes.subrange(0, 51) =~= sent.signed_part());
}

/// A package is refused where the magic, the format or the header length is another, or
/// where it is cut short.
pub proof fn malformed_package_is_refused(package: Seq<u8>, vendor_key: Seq<u8>, min_rollback: u32)
    requires
        ({
            ||| package.len() < 115
            ||| package[0] != 0x41 || package[1] != 0x47 || package[2] != 0x46 || package[3] != 0x55
            ||| package[4] != 1 || package[5] != 0
            ||| package[6] != 115 || package[7] != 0
            ||| package.len() - 115 < package[15] + 0x100 * package[16] + 0x10000 * package[17]
                + 0x1000000 * package[18]
        }),
    ensures
        package_verdict(package, vendor_key, min_rollback) == Err::<VerifiedImage, CoreError>(
            CoreError::FirmwareError,
        ),
{
    if package.len() >= 115 {
        values_spelled_out(package.subrange(4, 6));
        values_spelled_out(package.subrange(6, 8));
        values_spelled_out(package.subrange(15, 19));
        let magic = package.subrange(0, 4);
        assert(crate::update::MAGIC@ =~= seq![0x41u8, 0x47, 0x46, 0x55]);
        assert(magic[0] == package[0] && magic[1] == package[1] && magic[2] == package[2]
            && magic[3] == package[3]);
    }
}

/// A session is begun exactly for a header that reads, with a counter at or above the
/// floor, a vendor key that is one, and an erase size.
pub proof fn session_is_begun_exactly<S: Storage>(
    sent: SentPackage,
    vendor_key: Seq<u8>,
    min_rollback: u32,
    base: u32,
    erase_size: u32,
    before: S,
    after: S,
    r: Result<UpdateSession, CoreError>,
)
    requires
        sent.whole(),
        begun(sent.header(), vendor_key, min_rollback, base, erase_size, before, after, r),
    ensures
        ({
            let fit = min_rollback <= sent.rollback && erase_size != 0 && vendor_key.len() <= 65
                && p256_key_valid(vendor_key);
            &&& !fit ==> r == Err::<UpdateSession, CoreError>(CoreError::FirmwareError) && after
                == before
            &&& fit && after.faults() == before.faults() ==> r is Ok
            &&& r matches Ok(session) ==> {
                &&& fit
                &&& session@.header == sent.facts()
                &&& session@.signed_prefix == sent.signed_part()
                &&& session@.vendor_key == vendor_key
                &&& session@.min_rollback == min_rollback
                &&& session@.base == base
                &&& session@.received == 0
                &&& erased(after.contents(), base as int, base + sent.image.len())
            }
        }),
{
    written_header_is_read(sent, Seq::empty());
    assert(sent.header() + Seq::<u8>::empty() =~= sent.header());
    assert(sent.header().subrange(0, 51) =~= sent.signed_part());
    if erase_size != 0 {
        erase_span_covers_the_image(sent.image.len() as u32, erase_size);
    }
    if let Err(e) = r {
        assert(before.faults().push(e).len() == before.faults().len() + 1);
    }
}

/// The erased span is the smallest whole number of erase blocks that holds the image.
pub proof fn erase_span_covers_the_image(image_len: u32, erase_size: u32)
    requires
        erase_size != 0,
    ensures
        erase_span(image_len, erase_size) >= image_len,
        erase_span(image_len, erase_size) < image_len + erase_size,
        erase_span(image_len, erase_size) % erase_size as int == 0,
{
    let n = image_len as int;
    let d = erase_size as int;
    vstd::arithmetic::div_mod::lemma_fundamental_div_mod(n, d);
    vstd::arithmetic::div_mod::lemma_mod_bound(n, d);
    if n % d != 0 {
        let q = n / d;
        assert((q + 1) * d == q * d + d) by (nonlinear_arith);
        assert(d * q == q * d) by (nonlinear_arith);
        vstd::arithmetic::div_mod::lemma_mod_multiples_basic(q + 1, d);
    }
}

/// A session that was begun for a genuine package, and whose staged bytes are its image,
/// verifies; with other bytes it does so only where they are as genuine.
pub proof fn staged_image_verifies_exactly(
    sent: SentPackage,
    vendor_key: Seq<u8>,
    min_rollback: u32,
    session: UpdateSessionView,
    flash: Seq<u8>,
)
    requires
        sent.whole(),
        session.header == sent.facts(),
        session.signed_prefix == sent.signed_part(),
        session.vendor_key == vendor_key,
        session.min_rollback == min_rollback,
        min_rollback <= sent.rollback,
    ensures
        ({
            let staged = Seq::new(sent.image.len(), |i: int| flash[session.base + i]);
            &&& staged == sent.image && sent.genuine(vendor_key) ==> session.verifies(flash)
            &&& session.verifies(flash) <==> sha256_of(staged) == sent.digest && p256_verifies(
                vendor_key,
                sha256_of(sent.signed_part() + staged),
                sent.signature,
            )
        }),
{
    let staged = Seq::new(sent.image.len(), |i: int| flash[session.base + i]);
    assert(session.staged(flash) =~= staged);
}

/// Whether what a session received is the front of an image, and the rest of the staging
/// region is erased.
pub open spec fn front_is_staged(session: UpdateSessionView, flash: Seq<u8>,
    image: Seq<u8>) -> bool {
    &&& session.header.image_len == image.len()
    &&& session.received <= image.len()
    &&& session.base + image.len() <= flash.len()
    &&& forall|i: int|
        0 <= i < session.received ==> #[trigger] flash[session.base + i] == image[i]
    &&& erased(flash, session.base + session.received, session.base + image.len())
}

/// However an image is cut, its chunks are staged behind one another: a chunk that the
/// storage takes makes what was received longer by itself. One that is longer than what is
/// left is refused, and any other fails only with the storage.
pub proof fn chunks_are_staged_in_order<S: Storage>(
    before: UpdateSessionView,
    after: UpdateSessionView,
    storage: S,
    storage_after: S,
    image: Seq<u8>,
    chunk: Seq<u8>,
    r: Result<(), CoreError>,
)
    requires
        chunk_written(before, after, storage, storage_after, chunk, r),
        front_is_staged(before, storage.contents(), image),
        before.received + chunk.len() <= image.len() ==> chunk == image.subrange(
            before.received as int,
            before.received + chunk.len(),
        ),
    ensures
        before.received + chunk.len() > image.len() ==> r == Err::<(), CoreError>(
            CoreError::FirmwareError,
        ) && after == before && storage_after == storage,
        before.received + chunk.len() <= image.len() && storage_after.faults() == storage.faults()
            ==> r is Ok,
        r is Ok ==> {
            &&& after.received == before.received + chunk.len()
            &&& after.header == before.header
            &&& after.signed_prefix == before.signed_prefix
            &&& after.vendor_key == before.vendor_key
            &&& after.min_rollback == before.min_rollback
            &&& after.base == before.base
            &&& front_is_staged(after, storage_after.contents(), image)
        },
        r is Err ==> after == before,
{
    if let Err(e) = r {
        assert(storage.faults().push(e).len() == storage.faults().len() + 1);
    } else {
        let at = before.base + before.received;
        let flash = storage_after.contents();
        assert(erased(storage.contents(), at, at + chunk.len()));
        assert(flash == overwrite(storage.contents(), at, chunk));
        assert forall|i: int| 0 <= i < after.received implies #[trigger] flash[after.base + i]
            == image[i] by {
            if i < before.received {
                assert(storage.contents()[before.base + i] == image[i]);
            } else {
                assert(chunk[i - before.received] == image[i]);
            }
        }
    }
}

/// A session whose whole image is staged ends with the facts of the package, where the
/// package is genuine and its counter is not below the floor, unless the storage fails; a
/// counter at the floor is enough. Where less was received it ends in an error.
pub proof fn staged_package_is_vouched_for<S: Storage>(
    sent: SentPackage,
    vendor_key: Seq<u8>,
    session: UpdateSessionView,
    storage: S,
    storage_after: S,
    r: Result<VerifiedImage, CoreError>,
)
    requires
        sent.whole(),
        sent.genuine(vendor_key),
        session.header == sent.facts(),
        session.signed_prefix == sent.signed_part(),
        session.vendor_key == vendor_key,
        session.min_rollback <= sent.rollback,
        front_is_staged(session, storage.contents(), sent.image),
        image_finished(session, storage, storage_after, r),
    ensures
        session.received < sent.image.len() ==> r == Err::<VerifiedImage, CoreError>(
            CoreError::FirmwareError,
        ),
        session.received == sent.image.len() && storage_after.faults() == storage.faults() ==> r
            == Ok::<VerifiedImage, CoreError>(
            VerifiedImage {
                version: sent.version,
                rollback: sent.rollback,
                image_len: sent.image.len() as u32,
            },
        ),
        storage_after.contents() == storage.contents(),
{
    let flash = storage.contents();
    staged_image_verifies_exactly(sent, vendor_key, session.min_rollback, session, flash);
    if session.received == sent.image.len() {
        assert(Seq::new(sent.image.len(), |i: int| flash[session.base + i]) =~= sent.image);
    }
    if let Err(e) = r {
        assert(storage.faults().push(e).len() == storage.faults().len() + 1);
    }
}

/// The image that a session vouches for is the one of its header.
pub proof fn verified_image_is_that_of_the_header(sent: SentPackage)
    ensures
        image_facts(sent.facts()) == (VerifiedImage {
            version: sent.version,
            rollback: sent.rollback,
            image_len: sent.image.len() as u32,
        }),
{
}

} // verus!
