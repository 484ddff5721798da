//! Secure firmware update.
//!
//! A firmware package is a fixed header plus the image. The header carries a
//! monotonic rollback counter, a semantic version, the image length and its
//! SHA-256, and an ECDSA (ES256) signature over `SHA-256(header_prefix ||
//! image)`. The image is written to a staging region that is separate from the
//! running image, so an interrupted update never destroys the installed
//! firmware.
//!
//! Production images are additionally sealed for the RP2350 boot ROM
//! (secp256k1 + OTP boot key); that layer is enforced before this code runs.
use vstd::prelude::*;
use crate::bounded::BoundedVec;
use crate::bytes::{array_at, le_u16, le_u32, le_value, overwrite, same_bytes};
use crate::crypto::{
    absorb, absorbed, digest_of, hasher, p256_key_valid, p256_valid_key, p256_verifies, p256_verify,
    sha256, sha256_of,
};
use crate::error::CoreError;
use crate::text::{decimal, push_decimal};
use crate::traits::{erased, reports, same_outside, Edit, Storage};

verus! {

/// Package magic (`AGFU`).
pub const MAGIC: [u8; 4] = [0x41, 0x47, 0x46, 0x55];

/// Supported package format version.
pub const FORMAT_VERSION: u16 = 1;

/// Number of header bytes covered by the signature.
pub const SIGNED_HEADER_LEN: usize = 51;

/// Offset of the signature within the header.
pub const SIGNATURE_OFFSET: usize = 51;

/// Total header length.
pub const HEADER_LEN: usize = 115;

/// Signature length.
pub const SIGNATURE_LEN: usize = 64;

/// Management command code: begin an update with a package header.
pub const CMD_BEGIN: u8 = 0x10;

/// Management command code: append image bytes.
pub const CMD_WRITE: u8 = 0x11;

/// Management command code: finish and verify the staged image.
pub const CMD_FINISH: u8 = 0x12;

/// Management command code: abort and discard the staged image.
pub const CMD_ABORT: u8 = 0x13;

/// Semantic firmware version.
#[derive(Debug, Clone, Copy, PartialEq, Eq, Structural, PartialOrd, Ord)]
pub struct FirmwareVersion {
    /// Major.
    pub major: u8,
    /// Minor.
    pub minor: u8,
    /// Patch.
    pub patch: u8,
}

impl FirmwareVersion {
    /// The version as `major.minor.patch`.
    #[must_use]
    pub fn text(&self) -> (r: String)
        ensures
            r@ == decimal(self.major as nat) + "."@ + decimal(self.minor as nat) + "."@ + decimal(
                self.patch as nat,
            ),
    {
        let mut out: String = String::new();
        push_decimal(&mut out, self.major as usize);
        out.append(".");
        push_decimal(&mut out, self.minor as usize);
        out.append(".");
        push_decimal(&mut out, self.patch as usize);
        assert(out@ =~= decimal(self.major as nat) + "."@ + decimal(self.minor as nat) + "."@
            + decimal(self.patch as nat));
        out
    }
}

/// Parsed package header.
#[derive(Debug, Clone, Copy, PartialEq, Eq)]
pub struct PackageHeader {
    /// Rollback counter; must be monotonic.
    pub rollback: u32,
    /// Image version.
    pub version: FirmwareVersion,
    /// Image length in bytes.
    pub image_len: u32,
    /// SHA-256 of the image.
    pub image_sha256: [u8; 32],
    /// ECDSA signature over `SHA-256(header_prefix || image)`.
    pub signature: [u8; SIGNATURE_LEN],
}

/// What a package header says.
pub struct PackageHeaderView {
    /// Rollback counter.
    pub rollback: u32,
    /// Image version.
    pub version: FirmwareVersion,
    /// Image length in bytes.
    pub image_len: u32,
    /// SHA-256 of the image.
    pub image_sha256: Seq<u8>,
    /// ECDSA signature.
    pub signature: Seq<u8>,
}

impl View for PackageHeader {
    type V = PackageHeaderView;

    open spec fn view(&self) -> PackageHeaderView {
        PackageHeaderView {
            rollback: self.rollback,
            version: self.version,
            image_len: self.image_len,
            image_sha256: self.image_sha256@,
            signature: self.signature@,
        }
    }
}

/// The header at the front of `bytes`: `magic (4) | format (2) | length (2) |
/// rollback (4) | version (3) | image length (4) | digest (32) | signature (64)`,
/// with the known magic, format and length.
pub open spec fn header_of(bytes: Seq<u8>) -> Option<PackageHeaderView> {
    if bytes.len() < HEADER_LEN || bytes.subrange(0, 4) != MAGIC@ || le_value(bytes.subrange(4, 6))
        != FORMAT_VERSION || le_value(bytes.subrange(6, 8)) != HEADER_LEN {
        None
    } else {
        Some(
            PackageHeaderView {
                rollback: le_value(bytes.subrange(8, 12)) as u32,
                version: FirmwareVersion { major: bytes[12], minor: bytes[13], patch: bytes[14] },
                image_len: le_value(bytes.subrange(15, 19)) as u32,
                image_sha256: bytes.subrange(19, 51),
                signature: bytes.subrange(51, 115),
            },
        )
    }
}

impl PackageHeader {
    /// Parse and structurally validate a header.
    pub fn parse(bytes: &[u8]) -> (r: Result<Self, CoreError>)
        ensures
            r matches Ok(header) ==> header_of(bytes@) == Some(header@),
            r matches Err(e) ==> header_of(bytes@) is None && e == CoreError::FirmwareError,
    {
        if bytes.len() < HEADER_LEN {
            return Err(CoreError::FirmwareError);
        }
        if !same_bytes(&bytes[0..4], &MAGIC) {
            return Err(CoreError::FirmwareError);
        }
        let format: u16 = le_u16(bytes, 4);
        if format != FORMAT_VERSION {
            return Err(CoreError::FirmwareError);
        }
        let header_len: u16 = le_u16(bytes, 6);
        if header_len as usize != HEADER_LEN {
            return Err(CoreError::FirmwareError);
        }
        Ok(
            Self {
                rollback: le_u32(bytes, 8),
                version: FirmwareVersion { major: bytes[12], minor: bytes[13], patch: bytes[14] },
                image_len: le_u32(bytes, 15),
                image_sha256: array_at::<32>(bytes, 19),
                signature: array_at::<64>(bytes, SIGNATURE_OFFSET),
            },
        )
    }
}

/// A package that passed verification.
#[derive(Debug, Clone, Copy, PartialEq, Eq, Structural)]
pub struct VerifiedImage {
    /// Image version.
    pub version: FirmwareVersion,
    /// Rollback counter.
    pub rollback: u32,
    /// Image length.
    pub image_len: u32,
}

/// Whether an image is the one that a header describes and the vendor signed, and
/// is not older than the rollback floor.
pub open spec fn image_verifies(
    header: PackageHeaderView,
    signed_prefix: Seq<u8>,
    image: Seq<u8>,
    vendor_key: Seq<u8>,
    min_rollback: u32,
) -> bool {
    &&& sha256_of(image) == header.image_sha256
    &&& header.rollback >= min_rollback
    &&& p256_verifies(vendor_key, sha256_of(signed_prefix + image), header.signature)
}

/// What a header says of a verified image.
pub open spec fn image_facts(header: PackageHeaderView) -> VerifiedImage {
    VerifiedImage {
        version: header.version,
        rollback: header.rollback,
        image_len: header.image_len,
    }
}

/// The verdict on a complete package.
pub open spec fn package_verdict(package: Seq<u8>, vendor_key: Seq<u8>, min_rollback: u32) -> Result<
    VerifiedImage,
    CoreError,
> {
    match header_of(package) {
        None => Err(CoreError::FirmwareError),
        Some(header) => if package.len() < HEADER_LEN + header.image_len {
            Err(CoreError::FirmwareError)
        } else if image_verifies(
            header,
            package.subrange(0, SIGNED_HEADER_LEN as int),
            package.subrange(HEADER_LEN as int, HEADER_LEN + header.image_len),
            vendor_key,
            min_rollback,
        ) {
            Ok(image_facts(header))
        } else {
            Err(CoreError::FirmwareError)
        },
    }
}

/// The verdict on an image with the given digest, and the given digest of the
/// signed bytes.
fn judge(
    header: &PackageHeader,
    image_digest: &[u8; 32],
    prehash: &[u8; 32],
    vendor_key_sec1: &[u8],
    min_rollback: u32,
) -> (r: Result<VerifiedImage, CoreError>)
    ensures
        r == if image_digest@ == header@.image_sha256 && header@.rollback >= min_rollback
            && p256_verifies(vendor_key_sec1@, prehash@, header@.signature) {
            Ok::<VerifiedImage, CoreError>(image_facts(header@))
        } else {
            Err::<VerifiedImage, CoreError>(CoreError::FirmwareError)
        },
{
    if !same_bytes(image_digest, &header.image_sha256) {
        return Err(CoreError::FirmwareError);
    }
    if header.rollback < min_rollback {
        return Err(CoreError::FirmwareError);
    }
    if !p256_verify(vendor_key_sec1, prehash, &header.signature) {
        return Err(CoreError::FirmwareError);
    }
    Ok(
        VerifiedImage {
            version: header.version,
            rollback: header.rollback,
            image_len: header.image_len,
        },
    )
}

/// Verify a complete package against the vendor key and rollback floor.
pub fn verify_package(package: &[u8], vendor_key_sec1: &[u8], min_rollback: u32) -> (r: Result<
    VerifiedImage,
    CoreError,
>)
    ensures
        r == package_verdict(package@, vendor_key_sec1@, min_rollback),
{
    let header: PackageHeader = match PackageHeader::parse(package) {
        Ok(header) => header,
        Err(e) => return Err(e),
    };
    if package.len() - HEADER_LEN < header.image_len as usize {
        return Err(CoreError::FirmwareError);
    }
    let image_len: usize = header.image_len as usize;
    let image: &[u8] = &package[HEADER_LEN..HEADER_LEN + image_len];
    let signed_prefix: &[u8] = &package[0..SIGNED_HEADER_LEN];
    let image_digest: [u8; 32] = sha256(image);
    let mut signed_bytes = hasher();
    absorb(&mut signed_bytes, signed_prefix);
    absorb(&mut signed_bytes, image);
    assert(absorbed(signed_bytes) =~= signed_prefix@ + image@);
    let prehash: [u8; 32] = digest_of(signed_bytes);
    judge(&header, &image_digest, &prehash, vendor_key_sec1, min_rollback)
}

/// The bytes to erase for an image: its length, rounded up to the erase size.
pub open spec fn erase_span(image_len: u32, erase_size: u32) -> int {
    if image_len as int % erase_size as int == 0 {
        image_len as int
    } else {
        (image_len as int / erase_size as int + 1) * erase_size
    }
}

/// Whether a header is acceptable for an update session.
pub open spec fn acceptable(
    header_bytes: Seq<u8>,
    vendor_key: Seq<u8>,
    min_rollback: u32,
    erase_size: u32,
) -> bool {
    &&& vendor_key.len() <= 65
    &&& erase_size != 0
    &&& header_of(header_bytes) matches Some(header) && header.rollback >= min_rollback
    &&& p256_key_valid(vendor_key)
}

/// What beginning a session does. A package that is not acceptable is refused and
/// nothing is touched. For one that is, the whole staging span is erased, and the
/// session expects the image from its first byte on; it fails only where the
/// storage does.
pub open spec fn begun<S: Storage>(
    header_bytes: Seq<u8>,
    vendor_key: Seq<u8>,
    min_rollback: u32,
    base: u32,
    erase_size: u32,
    before: S,
    after: S,
    r: Result<UpdateSession, CoreError>,
) -> bool {
    if acceptable(header_bytes, vendor_key, min_rollback, erase_size) {
        let header = header_of(header_bytes)->0;
        let span = erase_span(header.image_len, erase_size);
        &&& same_outside(before.contents(), after.contents(), base as int, base + span)
        &&& reports(before.faults(), after.faults(), r)
        &&& after.edits() == before.edits().push(Edit::Erase { offset: base as int, len: span })
        &&& r matches Ok(session) ==> {
            &&& erased(after.contents(), base as int, base + span)
            &&& session@ == (UpdateSessionView {
                header,
                signed_prefix: header_bytes.subrange(0, 51),
                vendor_key,
                min_rollback,
                base,
                received: 0,
            })
        }
    } else {
        r == Err::<UpdateSession, CoreError>(CoreError::FirmwareError) && after == before
    }
}

/// A chunked, fail-safe update session writing to a staging region.
pub struct UpdateSession {
    header: PackageHeader,
    signed_prefix: [u8; 51],
    key_sec1: BoundedVec<u8, 65>,
    min_rollback: u32,
    base: u32,
    received: u32,
}

/// The `n` bytes of `s` from `at` on.
pub open spec fn bytes_from(s: Seq<u8>, at: int, n: nat) -> Seq<u8> {
    Seq::new(n, |i: int| s[at + i])
}

/// What an update session knows.
pub struct UpdateSessionView {
    /// The package header.
    pub header: PackageHeaderView,
    /// The header bytes that the signature covers.
    pub signed_prefix: Seq<u8>,
    /// The vendor key.
    pub vendor_key: Seq<u8>,
    /// The rollback floor.
    pub min_rollback: u32,
    /// Where the staging region begins.
    pub base: u32,
    /// How many image bytes were accepted.
    pub received: u32,
}

impl View for UpdateSession {
    type V = UpdateSessionView;

    closed spec fn view(&self) -> UpdateSessionView {
        UpdateSessionView {
            header: self.header@,
            signed_prefix: self.signed_prefix@,
            vendor_key: self.key_sec1@,
            min_rollback: self.min_rollback,
            base: self.base,
            received: self.received,
        }
    }
}

impl UpdateSessionView {
    /// The image as it is staged in `flash`.
    pub open spec fn staged(self, flash: Seq<u8>) -> Seq<u8> {
        bytes_from(flash, self.base as int, self.header.image_len as nat)
    }

    /// Whether the staged image verifies.
    pub open spec fn verifies(self, flash: Seq<u8>) -> bool {
        image_verifies(
            self.header,
            self.signed_prefix,
            self.staged(flash),
            self.vendor_key,
            self.min_rollback,
        )
    }
}

/// What a chunk does to a session and its storage. It is refused where it is longer than
/// what is left of the image; else it is written behind what was received, and counts
/// where the storage took it.
pub open spec fn chunk_written<S: Storage>(
    before: UpdateSessionView,
    after: UpdateSessionView,
    storage: S,
    storage_after: S,
    chunk: Seq<u8>,
    r: Result<(), CoreError>,
) -> bool {
    let at = before.base + before.received;
    let fits = before.received + chunk.len() <= before.header.image_len;
    &&& !fits ==> r == Err::<(), CoreError>(CoreError::FirmwareError) && storage_after == storage
    &&& r is Ok ==> {
        &&& fits
        &&& after == (UpdateSessionView {
            received: (before.received + chunk.len()) as u32,
            ..before
        })
        &&& erased(storage.contents(), at, at + chunk.len()) ==> storage_after.contents()
            == overwrite(storage.contents(), at, chunk)
    }
    &&& r is Err ==> after == before
    &&& fits ==> reports(storage.faults(), storage_after.faults(), r) && storage_after.edits()
        == storage.edits().push(Edit::Write { offset: at, data: chunk })
    &&& same_outside(
        storage.contents(),
        storage_after.contents(),
        before.base as int,
        before.base + before.header.image_len,
    )
}

/// What the end of a session gives, and that it changes nothing: the facts of the header
/// where the whole image was received and verifies, and else an error. It fails only where
/// the storage does, or the image is not the one of the header.
pub open spec fn image_finished<S: Storage>(
    session: UpdateSessionView,
    storage: S,
    storage_after: S,
    r: Result<VerifiedImage, CoreError>,
) -> bool {
    let whole = session.received == session.header.image_len;
    &&& storage_after.contents() == storage.contents()
    &&& storage_after.edits() == storage.edits()
    &&& !whole ==> r == Err::<VerifiedImage, CoreError>(CoreError::FirmwareError) && storage_after
        == storage
    &&& r is Ok ==> storage_after.faults() == storage.faults()
    &&& whole ==> (r matches Err(e) ==> {
        ||| storage_after.faults() == storage.faults().push(e)
        ||| {
            &&& e == CoreError::FirmwareError
            &&& storage_after.faults() == storage.faults()
            &&& !session.verifies(storage.contents())
        }
    })
    &&& r matches Ok(image) ==> whole && session.verifies(storage.contents()) && image
        == image_facts(session.header)
    &&& !session.verifies(storage.contents()) ==> r is Err
}

impl UpdateSession {
    #[verifier::type_invariant]
    spec fn within_staging(self) -> bool {
        self.received <= self.header.image_len
    }

    /// Validate a header and prepare the staging region.
    ///
    /// The staging region is erased now; the caller must feed exactly
    /// `image_len` bytes before [`finish`](Self::finish).
    pub fn begin<S: Storage>(
        header_bytes: &[u8],
        vendor_key_sec1: &[u8],
        min_rollback: u32,
        base: u32,
        erase_size: u32,
        storage: &mut S,
    ) -> (r: Result<Self, CoreError>)
        requires
            acceptable(header_bytes@, vendor_key_sec1@, min_rollback, erase_size) ==> erase_span(
                header_of(header_bytes@)->0.image_len,
                erase_size,
            ) <= u32::MAX,
        ensures
            begun(
                header_bytes@,
                vendor_key_sec1@,
                min_rollback,
                base,
                erase_size,
                *old(storage),
                *final(storage),
                r,
            ),
    {
        if vendor_key_sec1.len() > 65 || erase_size == 0 {
            return Err(CoreError::FirmwareError);
        }
        let header: PackageHeader = match PackageHeader::parse(header_bytes) {
            Ok(header) => header,
            Err(e) => return Err(e),
        };
        if header.rollback < min_rollback {
            return Err(CoreError::FirmwareError);
        }
        // Reject an invalid vendor key up front.

        if !p256_valid_key(vendor_key_sec1) {
            return Err(CoreError::FirmwareError);
        }
        let signed_prefix: [u8; 51] = array_at::<51>(header_bytes, 0);
        let key_sec1: BoundedVec<u8, 65> = match BoundedVec::from_slice(vendor_key_sec1) {
            Ok(key_sec1) => key_sec1,
            Err(()) => return Err(CoreError::FirmwareError),
        };
        let erase_len: u32 = erase_length(header.image_len, erase_size);
        match storage.erase(base, erase_len) {
            Ok(()) => Ok(Self { header, signed_prefix, key_sec1, min_rollback, base, received: 0 }),
            Err(e) => Err(e),
        }
    }

    /// Begin a session as [`begin`](Self::begin) does, unless an acceptable image
    /// takes more erase blocks than 32 bits can address.
    pub fn begin_addressable<S: Storage>(
        header_bytes: &[u8],
        vendor_key_sec1: &[u8],
        min_rollback: u32,
        base: u32,
        erase_size: u32,
        storage: &mut S,
    ) -> (r: Option<Result<Self, CoreError>>)
        ensures
            r is None <==> acceptable(
                header_bytes@,
                vendor_key_sec1@,
                min_rollback,
                erase_size,
            ) && erase_span(header_of(header_bytes@)->0.image_len, erase_size) > u32::MAX,
            match r {
                Some(outcome) => begun(
                    header_bytes@,
                    vendor_key_sec1@,
                    min_rollback,
                    base,
                    erase_size,
                    *old(storage),
                    *final(storage),
                    outcome,
                ),
                None => *final(storage) == *old(storage),
            },
    {
        if vendor_key_sec1.len() <= 65 && erase_size != 0 && p256_valid_key(vendor_key_sec1) {
            if let Ok(header) = PackageHeader::parse(header_bytes) {
                if header.rollback >= min_rollback && !erasable(header.image_len, erase_size) {
                    return None;
                }
            }
        }
        Some(
            Self::begin(
                header_bytes,
                vendor_key_sec1,
                min_rollback,
                base,
                erase_size,
                storage,
            ),
        )
    }

    /// Number of image bytes accepted so far.
    #[must_use]
    pub fn received(&self) -> (r: u32)
        ensures
            r == self@.received,
            r <= self@.header.image_len,
    {
        proof {
            use_type_invariant(self);
        }
        self.received
    }

    /// Expected image length.
    #[must_use]
    pub fn image_len(&self) -> (r: u32)
        ensures
            r == self@.header.image_len,
    {
        self.header.image_len
    }

    /// Append a chunk of image data to the staging region.
    pub fn write<S: Storage>(&mut self, storage: &mut S, chunk: &[u8]) -> (r: Result<(), CoreError>)
        requires
            chunk@.len() <= u32::MAX,
            old(self)@.received + chunk@.len() <= old(self)@.header.image_len ==> old(self)@.base
                + old(self)@.received <= u32::MAX,
        ensures
            chunk_written(old(self)@, final(self)@, *old(storage), *final(storage), chunk@, r),
    {
        proof {
            use_type_invariant(&*self);
        }
        let length: u32 = chunk.len() as u32;
        if length > self.header.image_len - self.received {
            return Err(CoreError::FirmwareError);
        }
        match storage.write(self.base + self.received, chunk) {
            Ok(()) => {
                self.received = self.received + length;
                Ok(())
            },
            Err(e) => Err(e),
        }
    }

    /// Read the staged image back, verifying integrity and signature.
    pub fn finish<S: Storage>(self, storage: &mut S) -> (r: Result<VerifiedImage, CoreError>)
        requires
            self@.received == self@.header.image_len ==> self@.base + self@.header.image_len
                <= 0x1_0000_0000,
        ensures
            image_finished(self@, *old(storage), *final(storage), r),
    {
        proof {
            use_type_invariant(&self);
        }
        if self.received != self.header.image_len {
            return Err(CoreError::FirmwareError);
        }
        let ghost flash = (*storage).contents();
        let mut signature_hasher = hasher();
        absorb(&mut signature_hasher, &self.signed_prefix);
        let mut image_hasher = hasher();
        let mut buffer: [u8; 256] = [0u8; 256];
        let mut offset: u32 = 0;
        proof {
            assert(absorbed(image_hasher) =~= bytes_from(flash, self.base as int, 0));
            assert(absorbed(signature_hasher) =~= self.signed_prefix@ + bytes_from(
                flash,
                self.base as int,
                0,
            ));
        }
        while offset < self.header.image_len
            invariant
                offset <= self.header.image_len,
                self.base + self.header.image_len <= 0x1_0000_0000,
                (*storage).contents() == flash,
                (*storage).edits() == (*old(storage)).edits(),
                (*storage).faults() == (*old(storage)).faults(),
                flash == (*old(storage)).contents(),
                self.received == self.header.image_len,
                absorbed(image_hasher) == bytes_from(flash, self.base as int, offset as nat),
                absorbed(signature_hasher) == self.signed_prefix@ + bytes_from(
                    flash,
                    self.base as int,
                    offset as nat,
                ),
            decreases self.header.image_len - offset,
        {
            let remaining: u32 = self.header.image_len - offset;
            let length: u32 = if remaining < 256 { remaining } else { 256 };
            let (chunk, _unused) = buffer.split_at_mut(length as usize);
            match storage.read(self.base + offset, chunk) {
                Ok(()) => {},
                Err(e) => return Err(e),
            }
            absorb(&mut image_hasher, chunk);
            absorb(&mut signature_hasher, chunk);
            offset = offset + length;
            proof {
                let staged = bytes_from(flash, self.base as int, offset as nat);
                assert(absorbed(image_hasher) =~= staged);
                assert(absorbed(signature_hasher) =~= self.signed_prefix@ + staged);
            }
        }
        let image_digest: [u8; 32] = digest_of(image_hasher);
        let prehash: [u8; 32] = digest_of(signature_hasher);
        judge(
            &self.header,
            &image_digest,
            &prehash,
            self.key_sec1.as_slice(),
            self.min_rollback,
        )
    }
}

/// Whether the erase length of an image can be addressed with 32 bits.
fn erasable(image_len: u32, erase_size: u32) -> (r: bool)
    requires
        erase_size != 0,
    ensures
        r == (erase_span(image_len, erase_size) <= u32::MAX),
{
    if image_len % erase_size == 0 {
        true
    } else {
        let whole: u64 = (image_len / erase_size) as u64;
        proof {
            let n = image_len as int;
            let d = erase_size as int;
            vstd::arithmetic::div_mod::lemma_fundamental_div_mod(n, d);
            assert((whole + 1) * d == whole * d + d) by (nonlinear_arith);
            assert(whole * d == d * (n / d)) by (nonlinear_arith)
                requires
                    whole == n / d,
            ;
            assert((whole + 1) * d == erase_span(image_len, erase_size));
        }
        (whole + 1) * erase_size as u64 <= u32::MAX as u64
    }
}

fn erase_length(image_len: u32, erase_size: u32) -> (r: u32)
    requires
        erase_size != 0,
        erase_span(image_len, erase_size) <= u32::MAX,
    ensures
        r == erase_span(image_len, erase_size),
{
    let whole: u32 = image_len / erase_size;
    if image_len % erase_size == 0 {
        image_len
    } else {
        assert((whole + 1) * erase_size == erase_span(image_len, erase_size));
        assert(whole + 1 <= (whole + 1) * erase_size) by (nonlinear_arith)
            requires
                erase_size >= 1,
        ;
        (whole + 1) * erase_size
    }
}

/// A staged image verifies exactly when the package of its header bytes and
/// itself does.
pub proof fn staging_verifies_what_a_package_does(
    header_bytes: Seq<u8>,
    image: Seq<u8>,
    vendor_key: Seq<u8>,
    min_rollback: u32,
)
    requires
        header_bytes.len() == HEADER_LEN,
        header_of(header_bytes) matches Some(header) && header.image_len == image.len(),
    ensures
        package_verdict(header_bytes + image, vendor_key, min_rollback) is Ok <==> image_verifies(
            header_of(header_bytes)->0,
            header_bytes.subrange(0, 51),
            image,
            vendor_key,
            min_rollback,
        ),
{
    let package = header_bytes + image;
    assert(package.subrange(0, 4) =~= header_bytes.subrange(0, 4));
    assert(package.subrange(4, 6) =~= header_bytes.subrange(4, 6));
    assert(package.subrange(6, 8) =~= header_bytes.subrange(6, 8));
    assert(package.subrange(8, 12) =~= header_bytes.subrange(8, 12));
    assert(package.subrange(15, 19) =~= header_bytes.subrange(15, 19));
    assert(package.subrange(19, 51) =~= header_bytes.subrange(19, 51));
    assert(package.subrange(51, 115) =~= header_bytes.subrange(51, 115));
    assert(package.subrange(0, 51) =~= header_bytes.subrange(0, 51));
    assert(package.subrange(115, package.len() as int) =~= image);
}

/// No accepted package is older than the rollback floor.
pub proof fn accepted_packages_never_roll_back(
    package: Seq<u8>,
    vendor_key: Seq<u8>,
    min_rollback: u32,
)
    ensures
        package_verdict(package, vendor_key, min_rollback) matches Ok(image) ==> image.rollback
            >= min_rollback,
{
}

/// What is not received yet stays erased: a chunk that was written leaves the rest of
/// the erased staging span erased, so the next one can be written behind it.
pub proof fn rest_stays_erased(before: Seq<u8>, after: Seq<u8>, at: int, chunk: Seq<u8>, end: int)
    requires
        0 <= at,
        at + chunk.len() <= end <= before.len(),
        erased(before, at, end),
        after == overwrite(before, at, chunk),
    ensures
        erased(after, at + chunk.len(), end),
{
    assert forall|i: int| at + chunk.len() <= i < end implies #[trigger] after[i] == 0xFF by {
        assert(before[i] == 0xFF);
    }
}

/// Chunks are staged one behind the other: a chunk that was written stands behind
/// what was staged before it.
pub proof fn chunks_are_staged_in_order(
    before: Seq<u8>,
    after: Seq<u8>,
    base: int,
    received: nat,
    chunk: Seq<u8>,
)
    requires
        0 <= base,
        base + received + chunk.len() <= before.len(),
        after == overwrite(before, base + received, chunk),
    ensures
        bytes_from(after, base, received + chunk.len()) == bytes_from(before, base, received)
            + chunk,
{
    assert(bytes_from(after, base, received + chunk.len()) =~= bytes_from(before, base, received)
        + chunk);
}

} // verus!
