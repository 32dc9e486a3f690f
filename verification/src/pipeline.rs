use vstd::prelude::*;
use vstd::string::*;
use std::path::Path;
use crate::archive::entry_views;
use crate::archive::packed;
use crate::archive::packs;
use crate::archive::short_form;
use crate::archive::writes;
use crate::archive::unpacked;
use crate::archive::EntryView;
use crate::archive::unpack;
use crate::archive::PackedEntry;
use crate::builder::build;
use crate::builder::expanded;
use crate::builder::has_invalid;
use crate::builder::target_views;
use crate::builder::Target;
use crate::cipher::is_sealing_of;
use crate::cipher::max_plaintext_len;
use crate::keys::modulus_len;
use crate::cipher::open;
use crate::cipher::opened;
use crate::cipher::opened_with_key;
use crate::keys::rsa_unwrapped;
use crate::cipher::same_outcome;
use crate::cipher::seal;
use crate::cipher::MIN_MODULUS_LEN;
use crate::container::decoding;
use crate::container::lemma_decoding_inverts_encoding;
use crate::container::Container;
use crate::error::ErrorKind;
use crate::keys::is_private_key_pem;
use crate::keys::is_public_key_pem;
use crate::keys::PrivateKey;
use crate::keys::PublicKey;

verus! {

/// The suffix that every container file carries, without the dot.
pub const EXTENSION: &'static str = "acrp";

/// The extension of a path: what follows the last dot of its final
/// component, where there is one.
pub uninterp spec fn extension_of(path: Seq<char>) -> Option<Seq<char>>;

/// Calls `Path::extension` and copies the result into a string. The
/// extension depends on the path alone.
#[verifier::external_body]
fn path_extension(path: &str) -> (extension: Option<String>)
    ensures
        match extension {
            Some(text) => extension_of(path@) == Some(text@),
            None => extension_of(path@) is None,
        },
{
    Path::new(path).extension().map(|text| text.to_string_lossy().into_owned())
}

/// Whether an extension is the registered suffix, letter for letter.
pub open spec fn is_registered(extension: Option<Seq<char>>) -> bool {
    extension == Some(EXTENSION@)
}

/// Tells whether `extension` is the registered suffix. The comparison is
/// exact: case matters, and a missing extension never matches.
pub fn is_registered_extension(extension: &Option<String>) -> (answer: bool)
    ensures
        answer == is_registered(
            match *extension {
                Some(text) => Some(text@),
                None => None,
            },
        ),
{
    match extension {
        Some(text) => {
            let registered = String::from_str(EXTENSION);
            *text == registered
        },
        None => false,
    }
}

/// Tells whether `check_path` carries the registered suffix.
pub fn validate_extension(check_path: &str) -> (answer: bool)
    ensures
        answer == is_registered(extension_of(check_path@)),
{
    let extension = path_extension(check_path);
    is_registered_extension(&extension)
}

/// Why encrypting a raw archive of the given length for the key read from
/// `pem` fails, if it does: the key is tested first, then the length of the
/// archive, then the size of the key's modulus.
pub open spec fn encryption_error(archive_len: nat, pem: Seq<char>) -> Option<ErrorKind> {
    if !is_public_key_pem(pem) {
        Some(ErrorKind::KeyParseError)
    } else if archive_len > max_plaintext_len() {
        Some(ErrorKind::ArchiveTooLarge)
    } else if modulus_len(pem) < MIN_MODULUS_LEN {
        Some(ErrorKind::KeyTooSmall)
    } else {
        None
    }
}

/// Whether `bytes` is the wire layout of a sealing of `archive` for the
/// public key read from `pem`.
pub open spec fn is_container_of(bytes: Seq<u8>, archive: Seq<u8>, pem: Seq<char>) -> bool {
    decoding(bytes) matches Some(container) && is_sealing_of(container, archive, pem)
}

/// What decrypting `bytes` with the private key read from `pem` returns:
/// the key is read first, then the container is decoded, then opened.
pub open spec fn decrypted(pem: Seq<char>, bytes: Seq<u8>) -> Result<Seq<u8>, ErrorKind> {
    if !is_private_key_pem(pem) {
        Err(ErrorKind::KeyParseError)
    } else {
        match decoding(bytes) {
            Some(container) => opened(pem, container),
            None => Err(ErrorKind::MalformedContainer),
        }
    }
}

/// Encrypts a raw archive for the recipient whose public key is given as
/// PEM text, and returns the container's wire layout.
///
/// It fails exactly as [`encryption_error`] says. On success the bytes
/// decode to a sealing of the archive for that key.
pub fn encrypt_with_public_key(zip_data: &[u8], public_key_pem: &str) -> (result: Result<
    Vec<u8>,
    ErrorKind,
>)
    ensures
        match encryption_error(zip_data@.len(), public_key_pem@) {
            Some(error) => result matches Err(e) && e == error,
            None => result matches Ok(bytes) && is_container_of(
                bytes@,
                zip_data@,
                public_key_pem@,
            ),
        },
{
    let public_key = match PublicKey::from_pem(public_key_pem) {
        Ok(key) => key,
        Err(e) => {
            return Err(e);
        },
    };
    let container = match seal(zip_data, &public_key) {
        Ok(container) => container,
        Err(e) => {
            return Err(e);
        },
    };
    proof {
        lemma_decoding_inverts_encoding(container@);
    }
    container.serialize()
}

/// Decrypts a container, given as its wire layout, with the private key
/// given as PEM text, and returns the raw archive.
///
/// An unreadable key gives [`ErrorKind::KeyParseError`], bytes that do not
/// decode [`ErrorKind::MalformedContainer`], a wrapped key that cannot be
/// recovered [`ErrorKind::KeyUnwrapError`], a tag that does not match
/// [`ErrorKind::AuthenticationFailed`]; in that order.
pub fn decrypt_with_private_key(encrypted_data: &[u8], private_key_pem: &str) -> (result: Result<
    Vec<u8>,
    ErrorKind,
>)
    ensures
        same_outcome(result, decrypted(private_key_pem@, encrypted_data@)),
{
    let private_key = match PrivateKey::from_pem(private_key_pem) {
        Ok(key) => key,
        Err(e) => {
            return Err(e);
        },
    };
    let container = match Container::parse(encrypted_data) {
        Ok(container) => container,
        Err(e) => {
            return Err(e);
        },
    };
    open(&container, &private_key)
}

/// Decryption returns the very archive that was encrypted whenever the
/// private key recovers the content key under which it was sealed.
pub proof fn lemma_decryption_recovers_archive(
    bytes: Seq<u8>,
    archive: Seq<u8>,
    private_pem: Seq<char>,
    content_key: Seq<u8>,
)
    requires
        is_private_key_pem(private_pem),
        decoding(bytes) matches Some(container) && {
            &&& rsa_unwrapped(private_pem, container.wrapped_key) == Some(content_key)
            &&& opened_with_key(content_key, container) == Ok::<Seq<u8>, ErrorKind>(archive)
        },
    ensures
        decrypted(private_pem, bytes) == Ok::<Seq<u8>, ErrorKind>(archive),
{
}

/// What compressing gives once the targets are packed into `archive`:
/// the error of encrypting it, or a container of it.
pub open spec fn is_compression_of(
    result: Result<Vec<u8>, ErrorKind>,
    archive: Seq<u8>,
    pem: Seq<char>,
) -> bool {
    match encryption_error(archive.len(), pem) {
        Some(error) => result matches Err(e) && e == error,
        None => result matches Ok(bytes) && is_container_of(bytes@, archive, pem),
    }
}

/// Builds, seals and encodes: the compress path from targets to container
/// bytes.
///
/// The output path is tested before anything else: without the registered
/// suffix the call fails with [`ErrorKind::InvalidExtension`] whatever the
/// other arguments hold. Then the targets are tested
/// ([`ErrorKind::InvalidTarget`]) and packed
/// ([`ErrorKind::InvalidArchive`] exactly when they cannot be packed, which
/// is never so for entries that can be written into an archive of fewer
/// than 65535 entries and fewer than 2^32 - 1 bytes), and
/// only then is the key read and the archive encrypted, failing exactly as
/// [`encryption_error`] says of that archive. On success the bytes are a
/// container of the archive of the targets' entries, which unpacks to
/// exactly those entries.
pub fn compress_files(output_crypted: &str, public_key_pem: &str, targets: &Vec<Target>) -> (result:
    Result<Vec<u8>, ErrorKind>)
    ensures
        !is_registered(extension_of(output_crypted@)) ==> (result matches Err(e) && e
            == ErrorKind::InvalidExtension),
        is_registered(extension_of(output_crypted@)) && has_invalid(target_views(targets@)) ==> (
        result matches Err(e) && e == ErrorKind::InvalidTarget),
        is_registered(extension_of(output_crypted@)) && !has_invalid(target_views(targets@))
            && !packs(expanded(target_views(targets@))) ==> (result matches Err(e) && e
            == ErrorKind::InvalidArchive),
        is_registered(extension_of(output_crypted@)) && !has_invalid(target_views(targets@))
            && packs(expanded(target_views(targets@))) ==> is_compression_of(
            result,
            packed(expanded(target_views(targets@))),
            public_key_pem@,
        ),
        is_registered(extension_of(output_crypted@)) && !has_invalid(target_views(targets@))
            && writes(expanded(target_views(targets@))) && short_form(
            expanded(target_views(targets@)),
            packed(expanded(target_views(targets@))).len(),
        ) ==> packs(expanded(target_views(targets@))),
{
    if !validate_extension(output_crypted) {
        return Err(ErrorKind::InvalidExtension);
    }
    let archive = match build(targets) {
        Ok(archive) => archive,
        Err(e) => {
            return Err(e);
        },
    };
    encrypt_with_public_key(archive.as_slice(), public_key_pem)
}

/// What extracting gives once the container is decrypted to `archive`: its
/// entries, or an error where it does not unpack.
pub open spec fn is_extraction_of(
    result: Result<Vec<PackedEntry>, ErrorKind>,
    archive: Seq<u8>,
) -> bool {
    match unpacked(archive) {
        Some(listed) => result matches Ok(entries) && entry_views(entries@) == listed,
        None => result matches Err(e) && e == ErrorKind::InvalidArchive,
    }
}

/// Decodes, opens and unpacks: the extract path from container bytes to
/// the entries to write out.
///
/// The input path is tested before anything else: without the registered
/// suffix the call fails with [`ErrorKind::InvalidExtension`] whatever the
/// other arguments hold. Then the container is decrypted, failing exactly
/// as [`decrypted`] says, and the raw archive is unpacked: the call
/// succeeds exactly when it unpacks, with exactly its entries, and fails
/// with [`ErrorKind::InvalidArchive`] when it does not.
pub fn extract_files(input_encrypted_file: &str, private_key_pem: &str, encrypted_data: &[u8]) -> (result:
    Result<Vec<PackedEntry>, ErrorKind>)
    ensures
        !is_registered(extension_of(input_encrypted_file@)) ==> (result matches Err(e) && e
            == ErrorKind::InvalidExtension),
        is_registered(extension_of(input_encrypted_file@)) ==> match decrypted(
            private_key_pem@,
            encrypted_data@,
        ) {
            Err(error) => result matches Err(e) && e == error,
            Ok(archive) => is_extraction_of(result, archive),
        },
{
    if !validate_extension(input_encrypted_file) {
        return Err(ErrorKind::InvalidExtension);
    }
    let archive = match decrypt_with_private_key(encrypted_data, private_key_pem) {
        Ok(archive) => archive,
        Err(e) => {
            return Err(e);
        },
    };
    unpack(archive.as_slice())
}

/// The number of units of work to report for `files` files: one for each
/// file and one for the cryptographic stage. `None` only if it does not fit.
pub fn work_units(files: usize) -> (units: Option<u64>)
    ensures
        match units {
            Some(n) => n == files + 1,
            None => files + 1 > u64::MAX,
        },
{
    let files: u64 = files as u64;
    files.checked_add(1)
}

/// Extraction inverts compression: whatever extraction makes of the
/// archive of entries that can be packed is exactly those entries.
pub proof fn lemma_extraction_inverts_compression(
    entries: Seq<EntryView>,
    extracted: Result<Vec<PackedEntry>, ErrorKind>,
)
    requires
        packs(entries),
        is_extraction_of(extracted, packed(entries)),
    ensures
        extracted matches Ok(written) && entry_views(written@) == entries,
{
}

} // verus!
