use vstd::prelude::*;
use aes_gcm::aead::Aead;
use aes_gcm::aead::AeadCore;
use aes_gcm::aead::KeyInit;
use aes_gcm::aead::OsRng;
use aes_gcm::Aes256Gcm;
use crate::container::Container;
use crate::container::ContainerView;
use crate::container::NONCE_LEN;
use crate::error::ErrorKind;
use crate::keys::is_wrapping;
use crate::keys::modulus_len;
use crate::keys::rsa_unwrap;
use crate::keys::rsa_unwrapped;
use crate::keys::rsa_wrap;
use crate::keys::PrivateKey;
use crate::keys::PublicKey;

verus! {

/// `aead::Error`, the failure of sealing or opening.
#[verifier::external_type_specification]
#[verifier::external_body]
pub struct ExAeadError(aes_gcm::Error);

/// Length of a content key.
pub const CONTENT_KEY_LEN: usize = 32;

/// Length of the authentication tag that closes every ciphertext.
pub const TAG_LEN: usize = 16;

/// Smallest modulus, in bytes, that can wrap a content key.
pub const MIN_MODULUS_LEN: usize = 43;

/// Longest plaintext that can be sealed in one call: 2^36 bytes.
pub open spec fn max_plaintext_len() -> int {
    0x10_0000_0000
}

/// AES-256-GCM ciphertext, tag included, of `plaintext` under `key` and
/// `nonce`, without associated data.
pub uninterp spec fn gcm_sealed(key: Seq<u8>, nonce: Seq<u8>, plaintext: Seq<u8>) -> Seq<u8>;

/// What AES-256-GCM decryption of `ciphertext` under `key` and `nonce`
/// yields: the plaintext, or nothing when the ciphertext is rejected, as it
/// is whenever the tag does not match.
pub uninterp spec fn gcm_opened(key: Seq<u8>, nonce: Seq<u8>, ciphertext: Seq<u8>) -> Option<Seq<u8>>;

/// Calls `Aes256Gcm::generate_key` on the operating system's generator.
/// Only the length of the key is claimed.
#[verifier::external_body]
fn fresh_content_key() -> (key: Vec<u8>)
    ensures
        key.len() == CONTENT_KEY_LEN,
{
    Aes256Gcm::generate_key(&mut OsRng).to_vec()
}

/// Calls `Aes256Gcm::generate_nonce` on the operating system's generator.
/// Only the length of the nonce is claimed.
#[verifier::external_body]
fn fresh_nonce() -> (nonce: Vec<u8>)
    ensures
        nonce.len() == NONCE_LEN,
{
    Aes256Gcm::generate_nonce(&mut OsRng).to_vec()
}

/// Calls `Aead::encrypt` of an `Aes256Gcm` made from `key`. It fails only on
/// a plaintext beyond the cipher's limit; otherwise the ciphertext is a
/// function of the three arguments, is one tag longer than the plaintext,
/// and decrypts to the plaintext under the same key and nonce.
#[verifier::external_body]
fn gcm_encrypt(key: &[u8], nonce: &[u8], plaintext: &[u8]) -> (result: Result<
    Vec<u8>,
    aes_gcm::Error,
>)
    requires
        key.len() == CONTENT_KEY_LEN,
        nonce.len() == NONCE_LEN,
    ensures
        result is Ok <==> plaintext.len() <= max_plaintext_len(),
        result matches Ok(ciphertext) ==> {
            &&& ciphertext@ == gcm_sealed(key@, nonce@, plaintext@)
            &&& ciphertext.len() == plaintext.len() + TAG_LEN
            &&& gcm_opened(key@, nonce@, ciphertext@) == Some(plaintext@)
        },
{
    let cipher = Aes256Gcm::new(aes_gcm::Key::<Aes256Gcm>::from_slice(key));
    cipher.encrypt(aes_gcm::Nonce::from_slice(nonce), plaintext)
}

/// Calls `Aead::decrypt` of an `Aes256Gcm` made from `key`. The outcome is a
/// function of the three arguments; a plaintext is one tag shorter than the
/// ciphertext.
#[verifier::external_body]
fn gcm_decrypt(key: &[u8], nonce: &[u8], ciphertext: &[u8]) -> (result: Result<
    Vec<u8>,
    aes_gcm::Error,
>)
    requires
        key.len() == CONTENT_KEY_LEN,
        nonce.len() == NONCE_LEN,
    ensures
        match result {
            Ok(plaintext) => {
                &&& gcm_opened(key@, nonce@, ciphertext@) == Some(plaintext@)
                &&& plaintext.len() + TAG_LEN == ciphertext.len()
            },
            Err(_) => gcm_opened(key@, nonce@, ciphertext@) is None,
        },
{
    let cipher = Aes256Gcm::new(aes_gcm::Key::<Aes256Gcm>::from_slice(key));
    cipher.decrypt(aes_gcm::Nonce::from_slice(nonce), ciphertext)
}

/// What opening `container` with a known content key returns.
pub open spec fn opened_with_key(content_key: Seq<u8>, container: ContainerView) -> Result<
    Seq<u8>,
    ErrorKind,
> {
    if container.nonce.len() != NONCE_LEN {
        Err(ErrorKind::MalformedContainer)
    } else if content_key.len() != CONTENT_KEY_LEN {
        Err(ErrorKind::KeyUnwrapError)
    } else {
        match gcm_opened(content_key, container.nonce, container.ciphertext) {
            Some(plaintext) => Ok(plaintext),
            None => Err(ErrorKind::AuthenticationFailed),
        }
    }
}

/// What opening `container` with the private key read from `pem` returns.
pub open spec fn opened(pem: Seq<char>, container: ContainerView) -> Result<Seq<u8>, ErrorKind> {
    if container.nonce.len() != NONCE_LEN {
        Err(ErrorKind::MalformedContainer)
    } else {
        match rsa_unwrapped(pem, container.wrapped_key) {
            Some(content_key) => opened_with_key(content_key, container),
            None => Err(ErrorKind::KeyUnwrapError),
        }
    }
}

/// Whether a result of bytes is the given result of byte sequences.
pub open spec fn same_outcome(result: Result<Vec<u8>, ErrorKind>, model: Result<
    Seq<u8>,
    ErrorKind,
>) -> bool {
    match (result, model) {
        (Ok(bytes), Ok(seq)) => bytes@ == seq,
        (Err(e), Err(f)) => e == f,
        _ => false,
    }
}

/// Seals `plaintext` under the given content key and nonce and wraps the
/// content key for `recipient`.
///
/// The plaintext is sealed first: beyond the cipher's limit the call fails
/// with [`ErrorKind::ArchiveTooLarge`]. Then the key is wrapped: a recipient
/// key whose modulus has fewer than 43 bytes gives
/// [`ErrorKind::KeyTooSmall`]. On success the container carries the nonce
/// unchanged, the ciphertext is the sealing of the plaintext, the wrapped
/// key is the content key encrypted under the recipient's key and as long
/// as its modulus, and opening the container with the same content key
/// gives the plaintext back.
pub fn seal_with(
    plaintext: &[u8],
    recipient: &PublicKey,
    content_key: &[u8],
    nonce: &[u8],
) -> (result: Result<Container, ErrorKind>)
    requires
        content_key.len() == CONTENT_KEY_LEN,
        nonce.len() == NONCE_LEN,
    ensures
        plaintext.len() > max_plaintext_len() ==> (result matches Err(e) && e
            == ErrorKind::ArchiveTooLarge),
        plaintext.len() <= max_plaintext_len() && modulus_len(recipient@) < MIN_MODULUS_LEN ==> (
        result matches Err(e) && e == ErrorKind::KeyTooSmall),
        plaintext.len() <= max_plaintext_len() && modulus_len(recipient@) >= MIN_MODULUS_LEN
            ==> result is Ok,
        result matches Ok(container) ==> {
            &&& container.nonce@ == nonce@
            &&& container.ciphertext@ == gcm_sealed(content_key@, nonce@, plaintext@)
            &&& container.ciphertext.len() == plaintext.len() + TAG_LEN
            &&& container.wrapped_key.len() == modulus_len(recipient@)
            &&& is_wrapping(recipient@, content_key@, container.wrapped_key@)
            &&& opened_with_key(content_key@, container@) == Ok::<Seq<u8>, ErrorKind>(plaintext@)
        },
{
    let ciphertext = match gcm_encrypt(content_key, nonce, plaintext) {
        Ok(ciphertext) => ciphertext,
        Err(_) => {
            return Err(ErrorKind::ArchiveTooLarge);
        },
    };
    let wrapped_key = match rsa_wrap(recipient, content_key) {
        Ok(wrapped_key) => wrapped_key,
        Err(_) => {
            return Err(ErrorKind::KeyTooSmall);
        },
    };
    let nonce_copy = crate::container::copy_range(nonce, 0, NONCE_LEN);
    assert(nonce_copy@ =~= nonce@);
    Ok(Container { nonce: nonce_copy, wrapped_key, ciphertext })
}

/// Whether `container` is a sealing of `plaintext` for the public key read
/// from `pem`: under some content key the ciphertext is the sealing of the
/// plaintext, and the wrapped key is that same content key encrypted under
/// the public key.
pub open spec fn is_sealing_of(container: ContainerView, plaintext: Seq<u8>, pem: Seq<char>) -> bool {
    &&& container.nonce.len() == NONCE_LEN
    &&& container.ciphertext.len() == plaintext.len() + TAG_LEN
    &&& container.wrapped_key.len() == modulus_len(pem)
    &&& exists|content_key: Seq<u8>|
        {
            &&& content_key.len() == CONTENT_KEY_LEN
            &&& container.ciphertext == #[trigger] gcm_sealed(
                content_key,
                container.nonce,
                plaintext,
            )
            &&& is_wrapping(pem, content_key, container.wrapped_key)
            &&& opened_with_key(content_key, container) == Ok::<Seq<u8>, ErrorKind>(plaintext)
        }
}

/// Seals `plaintext` for `recipient` under a fresh content key and a fresh
/// nonce, both drawn from the operating system's generator for this call
/// alone.
///
/// Fails with [`ErrorKind::ArchiveTooLarge`] beyond the cipher's limit, else
/// with [`ErrorKind::KeyTooSmall`] when the recipient's modulus has fewer
/// than 43 bytes, and succeeds otherwise.
pub fn seal(plaintext: &[u8], recipient: &PublicKey) -> (result: Result<Container, ErrorKind>)
    ensures
        plaintext.len() > max_plaintext_len() ==> (result matches Err(e) && e
            == ErrorKind::ArchiveTooLarge),
        plaintext.len() <= max_plaintext_len() && modulus_len(recipient@) < MIN_MODULUS_LEN ==> (
        result matches Err(e) && e == ErrorKind::KeyTooSmall),
        plaintext.len() <= max_plaintext_len() && modulus_len(recipient@) >= MIN_MODULUS_LEN
            ==> result is Ok,
        result matches Ok(container) ==> is_sealing_of(container@, plaintext@, recipient@),
{
    let content_key = fresh_content_key();
    let nonce = fresh_nonce();
    let result = seal_with(plaintext, recipient, content_key.as_slice(), nonce.as_slice());
    proof {
        if result is Ok {
            let sealed = result->Ok_0@;
            assert(sealed.ciphertext == gcm_sealed(content_key@, sealed.nonce, plaintext@));
        }
    }
    result
}

/// Opens `container` with a content key that is already known.
///
/// A nonce that does not have twelve bytes gives
/// [`ErrorKind::MalformedContainer`], a key that does not have 32 bytes
/// [`ErrorKind::KeyUnwrapError`], a tag that does not match
/// [`ErrorKind::AuthenticationFailed`]. No plaintext is returned unless the
/// tag matched.
pub fn open_with_key(content_key: &[u8], container: &Container) -> (result: Result<
    Vec<u8>,
    ErrorKind,
>)
    ensures
        same_outcome(result, opened_with_key(content_key@, container@)),
{
    if container.nonce.len() != NONCE_LEN {
        return Err(ErrorKind::MalformedContainer);
    }
    if content_key.len() != CONTENT_KEY_LEN {
        return Err(ErrorKind::KeyUnwrapError);
    }
    match gcm_decrypt(content_key, container.nonce.as_slice(), container.ciphertext.as_slice()) {
        Ok(plaintext) => Ok(plaintext),
        Err(_) => Err(ErrorKind::AuthenticationFailed),
    }
}

/// Opens `container` with the recipient's private key: the wrapped key is
/// unwrapped, then the ciphertext is opened with it.
///
/// A nonce that does not have twelve bytes gives
/// [`ErrorKind::MalformedContainer`]; a wrapped key that the private key
/// rejects, or that does not hold 32 bytes, [`ErrorKind::KeyUnwrapError`]; a
/// tag that does not match [`ErrorKind::AuthenticationFailed`].
pub fn open(container: &Container, key: &PrivateKey) -> (result: Result<Vec<u8>, ErrorKind>)
    ensures
        same_outcome(result, opened(key@, container@)),
{
    if container.nonce.len() != NONCE_LEN {
        return Err(ErrorKind::MalformedContainer);
    }
    match rsa_unwrap(key, container.wrapped_key.as_slice()) {
        Ok(content_key) => open_with_key(content_key.as_slice(), container),
        Err(_) => Err(ErrorKind::KeyUnwrapError),
    }
}

/// Whenever the private key recovers the content key under which a
/// plaintext was sealed, opening returns exactly that plaintext.
pub proof fn lemma_open_returns_what_the_key_opens(
    pem: Seq<char>,
    content_key: Seq<u8>,
    container: ContainerView,
    plaintext: Seq<u8>,
)
    requires
        rsa_unwrapped(pem, container.wrapped_key) == Some(content_key),
        opened_with_key(content_key, container) == Ok::<Seq<u8>, ErrorKind>(plaintext),
    ensures
        opened(pem, container) == Ok::<Seq<u8>, ErrorKind>(plaintext),
{
}

/// Opening never yields a plaintext unless the wrapped key was recovered, it
/// holds 32 bytes, and the tag matched under it.
pub proof fn lemma_open_succeeds_only_when_authentic(
    pem: Seq<char>,
    container: ContainerView,
)
    requires
        opened(pem, container) is Ok,
    ensures
        container.nonce.len() == NONCE_LEN,
        rsa_unwrapped(pem, container.wrapped_key) matches Some(content_key) && {
            &&& content_key.len() == CONTENT_KEY_LEN
            &&& gcm_opened(content_key, container.nonce, container.ciphertext) == Some(
                opened(pem, container)->Ok_0,
            )
        },
{
}

/// A wrapped key that the private key rejects is reported as such, and a tag
/// mismatch as an authentication failure: neither is ever turned into a
/// plaintext.
pub proof fn lemma_open_failures(pem: Seq<char>, container: ContainerView)
    requires
        container.nonce.len() == NONCE_LEN,
    ensures
        rsa_unwrapped(pem, container.wrapped_key) is None ==> opened(pem, container) == Err::<
            Seq<u8>,
            ErrorKind,
        >(ErrorKind::KeyUnwrapError),
        (rsa_unwrapped(pem, container.wrapped_key) matches Some(content_key)
            && content_key.len() == CONTENT_KEY_LEN && gcm_opened(
            content_key,
            container.nonce,
            container.ciphertext,
        ) is None) ==> opened(pem, container) == Err::<Seq<u8>, ErrorKind>(
            ErrorKind::AuthenticationFailed,
        ),
{
}

/// A container with a nonce of twelve bytes fails to open in two ways only:
/// the wrapped key is not recovered, or the tag does not match.
pub proof fn lemma_open_fails_in_two_ways(pem: Seq<char>, container: ContainerView)
    requires
        container.nonce.len() == NONCE_LEN,
        opened(pem, container) is Err,
    ensures
        opened(pem, container)->Err_0 == ErrorKind::KeyUnwrapError || opened(
            pem,
            container,
        )->Err_0 == ErrorKind::AuthenticationFailed,
{
}

} // verus!
