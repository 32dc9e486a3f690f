use vstd::prelude::*;
use crate::error::ErrorKind;

verus! {

/// Length of the nonce field.
pub const NONCE_LEN: usize = 12;

/// Length of the fixed header: nonce plus the two-byte length field.
pub const HEADER_LEN: usize = 14;

/// Largest wrapped key that the two-byte length field can describe.
pub const MAX_WRAPPED_KEY_LEN: usize = 65535;

/// The three parts of a container, before encoding or after decoding.
#[derive(Debug)]
pub struct Container {
    pub nonce: Vec<u8>,
    pub wrapped_key: Vec<u8>,
    pub ciphertext: Vec<u8>,
}

/// Mathematical model of a [`Container`].
pub ghost struct ContainerView {
    pub nonce: Seq<u8>,
    pub wrapped_key: Seq<u8>,
    pub ciphertext: Seq<u8>,
}

impl View for Container {
    type V = ContainerView;

    open spec fn view(&self) -> ContainerView {
        ContainerView {
            nonce: self.nonce@,
            wrapped_key: self.wrapped_key@,
            ciphertext: self.ciphertext@,
        }
    }
}

/// The value of a two-byte big-endian unsigned field.
pub open spec fn be16(hi: u8, lo: u8) -> int {
    hi as int * 256 + lo as int
}

/// High byte of the big-endian encoding of `n`.
pub open spec fn be16_hi(n: int) -> u8 {
    (n / 256) as u8
}

/// Low byte of the big-endian encoding of `n`.
pub open spec fn be16_lo(n: int) -> u8 {
    (n % 256) as u8
}

impl ContainerView {
    /// A container can be encoded when its nonce has twelve bytes and the
    /// length of its wrapped key fits the two-byte length field.
    pub open spec fn well_formed(self) -> bool {
        &&& self.nonce.len() == NONCE_LEN
        &&& self.wrapped_key.len() <= MAX_WRAPPED_KEY_LEN
    }

    /// The wire layout: nonce, big-endian wrapped-key length, wrapped key,
    /// ciphertext.
    pub open spec fn encoding(self) -> Seq<u8> {
        self.nonce + seq![
            be16_hi(self.wrapped_key.len() as int),
            be16_lo(self.wrapped_key.len() as int),
        ] + self.wrapped_key + self.ciphertext
    }
}

/// Whether `bytes` is long enough to hold the header and the wrapped key
/// that its length field announces.
pub open spec fn is_framed(bytes: Seq<u8>) -> bool {
    &&& bytes.len() >= HEADER_LEN
    &&& HEADER_LEN + be16(bytes[12], bytes[13]) <= bytes.len()
}

/// The container that `bytes` decodes to, if it is framed.
pub open spec fn decoding(bytes: Seq<u8>) -> Option<ContainerView> {
    if is_framed(bytes) {
        let key_len = be16(bytes[12], bytes[13]);
        Some(
            ContainerView {
                nonce: bytes.subrange(0, 12),
                wrapped_key: bytes.subrange(14, 14 + key_len),
                ciphertext: bytes.subrange(14 + key_len, bytes.len() as int),
            },
        )
    } else {
        None
    }
}

/// Copies `bytes[start..end]` into a fresh vector.
pub(crate) fn copy_range(bytes: &[u8], start: usize, end: usize) -> (out: Vec<u8>)
    requires
        start <= end <= bytes.len(),
    ensures
        out@ == bytes@.subrange(start as int, end as int),
{
    let mut out: Vec<u8> = Vec::new();
    let mut i: usize = start;
    while i < end
        invariant
            start <= i <= end <= bytes.len(),
            out@ == bytes@.subrange(start as int, i as int),
        decreases end - i,
    {
        out.push(bytes[i]);
        i += 1;
    }
    out
}

/// Appends all of `bytes` to `out`.
fn append_all(out: &mut Vec<u8>, bytes: &[u8])
    ensures
        final(out)@ == old(out)@ + bytes@,
{
    let mut i: usize = 0;
    while i < bytes.len()
        invariant
            i <= bytes.len(),
            out@ == old(out)@ + bytes@.subrange(0, i as int),
        decreases bytes.len() - i,
    {
        out.push(bytes[i]);
        i += 1;
    }
    assert(bytes@.subrange(0, i as int) == bytes@);
}

/// Takes the nonce from the front of container bytes.
///
/// Fails with [`ErrorKind::MalformedContainer`] exactly when fewer than
/// twelve bytes are given.
pub fn extract_nonce(encrypted_data: &[u8]) -> (result: Result<Vec<u8>, ErrorKind>)
    ensures
        encrypted_data.len() >= NONCE_LEN ==> (result matches Ok(nonce) && nonce@
            == encrypted_data@.subrange(0, 12)),
        encrypted_data.len() < NONCE_LEN ==> (result matches Err(e) && e
            == ErrorKind::MalformedContainer),
{
    if encrypted_data.len() < NONCE_LEN {
        return Err(ErrorKind::MalformedContainer);
    }
    Ok(copy_range(encrypted_data, 0, NONCE_LEN))
}

impl Container {
    /// Encodes the container into its wire layout.
    ///
    /// Fails with [`ErrorKind::MalformedContainer`] exactly when the nonce does
    /// not have twelve bytes or the wrapped key is too long for the length
    /// field; nothing else is checked.
    pub fn serialize(&self) -> (result: Result<Vec<u8>, ErrorKind>)
        ensures
            self@.well_formed() ==> (result matches Ok(bytes) && bytes@ == self@.encoding()),
            !self@.well_formed() ==> (result matches Err(e) && e == ErrorKind::MalformedContainer),
    {
        if self.nonce.len() != NONCE_LEN || self.wrapped_key.len() > MAX_WRAPPED_KEY_LEN {
            return Err(ErrorKind::MalformedContainer);
        }
        let key_len: usize = self.wrapped_key.len();
        let mut out: Vec<u8> = Vec::new();
        append_all(&mut out, self.nonce.as_slice());
        out.push((key_len / 256) as u8);
        out.push((key_len % 256) as u8);
        append_all(&mut out, self.wrapped_key.as_slice());
        append_all(&mut out, self.ciphertext.as_slice());
        Ok(out)
    }

    /// Decodes a container from its wire layout.
    ///
    /// Fails with [`ErrorKind::MalformedContainer`] exactly when `bytes` is
    /// shorter than the header or the announced wrapped key does not fit in
    /// what follows the header. No cryptographic check is made here.
    pub fn parse(bytes: &[u8]) -> (result: Result<Container, ErrorKind>)
        ensures
            match decoding(bytes@) {
                Some(c) => result matches Ok(parsed) && parsed@ == c,
                None => result matches Err(e) && e == ErrorKind::MalformedContainer,
            },
    {
        if bytes.len() < HEADER_LEN {
            return Err(ErrorKind::MalformedContainer);
        }
        let key_len: usize = bytes[12] as usize * 256 + bytes[13] as usize;
        if key_len > bytes.len() - HEADER_LEN {
            return Err(ErrorKind::MalformedContainer);
        }
        let nonce = match extract_nonce(bytes) {
            Ok(nonce) => nonce,
            Err(e) => {
                return Err(e);
            },
        };
        let wrapped_key = copy_range(bytes, HEADER_LEN, HEADER_LEN + key_len);
        let ciphertext = copy_range(bytes, HEADER_LEN + key_len, bytes.len());
        Ok(Container { nonce, wrapped_key, ciphertext })
    }
}

/// Decoding inverts encoding: every well-formed container is recovered,
/// part for part, from its own wire layout.
pub proof fn lemma_decoding_inverts_encoding(c: ContainerView)
    requires
        c.well_formed(),
    ensures
        decoding(c.encoding()) == Some(c),
{
    let n = c.wrapped_key.len() as int;
    let bytes = c.encoding();
    assert(bytes.len() == 14 + n + c.ciphertext.len());
    assert(bytes[12] == be16_hi(n));
    assert(bytes[13] == be16_lo(n));
    assert(be16(bytes[12], bytes[13]) == n);
    let d = decoding(bytes)->Some_0;
    assert(d.nonce =~= c.nonce);
    assert(d.wrapped_key =~= c.wrapped_key);
    assert(d.ciphertext =~= c.ciphertext);
}

/// Encoding inverts decoding: whatever decodes at all is the wire layout of
/// the container it decodes to, and that container is well formed.
pub proof fn lemma_encoding_inverts_decoding(bytes: Seq<u8>)
    requires
        is_framed(bytes),
    ensures
        decoding(bytes)->Some_0.well_formed(),
        decoding(bytes)->Some_0.encoding() == bytes,
{
    let c = decoding(bytes)->Some_0;
    let n = be16(bytes[12], bytes[13]);
    assert(c.wrapped_key.len() == n);
    assert(be16_hi(n) == bytes[12]);
    assert(be16_lo(n) == bytes[13]);
    assert(c.encoding() =~= bytes);
}

/// Truncated or inconsistent input never decodes: fewer than fourteen bytes,
/// or a length field that reaches past the end of the buffer.
pub proof fn lemma_malformed_is_rejected(bytes: Seq<u8>)
    requires
        bytes.len() < HEADER_LEN || HEADER_LEN + be16(bytes[12], bytes[13]) > bytes.len(),
    ensures
        decoding(bytes) is None,
{
}

/// Cutting a wire layout short of its wrapped key makes it undecodable.
pub proof fn lemma_truncation_is_rejected(c: ContainerView, keep: int)
    requires
        c.well_formed(),
        0 <= keep < HEADER_LEN + c.wrapped_key.len(),
    ensures
        decoding(c.encoding().subrange(0, keep)) is None,
{
    let n = c.wrapped_key.len() as int;
    let bytes = c.encoding();
    let cut = bytes.subrange(0, keep);
    if keep >= 14 {
        assert(cut[12] == bytes[12] && cut[13] == bytes[13]);
        assert(bytes[12] == be16_hi(n));
        assert(bytes[13] == be16_lo(n));
        assert(be16(cut[12], cut[13]) == n);
    }
}

} // verus!
