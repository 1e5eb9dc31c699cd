//! Container layout and decryption.
//!
//! A container is a fixed header, a data region of AES-256-CBC ciphertext
//! and a trailing 32-byte encrypted checksum of the plaintext.

use vstd::prelude::*;

use crate::crypto::{
    cbc_blocks_of, cbc_decrypt_blocks, cbc_decrypt_padded, cbc_pkcs7_of, opt_view, sha1_digest,
    sha1_of, sha512_digest, sha512_of, pad_len, BLOCK_SIZE, KEY_LEN, SHA1_LEN, SHA512_LEN,
};

verus! {

/// First byte of the magic signature "EZC".
pub const MAGIC_0: u8 = 0x45;

/// Second byte of the magic signature.
pub const MAGIC_1: u8 = 0x5a;

/// Third byte of the magic signature.
pub const MAGIC_2: u8 = 0x43;

/// The one major version that is read.
pub const SUPPORTED_MAJOR: u8 = 2;

/// Offset of the major version byte.
pub const MAJOR_OFFSET: usize = 0x03;

/// Offset of the minor version byte, which is informational only.
pub const MINOR_OFFSET: usize = 0x04;

/// Offset of the 16-byte initialization vector.
pub const IV_OFFSET: usize = 0x43;

/// Offset of the 16-byte salt.
pub const SALT_OFFSET: usize = 0x53;

/// Offset of the 64-byte password-verification hash.
pub const HASH_OFFSET: usize = 0x63;

/// Offset of the data region.
pub const DATA_OFFSET: usize = 0xA3;

/// Length of the encrypted checksum at the end of the container.
pub const CHECKSUM_LEN: usize = 0x20;

/// Size of the chunks in which the data region is decrypted.
pub const CHUNK_SIZE: usize = 0x20000;

/// Shortest container with a data region of one block.
pub const MIN_CONTAINER_LEN: usize = 0xD3;

/// Why a container could not be decrypted.
#[derive(Debug, Clone, Copy, PartialEq, Eq, Structural)]
pub enum DecryptError {
    /// The magic signature is wrong.
    Format,
    /// The major version is not the supported one.
    UnsupportedVersion { major: u8, minor: u8 },
    /// The password does not match the verification hash.
    Authentication,
    /// PKCS#7 padding of the checksum or of the last chunk is malformed.
    Padding,
    /// The input ends before the header, data region or checksum does.
    Truncated,
    /// The destination already exists and overwriting was not asked for.
    DestinationExists,
}

/// The fields of the fixed header, read at their offsets.
pub struct Header {
    pub major: u8,
    pub minor: u8,
    pub iv: Vec<u8>,
    pub salt: Vec<u8>,
    pub verifier: Vec<u8>,
}

/// The data region and the encrypted trailing checksum of a container.
pub struct Body {
    pub data: Vec<u8>,
    pub checksum: Vec<u8>,
}

/// The container starts with the magic signature.
pub open spec fn magic_ok(f: Seq<u8>) -> bool {
    f[0] == MAGIC_0 && f[1] == MAGIC_1 && f[2] == MAGIC_2
}

/// What reading the fixed header of `f` gives, short of the fields
/// themselves.
pub open spec fn header_error(f: Seq<u8>) -> Option<DecryptError> {
    if f.len() <= MINOR_OFFSET {
        Some(DecryptError::Truncated)
    } else if !magic_ok(f) {
        Some(DecryptError::Format)
    } else if f[MAJOR_OFFSET as int] != SUPPORTED_MAJOR {
        Some(
            DecryptError::UnsupportedVersion {
                major: f[MAJOR_OFFSET as int],
                minor: f[MINOR_OFFSET as int],
            },
        )
    } else if f.len() < DATA_OFFSET {
        Some(DecryptError::Truncated)
    } else {
        None
    }
}

/// The data region of a container of sufficient length.
pub open spec fn data_of(f: Seq<u8>) -> Seq<u8> {
    f.subrange(DATA_OFFSET as int, f.len() - CHECKSUM_LEN)
}

/// The encrypted checksum at the end of a container.
pub open spec fn checksum_of(f: Seq<u8>) -> Seq<u8> {
    f.subrange(f.len() - CHECKSUM_LEN, f.len() as int)
}

impl Header {
    /// The header holds the fields of `f` at their offsets.
    pub open spec fn reads(&self, f: Seq<u8>) -> bool {
        &&& f.len() >= DATA_OFFSET
        &&& self.major == f[MAJOR_OFFSET as int]
        &&& self.minor == f[MINOR_OFFSET as int]
        &&& self.iv@ == f.subrange(IV_OFFSET as int, SALT_OFFSET as int)
        &&& self.salt@ == f.subrange(SALT_OFFSET as int, HASH_OFFSET as int)
        &&& self.verifier@ == f.subrange(HASH_OFFSET as int, DATA_OFFSET as int)
    }
}

/// Copies `s[lo..hi]`.
fn copy_range(s: &[u8], lo: usize, hi: usize) -> (r: Vec<u8>)
    requires
        lo <= hi <= s@.len(),
    ensures
        r@ == s@.subrange(lo as int, hi as int),
{
    let mut r: Vec<u8> = Vec::with_capacity(hi - lo);
    let mut i: usize = lo;
    while i < hi
        invariant
            lo <= i <= hi <= s@.len(),
            r@ == s@.subrange(lo as int, i as int),
        decreases hi - i,
    {
        r.push(s[i]);
        i += 1;
        assert(r@ =~= s@.subrange(lo as int, i as int));
    }
    r
}

/// Reads and checks the fixed header of the container `file`.
pub fn parse_header(file: &[u8]) -> (r: Result<Header, DecryptError>)
    ensures
        match header_error(file@) {
            Some(e) => r == Err::<Header, DecryptError>(e),
            None => r is Ok && r->Ok_0.reads(file@),
        },
{
    if file.len() <= MINOR_OFFSET {
        return Err(DecryptError::Truncated);
    }
    if file[0] != MAGIC_0 || file[1] != MAGIC_1 || file[2] != MAGIC_2 {
        return Err(DecryptError::Format);
    }
    if file[MAJOR_OFFSET] != SUPPORTED_MAJOR {
        return Err(
            DecryptError::UnsupportedVersion { major: file[MAJOR_OFFSET], minor: file[MINOR_OFFSET] },
        );
    }
    if file.len() < DATA_OFFSET {
        return Err(DecryptError::Truncated);
    }
    Ok(
        Header {
            major: file[MAJOR_OFFSET],
            minor: file[MINOR_OFFSET],
            iv: copy_range(file, IV_OFFSET, SALT_OFFSET),
            salt: copy_range(file, SALT_OFFSET, HASH_OFFSET),
            verifier: copy_range(file, HASH_OFFSET, DATA_OFFSET),
        },
    )
}

/// Locates the data region, which must hold at least one block, and the
/// trailing checksum of the container `file`.
pub fn read_body(file: &[u8]) -> (r: Result<Body, DecryptError>)
    ensures
        file@.len() < MIN_CONTAINER_LEN ==> r == Err::<Body, DecryptError>(DecryptError::Truncated),
        file@.len() >= MIN_CONTAINER_LEN ==> r is Ok && r->Ok_0.data@ == data_of(file@)
            && r->Ok_0.checksum@ == checksum_of(file@),
{
    if file.len() < MIN_CONTAINER_LEN {
        return Err(DecryptError::Truncated);
    }
    let end = file.len() - CHECKSUM_LEN;
    Ok(Body { data: copy_range(file, DATA_OFFSET, end), checksum: copy_range(file, end, file.len()) })
}

/// The plaintext of a data region: every chunk but the last is decrypted
/// whole, each chained to the last ciphertext block of the one before; the
/// last loses its padding.
pub open spec fn content_plain(key: Seq<u8>, iv: Seq<u8>, data: Seq<u8>) -> Option<Seq<u8>>
    decreases data.len(),
{
    if data.len() >= CHUNK_SIZE + BLOCK_SIZE {
        match content_plain(
            key,
            data.subrange(CHUNK_SIZE - BLOCK_SIZE, CHUNK_SIZE as int),
            data.subrange(CHUNK_SIZE as int, data.len() as int),
        ) {
            Some(rest) => Some(cbc_blocks_of(key, iv, data.subrange(0, CHUNK_SIZE as int)) + rest),
            None => None,
        }
    } else {
        cbc_pkcs7_of(key, iv, data)
    }
}

/// The padding length announced by the last decrypted chunk of a data
/// region, chained as in `content_plain`.
pub open spec fn final_pad(key: Seq<u8>, iv: Seq<u8>, data: Seq<u8>) -> int
    decreases data.len(),
{
    if data.len() >= CHUNK_SIZE + BLOCK_SIZE {
        final_pad(
            key,
            data.subrange(CHUNK_SIZE - BLOCK_SIZE, CHUNK_SIZE as int),
            data.subrange(CHUNK_SIZE as int, data.len() as int),
        )
    } else {
        pad_len(cbc_blocks_of(key, iv, data))
    }
}

/// `o` with `pre` put in front of the bytes it holds.
pub open spec fn prepend(pre: Seq<u8>, o: Option<Seq<u8>>) -> Option<Seq<u8>> {
    match o {
        Some(s) => Some(pre + s),
        None => None,
    }
}

/// Decrypts the data region `data` chunk by chunk with one chained CBC
/// stream, removing the padding of the last chunk. `None` where that padding
/// is malformed.
pub fn decrypt_content(key: &[u8], iv: &[u8], data: &[u8]) -> (r: Option<Vec<u8>>)
    requires
        key@.len() == KEY_LEN,
        iv@.len() == BLOCK_SIZE,
    ensures
        opt_view(r) == content_plain(key@, iv@, data@),
        r is Some ==> 1 <= final_pad(key@, iv@, data@) <= BLOCK_SIZE && r->0@.len() == data@.len()
            - final_pad(key@, iv@, data@),
{
    let mut out: Vec<u8> = Vec::new();
    let mut chain: Vec<u8> = copy_range(iv, 0, BLOCK_SIZE);
    let mut pos: usize = 0;
    proof {
        assert(chain@ =~= iv@);
        assert(data@.subrange(0, data@.len() as int) =~= data@);
        match content_plain(key@, iv@, data@) {
            Some(s) => assert(out@ + s =~= s),
            None => {},
        }
    }
    while data.len() - pos >= CHUNK_SIZE + BLOCK_SIZE
        invariant
            pos <= data@.len(),
            key@.len() == KEY_LEN,
            chain@.len() == BLOCK_SIZE,
            out@.len() == pos,
            final_pad(key@, iv@, data@) == final_pad(
                key@,
                chain@,
                data@.subrange(pos as int, data@.len() as int),
            ),
            content_plain(key@, iv@, data@) == prepend(
                out@,
                content_plain(key@, chain@, data@.subrange(pos as int, data@.len() as int)),
            ),
        decreases data@.len() - pos,
    {
        let ghost rest = data@.subrange(pos as int, data@.len() as int);
        let chunk = copy_range(data, pos, pos + CHUNK_SIZE);
        let plain = cbc_decrypt_blocks(key, chain.as_slice(), chunk.as_slice());
        let next = copy_range(data, pos + CHUNK_SIZE - BLOCK_SIZE, pos + CHUNK_SIZE);
        proof {
            assert(chunk@ =~= rest.subrange(0, CHUNK_SIZE as int));
            assert(next@ =~= rest.subrange(CHUNK_SIZE - BLOCK_SIZE, CHUNK_SIZE as int));
            assert(data@.subrange(pos + CHUNK_SIZE, data@.len() as int) =~= rest.subrange(
                CHUNK_SIZE as int,
                rest.len() as int,
            ));
            let tail = content_plain(key@, next@, data@.subrange(pos + CHUNK_SIZE, data@.len() as int));
            match tail {
                Some(t) => {
                    assert(out@ + (plain@ + t) =~= (out@ + plain@) + t);
                },
                None => {},
            }
        }
        let ghost old_out = out@;
        let mut plain_mut = plain;
        out.append(&mut plain_mut);
        assert(out@ == old_out + plain@);
        chain = next;
        pos += CHUNK_SIZE;
    }
    let tail = copy_range(data, pos, data.len());
    match cbc_decrypt_padded(key, chain.as_slice(), tail.as_slice()) {
        Some(p) => {
            let ghost old_out = out@;
            let mut p_mut = p;
            out.append(&mut p_mut);
            assert(out@ == old_out + p@);
            Some(out)
        },
        None => None,
    }
}

/// Copies `a` followed by `b`.
fn concat(a: &[u8], b: &[u8]) -> (r: Vec<u8>)
    ensures
        r@ == a@ + b@,
{
    let mut r: Vec<u8> = copy_range(a, 0, a.len());
    let mut i: usize = 0;
    assert(r@ =~= a@ + b@.take(0));
    while i < b.len()
        invariant
            i <= b@.len(),
            r@ == a@ + b@.take(i as int),
        decreases b@.len() - i,
    {
        r.push(b[i]);
        i += 1;
        assert(r@ =~= a@ + b@.take(i as int));
    }
    assert(b@.take(i as int) =~= b@);
    r
}

/// Compares two byte strings.
fn bytes_equal(a: &[u8], b: &[u8]) -> (r: bool)
    ensures
        r == (a@ == b@),
{
    if a.len() != b.len() {
        return false;
    }
    let mut i: usize = 0;
    while i < a.len()
        invariant
            i <= a@.len() == b@.len(),
            a@.take(i as int) == b@.take(i as int),
        decreases a@.len() - i,
    {
        if a[i] != b[i] {
            assert(a@.take(i + 1)[i as int] != b@.take(i + 1)[i as int]);
            return false;
        }
        i += 1;
        assert(a@.take(i as int) =~= b@.take(i as int));
    }
    assert(a@ =~= a@.take(i as int));
    assert(b@ =~= b@.take(i as int));
    true
}

/// The password-verification hash of `password` under `salt`: SHA-512 of the
/// password bytes immediately followed by the salt bytes.
pub open spec fn password_hash_of(password: Seq<u8>, salt: Seq<u8>) -> Seq<u8> {
    sha512_of(password + salt)
}

/// Computes SHA-512 of `password` followed by `salt`.
pub fn password_hash(password: &[u8], salt: &[u8]) -> (r: Vec<u8>)
    ensures
        r@ == password_hash_of(password@, salt@),
        r@.len() == SHA512_LEN,
{
    let joined = concat(password, salt);
    sha512_digest(joined.as_slice())
}

/// Checks `password` against the verification hash of `header`.
pub fn verify_password(password: &[u8], header: &Header) -> (r: Result<(), DecryptError>)
    ensures
        password_hash_of(password@, header.salt@) == header.verifier@ ==> r is Ok,
        password_hash_of(password@, header.salt@) != header.verifier@ ==> r == Err::<(), DecryptError>(DecryptError::Authentication),
{
    let hash = password_hash(password, header.salt.as_slice());
    if bytes_equal(hash.as_slice(), header.verifier.as_slice()) {
        Ok(())
    } else {
        Err(DecryptError::Authentication)
    }
}

/// The decryption key: the first 32 bytes of the verification hash.
pub open spec fn key_of(verifier: Seq<u8>) -> Seq<u8> {
    verifier.take(KEY_LEN as int)
}

/// Decrypts the trailing checksum with a CBC stream of its own and removes
/// its padding, giving the expected content hash.
pub fn decrypt_checksum(key: &[u8], iv: &[u8], checksum: &[u8]) -> (r: Result<Vec<u8>, DecryptError>)
    requires
        key@.len() == KEY_LEN,
        iv@.len() == BLOCK_SIZE,
    ensures
        match cbc_pkcs7_of(key@, iv@, checksum@) {
            Some(e) => r is Ok && r->Ok_0@ == e,
            None => r == Err::<Vec<u8>, DecryptError>(DecryptError::Padding),
        },
        r is Ok ==> r->Ok_0@.len() < checksum@.len(),
{
    match cbc_decrypt_padded(key, iv, checksum) {
        Some(e) => Ok(e),
        None => Err(DecryptError::Padding),
    }
}

/// What a run on a container yields.
pub struct Decrypted {
    pub major: u8,
    pub minor: u8,
    /// The decrypted trailing checksum.
    pub expected: Vec<u8>,
    /// The SHA-1 of the recovered plaintext.
    pub computed: Vec<u8>,
    pub plaintext: Vec<u8>,
    /// Whether the two checksums agree; a mismatch is a warning only.
    pub checksum_matches: bool,
}

/// The password is accepted for the container `f`: verification is
/// overridden, or the password hashes to the stored verification hash.
pub open spec fn authenticated(f: Seq<u8>, password: Option<Seq<u8>>, override_password: bool) -> bool {
    override_password || (password is Some && password_hash_of(
        password->0,
        f.subrange(SALT_OFFSET as int, HASH_OFFSET as int),
    ) == f.subrange(HASH_OFFSET as int, DATA_OFFSET as int))
}

/// The outcome of decrypting `f`: an error, or the decrypted checksum and
/// the plaintext. The fixed header is checked first, then the password, and
/// only then the data region and trailing checksum.
pub open spec fn container_outcome(
    f: Seq<u8>,
    password: Option<Seq<u8>>,
    override_password: bool,
) -> Result<(Seq<u8>, Seq<u8>), DecryptError> {
    if header_error(f) is Some {
        Err(header_error(f)->0)
    } else if !authenticated(f, password, override_password) {
        Err(DecryptError::Authentication)
    } else if f.len() < MIN_CONTAINER_LEN {
        Err(DecryptError::Truncated)
    } else {
        let key = key_of(f.subrange(HASH_OFFSET as int, DATA_OFFSET as int));
        let iv = f.subrange(IV_OFFSET as int, SALT_OFFSET as int);
        match cbc_pkcs7_of(key, iv, checksum_of(f)) {
            None => Err(DecryptError::Padding),
            Some(expected) => match content_plain(key, iv, data_of(f)) {
                None => Err(DecryptError::Padding),
                Some(plain) => Ok((expected, plain)),
            },
        }
    }
}

/// `r` is what `o` describes.
pub open spec fn result_matches(
    r: Result<Decrypted, DecryptError>,
    o: Result<(Seq<u8>, Seq<u8>), DecryptError>,
) -> bool {
    match o {
        Err(e) => r == Err::<Decrypted, DecryptError>(e),
        Ok((expected, plain)) => {
            &&& r is Ok
            &&& r->Ok_0.expected@ == expected
            &&& r->Ok_0.plaintext@ == plain
            &&& r->Ok_0.computed@ == sha1_of(plain)
            &&& r->Ok_0.checksum_matches == (expected == sha1_of(plain))
        },
    }
}

/// The view of an optional password.
pub open spec fn password_view(password: Option<&[u8]>) -> Option<Seq<u8>> {
    match password {
        Some(p) => Some(p@),
        None => None,
    }
}

/// Decrypts the container `file`. Unless `override_password` is set, the
/// password must be given and must match the stored verification hash; the
/// key is the first 32 bytes of that hash either way.
pub fn decrypt_container(file: &[u8], password: Option<&[u8]>, override_password: bool) -> (r: Result<
    Decrypted,
    DecryptError,
>)
    ensures
        result_matches(r, container_outcome(file@, password_view(password), override_password)),
        r is Ok ==> r->Ok_0.major == SUPPORTED_MAJOR && r->Ok_0.minor == file@[MINOR_OFFSET as int],
        r is Ok ==> {
            let key = key_of(file@.subrange(HASH_OFFSET as int, DATA_OFFSET as int));
            let iv = file@.subrange(IV_OFFSET as int, SALT_OFFSET as int);
            &&& 1 <= final_pad(key, iv, data_of(file@)) <= BLOCK_SIZE
            &&& r->Ok_0.plaintext@.len() == data_of(file@).len() - final_pad(key, iv, data_of(file@))
        },
        r is Ok ==> r->Ok_0.computed@.len() == SHA1_LEN,
        r is Ok ==> r->Ok_0.expected@.len() < CHECKSUM_LEN,
        r is Ok ==> (r->Ok_0.checksum_matches <==> r->Ok_0.expected@ == r->Ok_0.computed@),
{
    let header = match parse_header(file) {
        Ok(h) => h,
        Err(e) => return Err(e),
    };
    if !override_password {
        match password {
            Some(p) => {
                if let Err(e) = verify_password(p, &header) {
                    return Err(e);
                }
            },
            None => return Err(DecryptError::Authentication),
        }
    }
    let body = match read_body(file) {
        Ok(b) => b,
        Err(e) => return Err(e),
    };
    let key = copy_range(header.verifier.as_slice(), 0, KEY_LEN);
    proof {
        assert(key@ =~= key_of(header.verifier@));
    }
    let expected = match decrypt_checksum(key.as_slice(), header.iv.as_slice(), body.checksum.as_slice()) {
        Ok(e) => e,
        Err(e) => return Err(e),
    };
    let plaintext = match decrypt_content(key.as_slice(), header.iv.as_slice(), body.data.as_slice()) {
        Some(p) => p,
        None => return Err(DecryptError::Padding),
    };
    let computed = sha1_digest(plaintext.as_slice());
    let checksum_matches = bytes_equal(expected.as_slice(), computed.as_slice());
    Ok(Decrypted { major: header.major, minor: header.minor, expected, computed, plaintext, checksum_matches })
}

/// Decides whether a run writes its output: never in a dry run; otherwise
/// only where the destination is absent or overwriting is forced.
pub fn plan_output(no_write: bool, force: bool, destination_exists: bool) -> (r: Result<bool, DecryptError>)
    ensures
        no_write ==> r == Ok::<bool, DecryptError>(false),
        !no_write && destination_exists && !force ==> r == Err::<bool, DecryptError>(DecryptError::DestinationExists),
        !no_write && (!destination_exists || force) ==> r == Ok::<bool, DecryptError>(true),
{
    if no_write {
        Ok(false)
    } else if destination_exists && !force {
        Err(DecryptError::DestinationExists)
    } else {
        Ok(true)
    }
}

} // verus!
