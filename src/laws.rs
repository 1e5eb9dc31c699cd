//! Properties of container decryption that relate several runs or hold of
//! every input.

use vstd::prelude::*;

use crate::container::{
    authenticated, container_outcome, header_error, magic_ok, password_hash_of, result_matches, DecryptError,
    Decrypted, DATA_OFFSET, HASH_OFFSET, MAJOR_OFFSET, MINOR_OFFSET, MIN_CONTAINER_LEN,
    SALT_OFFSET, SUPPORTED_MAJOR,
};

verus! {

/// Decryption is deterministic: two runs on the same container with the
/// same password and override setting fail alike or yield the same
/// plaintext, checksums and verdict.
pub proof fn lemma_decryption_deterministic(
    f: Seq<u8>,
    password: Option<Seq<u8>>,
    override_password: bool,
    r1: Result<Decrypted, DecryptError>,
    r2: Result<Decrypted, DecryptError>,
)
    requires
        result_matches(r1, container_outcome(f, password, override_password)),
        result_matches(r2, container_outcome(f, password, override_password)),
    ensures
        r1 is Ok <==> r2 is Ok,
        r1 is Err ==> r1 == r2,
        r1 is Ok ==> {
            &&& r1->Ok_0.plaintext@ == r2->Ok_0.plaintext@
            &&& r1->Ok_0.expected@ == r2->Ok_0.expected@
            &&& r1->Ok_0.computed@ == r2->Ok_0.computed@
            &&& r1->Ok_0.checksum_matches == r2->Ok_0.checksum_matches
        },
{
}

/// Without the override, a well-formed container with a password that does
/// not hash to its verification hash, or with no password, is refused
/// before anything is decrypted.
pub proof fn lemma_wrong_password_rejected(f: Seq<u8>, password: Option<Seq<u8>>)
    requires
        header_error(f) is None,
        password is Some ==> password_hash_of(
            password->0,
            f.subrange(SALT_OFFSET as int, HASH_OFFSET as int),
        ) != f.subrange(HASH_OFFSET as int, DATA_OFFSET as int),
    ensures
        container_outcome(f, password, false) == Err::<(Seq<u8>, Seq<u8>), DecryptError>(
            DecryptError::Authentication,
        ),
{
}

/// With a correct password, overriding verification changes nothing, and
/// neither does leaving the password out under the override.
pub proof fn lemma_override_agrees(f: Seq<u8>, password: Seq<u8>)
    requires
        password_hash_of(password, f.subrange(SALT_OFFSET as int, HASH_OFFSET as int)) == f.subrange(
            HASH_OFFSET as int,
            DATA_OFFSET as int,
        ),
    ensures
        container_outcome(f, Some(password), true) == container_outcome(f, Some(password), false),
        container_outcome(f, None, true) == container_outcome(f, Some(password), false),
{
}

/// A container whose magic signature differs in any byte is refused as not
/// being a container, whatever the password.
pub proof fn lemma_bad_magic_rejected(f: Seq<u8>, password: Option<Seq<u8>>, override_password: bool)
    requires
        f.len() > MINOR_OFFSET,
        !magic_ok(f),
    ensures
        container_outcome(f, password, override_password) == Err::<(Seq<u8>, Seq<u8>), DecryptError>(
            DecryptError::Format,
        ),
{
}

/// A container of any major version but the supported one is refused, with
/// its version reported.
pub proof fn lemma_unsupported_version_rejected(
    f: Seq<u8>,
    password: Option<Seq<u8>>,
    override_password: bool,
)
    requires
        f.len() > MINOR_OFFSET,
        magic_ok(f),
        f[MAJOR_OFFSET as int] != SUPPORTED_MAJOR,
    ensures
        container_outcome(f, password, override_password) == Err::<(Seq<u8>, Seq<u8>), DecryptError>(
            DecryptError::UnsupportedVersion {
                major: f[MAJOR_OFFSET as int],
                minor: f[MINOR_OFFSET as int],
            },
        ),
{
}

/// A container that ends within its fixed header is refused as truncated,
/// whatever the password.
pub proof fn lemma_truncated_header_rejected(
    f: Seq<u8>,
    password: Option<Seq<u8>>,
    override_password: bool,
)
    requires
        f.len() <= MINOR_OFFSET || (magic_ok(f) && f[MAJOR_OFFSET as int] == SUPPORTED_MAJOR
            && f.len() < DATA_OFFSET),
    ensures
        container_outcome(f, password, override_password) == Err::<(Seq<u8>, Seq<u8>), DecryptError>(
            DecryptError::Truncated,
        ),
{
}

/// A container whose fixed header is whole but which ends before a data
/// region of one block and the trailing checksum is refused as truncated
/// once the password is accepted or verification overridden.
pub proof fn lemma_truncated_body_rejected(
    f: Seq<u8>,
    password: Option<Seq<u8>>,
    override_password: bool,
)
    requires
        header_error(f) is None,
        authenticated(f, password, override_password),
        f.len() < MIN_CONTAINER_LEN,
    ensures
        container_outcome(f, password, override_password) == Err::<(Seq<u8>, Seq<u8>), DecryptError>(
            DecryptError::Truncated,
        ),
{
}

} // verus!
