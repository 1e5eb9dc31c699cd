use aes::cipher::block_padding::{NoPadding, Pkcs7};
use aes::cipher::{BlockEncryptMut, KeyIvInit};
use digest::Digest;
use ezcrypt::container::{
    decrypt_checksum, decrypt_container, decrypt_content, parse_header, password_hash, read_body,
    plan_output, verify_password, DecryptError, CHUNK_SIZE, DATA_OFFSET, MIN_CONTAINER_LEN,
};
use ezcrypt::hex::hexstring;

const PASSWORD: &[u8] = b"correct horse";
const SALT: [u8; 16] = [7u8; 16];
const IV: [u8; 16] = [0x21u8; 16];

type Enc = cbc::Encryptor<aes::Aes256Enc>;

fn key_hash(password: &[u8], salt: &[u8]) -> Vec<u8> {
    let mut h = sha2::Sha512::new();
    h.update(password);
    h.update(salt);
    h.finalize().to_vec()
}

fn assemble(hash: &[u8], data: &[u8], checksum: &[u8]) -> Vec<u8> {
    let mut f = vec![0x45u8, 0x5a, 0x43, 2, 1];
    f.resize(0x43, 0);
    f.extend_from_slice(&IV);
    f.extend_from_slice(&SALT);
    f.extend_from_slice(hash);
    assert_eq!(f.len(), DATA_OFFSET);
    f.extend_from_slice(data);
    f.extend_from_slice(checksum);
    f
}

fn build_with_sum(plain: &[u8], sum: &[u8]) -> Vec<u8> {
    let hash = key_hash(PASSWORD, &SALT);
    let key = &hash[..32];
    let data = Enc::new_from_slices(key, &IV).unwrap().encrypt_padded_vec_mut::<Pkcs7>(plain);
    let cs = Enc::new_from_slices(key, &IV).unwrap().encrypt_padded_vec_mut::<Pkcs7>(sum);
    assemble(&hash, &data, &cs)
}

fn build(plain: &[u8]) -> Vec<u8> {
    let sum = sha1::Sha1::digest(plain).to_vec();
    build_with_sum(plain, &sum)
}

fn pattern(n: usize) -> Vec<u8> {
    (0..n).map(|i| (i * 31 + i / 7) as u8).collect()
}

#[test]
fn hello_world_round_trip() {
    let f = build(b"hello world");
    let r = decrypt_container(&f, Some(PASSWORD), false).unwrap();
    assert_eq!(r.plaintext, b"hello world".to_vec());
    assert_eq!(r.plaintext.len(), 11);
    assert_eq!(r.major, 2);
    assert_eq!(r.minor, 1);
    assert!(r.checksum_matches);
    assert_eq!(r.expected, r.computed);
    assert_eq!(hexstring(&r.computed), "2aae6c35c94fcfb415dbe95f408b9ce91ee846ed");
}

#[test]
fn output_length_is_data_minus_padding() {
    for n in [0usize, 1, 15, 16, 17, 100] {
        let f = build(&pattern(n));
        let data_len = f.len() - DATA_OFFSET - 32;
        let r = decrypt_container(&f, Some(PASSWORD), false).unwrap();
        let pad = 16 - n % 16;
        assert_eq!(r.plaintext.len(), data_len - pad);
        assert_eq!(r.plaintext, pattern(n));
        assert!(r.checksum_matches);
    }
}

#[test]
fn multi_chunk_round_trip() {
    for n in [CHUNK_SIZE - 1, CHUNK_SIZE, CHUNK_SIZE + 16, 2 * CHUNK_SIZE + 5, 300_000] {
        let plain = pattern(n);
        let f = build(&plain);
        let r = decrypt_container(&f, Some(PASSWORD), false).unwrap();
        assert_eq!(r.plaintext, plain);
        assert!(r.checksum_matches);
        assert_eq!(r.computed, sha1::Sha1::digest(&plain).to_vec());
    }
}

#[test]
fn decryption_is_deterministic() {
    let f = build(&pattern(200_000));
    let a = decrypt_container(&f, Some(PASSWORD), false).unwrap();
    let b = decrypt_container(&f, Some(PASSWORD), false).unwrap();
    assert_eq!(a.plaintext, b.plaintext);
    assert_eq!(a.computed, b.computed);
    assert_eq!(a.expected, b.expected);
}

#[test]
fn wrong_passwords_are_rejected() {
    let f = build(b"hello world");
    let wrong: [&[u8]; 6] = [b"", b"c", b"correct hors", b"correct horse ", b"Correct horse", &[0u8; 200]];
    for w in wrong {
        assert_eq!(decrypt_container(&f, Some(w), false).err(), Some(DecryptError::Authentication));
    }
    assert_eq!(decrypt_container(&f, None, false).err(), Some(DecryptError::Authentication));
}

#[test]
fn override_matches_verified_path() {
    let f = build(b"hello world");
    let good = decrypt_container(&f, Some(PASSWORD), false).unwrap();
    let over_none = decrypt_container(&f, None, true).unwrap();
    let over_wrong = decrypt_container(&f, Some(b"nope"), true).unwrap();
    assert_eq!(good.plaintext, over_none.plaintext);
    assert_eq!(good.plaintext, over_wrong.plaintext);
    assert!(over_none.checksum_matches);
}

#[test]
fn every_wrong_magic_byte_is_rejected() {
    let f = build(b"hello world");
    for pos in 0..3 {
        for v in 0..=255u8 {
            if v == f[pos] {
                continue;
            }
            let mut g = f.clone();
            g[pos] = v;
            assert_eq!(decrypt_container(&g, Some(PASSWORD), false).err(), Some(DecryptError::Format));
        }
    }
}

#[test]
fn every_other_major_version_is_rejected() {
    let f = build(b"hello world");
    for v in 0..=255u8 {
        if v == 2 {
            continue;
        }
        let mut g = f.clone();
        g[3] = v;
        assert_eq!(
            decrypt_container(&g, Some(PASSWORD), false).err(),
            Some(DecryptError::UnsupportedVersion { major: v, minor: 1 })
        );
    }
}

#[test]
fn truncated_files_are_rejected() {
    let f = build(b"hello world");
    assert_eq!(f.len(), MIN_CONTAINER_LEN);
    for n in 0..MIN_CONTAINER_LEN {
        assert_eq!(decrypt_container(&f[..n], Some(PASSWORD), true).err(), Some(DecryptError::Truncated));
    }
}

#[test]
fn password_is_checked_before_body_length() {
    let f = build(b"hello world");
    for n in [DATA_OFFSET, 0xC4, MIN_CONTAINER_LEN - 1] {
        assert_eq!(decrypt_container(&f[..n], Some(b"wrong"), false).err(), Some(DecryptError::Authentication));
        assert_eq!(decrypt_container(&f[..n], None, false).err(), Some(DecryptError::Authentication));
        assert_eq!(decrypt_container(&f[..n], Some(PASSWORD), false).err(), Some(DecryptError::Truncated));
    }
    for n in 5..DATA_OFFSET {
        assert_eq!(decrypt_container(&f[..n], Some(b"wrong"), false).err(), Some(DecryptError::Truncated));
    }
}

#[test]
fn misaligned_data_region_is_a_padding_error() {
    let hash = key_hash(PASSWORD, &SALT);
    let key = &hash[..32];
    let mut data = Enc::new_from_slices(key, &IV).unwrap().encrypt_padded_vec_mut::<Pkcs7>(b"hello world");
    data.push(0);
    let sum = sha1::Sha1::digest(b"hello world");
    let cs = Enc::new_from_slices(key, &IV).unwrap().encrypt_padded_vec_mut::<Pkcs7>(&sum);
    let f = assemble(&hash, &data, &cs);
    assert_eq!(decrypt_container(&f, Some(PASSWORD), false).err(), Some(DecryptError::Padding));
}

#[test]
fn malformed_checksum_padding_is_a_padding_error() {
    let hash = key_hash(PASSWORD, &SALT);
    let key = &hash[..32];
    let data = Enc::new_from_slices(key, &IV).unwrap().encrypt_padded_vec_mut::<Pkcs7>(b"hello world");
    let cs = Enc::new_from_slices(key, &IV).unwrap().encrypt_padded_vec_mut::<NoPadding>(&[0u8; 32]);
    let f = assemble(&hash, &data, &cs);
    assert_eq!(decrypt_container(&f, Some(PASSWORD), false).err(), Some(DecryptError::Padding));
}

#[test]
fn checksum_mismatch_is_reported_not_fatal() {
    let f = build_with_sum(b"hello world", &[0xaau8; 20]);
    let r = decrypt_container(&f, Some(PASSWORD), false).unwrap();
    assert_eq!(r.plaintext, b"hello world".to_vec());
    assert!(!r.checksum_matches);
    assert_eq!(r.expected, vec![0xaau8; 20]);
}

#[test]
fn existing_destination_blocks_unforced_run() {
    assert_eq!(plan_output(false, false, true), Err(DecryptError::DestinationExists));
    assert_eq!(plan_output(false, true, true), Ok(true));
    assert_eq!(plan_output(false, false, false), Ok(true));
}

#[test]
fn dry_run_checks_like_a_writing_run() {
    assert_eq!(plan_output(true, false, true), Ok(false));
    assert_eq!(plan_output(true, true, false), Ok(false));
    let good = build(b"hello world");
    let bad = build_with_sum(b"hello world", &[1u8; 20]);
    for f in [good, bad] {
        let a = decrypt_container(&f, Some(PASSWORD), false).unwrap();
        let b = decrypt_container(&f, Some(PASSWORD), false).unwrap();
        assert_eq!(a.checksum_matches, b.checksum_matches);
        assert_eq!(a.computed, b.computed);
    }
}

#[test]
fn header_fields_are_read_at_their_offsets() {
    let f = build(b"hello world");
    let h = parse_header(&f).unwrap();
    assert_eq!(h.iv, IV.to_vec());
    assert_eq!(h.salt, SALT.to_vec());
    assert_eq!(h.verifier, key_hash(PASSWORD, &SALT));
    let b = read_body(&f).unwrap();
    assert_eq!(b.data.len(), 16);
    assert_eq!(b.checksum.len(), 32);
    assert_eq!(read_body(&f[..MIN_CONTAINER_LEN - 1]).err(), Some(DecryptError::Truncated));
    assert_eq!(verify_password(PASSWORD, &h), Ok(()));
    assert_eq!(verify_password(b"x", &h), Err(DecryptError::Authentication));
}

#[test]
fn password_hash_is_sha512_of_password_then_salt() {
    let h = password_hash(b"ab", b"c");
    assert_eq!(
        hexstring(&h),
        "ddaf35a193617abacc417349ae20413112e6fa4e89a97ea20a9eeee64b55d39a2192992a274fc1a836ba3c23a3feebbd454d4423643ce80e2a9ac94fa54ca49f"
    );
}

#[test]
fn checksum_and_content_decrypt_independently() {
    let f = build(b"hello world");
    let h = parse_header(&f).unwrap();
    let key = &h.verifier[..32];
    let b = read_body(&f).unwrap();
    let sum = decrypt_checksum(key, &h.iv, &b.checksum).unwrap();
    assert_eq!(sum, sha1::Sha1::digest(b"hello world").to_vec());
    let plain = decrypt_content(key, &h.iv, &b.data).unwrap();
    assert_eq!(plain, b"hello world".to_vec());
    assert_eq!(decrypt_content(key, &h.iv, &[]), None);
}

#[test]
fn hexstring_renders_two_lower_case_digits_per_byte() {
    assert_eq!(hexstring(&[0x00, 0x0f, 0xab, 0xff, 0x10]), "000fabff10");
    assert_eq!(hexstring(&[]), "");
}
