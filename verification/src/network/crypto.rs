//! Group-channel cryptography: channel hashes (SHA-256), AES-128-ECB with
//! zero padding, and HMAC-SHA256 truncated to two bytes, arranged as
//! encrypt-then-MAC.
use vstd::prelude::*;
use crate::network::bufs::PayloadBuffer;
use crate::network::types::{DecodeError, EncodeError, BLOCK_SIZE, MAC_LEN, MAX_PAYLOAD_LEN};
use aes::cipher::{BlockCipherDecrypt, BlockCipherEncrypt, KeyInit};
use hmac::Mac;
use sha2::Digest;

verus! {

/// SHA-256 digest of a byte string.
pub uninterp spec fn sha256_digest(data: Seq<u8>) -> [u8; 32];

/// HMAC-SHA256 tag of `data` under `key`.
pub uninterp spec fn hmac_sha256_tag(key: Seq<u8>, data: Seq<u8>) -> [u8; 32];

/// AES-128 encryption of one 16-byte block under a 16-byte key.
pub uninterp spec fn aes128_encrypt_block(key: Seq<u8>, block: Seq<u8>) -> [u8; 16];

/// AES-128 decryption of one 16-byte block under a 16-byte key.
pub uninterp spec fn aes128_decrypt_block(key: Seq<u8>, block: Seq<u8>) -> [u8; 16];

/// `sha2::Sha256::digest`: the 32-byte SHA-256 digest of `data`.
#[verifier::external_body]
fn sha256(data: &[u8]) -> (d: [u8; 32])
    ensures
        d == sha256_digest(data@),
{
    sha2::Sha256::digest(data).into()
}

/// `hmac::Hmac<Sha256>`: keyed with `key` (HMAC accepts keys of every
/// length, so `new_from_slice` never fails), fed `data`, finalised into the
/// full 32-byte tag.
#[verifier::external_body]
fn hmac_sha256(key: &[u8], data: &[u8]) -> (t: [u8; 32])
    ensures
        t == hmac_sha256_tag(key@, data@),
{
    let mut mac = <hmac::Hmac<sha2::Sha256> as KeyInit>::new_from_slice(key).expect(
        "HMAC accepts keys of any length",
    );
    mac.update(data);
    mac.finalize().into_bytes().into()
}

/// `aes::Aes128::encrypt_block` on one block, with the cipher keyed by `key`.
#[verifier::external_body]
fn aes128_encrypt(key: &[u8; 16], block: [u8; 16]) -> (c: [u8; 16])
    ensures
        c == aes128_encrypt_block(key@, block@),
{
    let cipher = aes::Aes128::new(&aes::cipher::Array::from(*key));
    let mut b = aes::cipher::Array::from(block);
    cipher.encrypt_block(&mut b);
    b.into()
}

/// `aes::Aes128::decrypt_block` on one block, with the cipher keyed by `key`.
/// AES is a permutation of blocks for each key: decryption undoes
/// encryption, so a block that is the encryption of `x` decrypts to `x`.
#[verifier::external_body]
fn aes128_decrypt(key: &[u8; 16], block: [u8; 16]) -> (p: [u8; 16])
    ensures
        p == aes128_decrypt_block(key@, block@),
        forall|x: Seq<u8>|
            x.len() == 16 && (#[trigger] aes128_encrypt_block(key@, x))@ == block@ ==> p@ == x,
{
    let cipher = aes::Aes128::new(&aes::cipher::Array::from(*key));
    let mut b = aes::cipher::Array::from(block);
    cipher.decrypt_block(&mut b);
    b.into()
}

/// Length of the zero-padded plaintext: the next multiple of 16, and one
/// whole block for an empty plaintext.
pub open spec fn padded_len(n: nat) -> nat {
    if n == 0 {
        16
    } else {
        ((n + 15) / 16 * 16) as nat
    }
}

/// A plaintext followed by zero bytes up to `padded_len`.
pub open spec fn zero_pad(p: Seq<u8>) -> Seq<u8> {
    p + Seq::new((padded_len(p.len()) - p.len()) as nat, |i: int| 0u8)
}

/// AES-128-ECB encryption of whole 16-byte blocks, block by block.
pub open spec fn ecb_encrypt(key: Seq<u8>, data: Seq<u8>) -> Seq<u8>
    decreases data.len(),
{
    if data.len() < 16 {
        Seq::empty()
    } else {
        ecb_encrypt(key, data.subrange(0, data.len() - 16)) + aes128_encrypt_block(
            key,
            data.subrange(data.len() - 16, data.len() as int),
        )@
    }
}

/// AES-128-ECB decryption of whole 16-byte blocks, block by block.
pub open spec fn ecb_decrypt(key: Seq<u8>, data: Seq<u8>) -> Seq<u8>
    decreases data.len(),
{
    if data.len() < 16 {
        Seq::empty()
    } else {
        ecb_decrypt(key, data.subrange(0, data.len() - 16)) + aes128_decrypt_block(
            key,
            data.subrange(data.len() - 16, data.len() as int),
        )@
    }
}

/// The two-byte MAC of a ciphertext: the first bytes of its HMAC-SHA256 tag.
pub open spec fn mac_of(key: Seq<u8>, ciphertext: Seq<u8>) -> Seq<u8> {
    hmac_sha256_tag(key, ciphertext)@.subrange(0, 2)
}

/// ECB output has one block per whole input block.
pub proof fn lemma_ecb_encrypt_len(key: Seq<u8>, d: Seq<u8>)
    ensures
        ecb_encrypt(key, d).len() == d.len() / 16 * 16,
    decreases d.len(),
{
    if d.len() >= 16 {
        lemma_ecb_encrypt_len(key, d.subrange(0, d.len() - 16));
    }
}

/// ECB output has one block per whole input block.
pub proof fn lemma_ecb_decrypt_len(key: Seq<u8>, d: Seq<u8>)
    ensures
        ecb_decrypt(key, d).len() == d.len() / 16 * 16,
    decreases d.len(),
{
    if d.len() >= 16 {
        lemma_ecb_decrypt_len(key, d.subrange(0, d.len() - 16));
    }
}

/// Block `i / 16` of an ECB encryption is the encryption of block `i / 16`.
pub proof fn lemma_ecb_encrypt_block(key: Seq<u8>, d: Seq<u8>, i: int)
    requires
        d.len() % 16 == 0,
        i % 16 == 0,
        0 <= i,
        i + 16 <= d.len(),
    ensures
        ecb_encrypt(key, d).subrange(i, i + 16) == aes128_encrypt_block(
            key,
            d.subrange(i, i + 16),
        )@,
    decreases d.len(),
{
    let pre = d.subrange(0, d.len() - 16);
    lemma_ecb_encrypt_len(key, pre);
    if i + 16 == d.len() {
        assert(ecb_encrypt(key, d).subrange(i, i + 16) =~= aes128_encrypt_block(
            key,
            d.subrange(i, i + 16),
        )@);
    } else {
        lemma_ecb_encrypt_block(key, pre, i);
        assert(pre.subrange(i, i + 16) =~= d.subrange(i, i + 16));
        assert(ecb_encrypt(key, d).subrange(i, i + 16) =~= ecb_encrypt(key, pre).subrange(
            i,
            i + 16,
        ));
    }
}

/// Encrypting one more block appends its encryption.
pub proof fn lemma_ecb_encrypt_step(key: Seq<u8>, d: Seq<u8>, i: int)
    requires
        0 <= i,
        i % 16 == 0,
        i + 16 <= d.len(),
    ensures
        ecb_encrypt(key, d.subrange(0, i + 16)) == ecb_encrypt(key, d.subrange(0, i))
            + aes128_encrypt_block(key, d.subrange(i, i + 16))@,
{
    let e = d.subrange(0, i + 16);
    assert(e.subrange(0, e.len() - 16) =~= d.subrange(0, i));
    assert(e.subrange(e.len() - 16, e.len() as int) =~= d.subrange(i, i + 16));
}

/// Decrypting one more block appends its decryption.
pub proof fn lemma_ecb_decrypt_step(key: Seq<u8>, d: Seq<u8>, i: int)
    requires
        0 <= i,
        i % 16 == 0,
        i + 16 <= d.len(),
    ensures
        ecb_decrypt(key, d.subrange(0, i + 16)) == ecb_decrypt(key, d.subrange(0, i))
            + aes128_decrypt_block(key, d.subrange(i, i + 16))@,
{
    let e = d.subrange(0, i + 16);
    assert(e.subrange(0, e.len() - 16) =~= d.subrange(0, i));
    assert(e.subrange(e.len() - 16, e.len() as int) =~= d.subrange(i, i + 16));
}

/// First byte of SHA-256 of the channel key: how MeshCore identifies the
/// channel a group packet belongs to.
pub fn channel_hash(key: &[u8]) -> (h: u8)
    ensures
        h == sha256_digest(key@)@[0],
{
    let d = sha256(key);
    d[0]
}

/// Encrypt `plaintext`, zero-padded to whole blocks (an empty plaintext
/// becomes one block of zeros), with AES-128-ECB into `out`, replacing what
/// it held. Fails when the padded plaintext exceeds a payload; `out` then
/// holds the eleven blocks that fitted.
pub fn aes128_ecb_encrypt_zero_padded(key: &[u8; 16], plaintext: &[u8], out: &mut PayloadBuffer) -> (r:
    Result<(), EncodeError>)
    ensures
        padded_len(plaintext@.len()) <= MAX_PAYLOAD_LEN <==> r is Ok,
        r is Ok ==> final(out)@ == ecb_encrypt(key@, zero_pad(plaintext@)),
        r matches Err(e) ==> e == EncodeError::PayloadTooLong && final(out)@ == ecb_encrypt(
            key@,
            zero_pad(plaintext@).subrange(0, 176),
        ),
{
    out.clear();
    let n = plaintext.len();
    let m: usize = if n == 0 {
        1
    } else {
        n
    };
    let ghost zp = zero_pad(plaintext@);
    let ghost pl = padded_len(n as nat);
    assert(pl % 16 == 0 && pl >= m && pl < m + 16);
    assert(zp.len() == pl);
    let mut i: usize = 0;
    assert(zp.subrange(0, 0) =~= Seq::<u8>::empty());
    while i < m
        invariant
            n == plaintext@.len(),
            m == if n == 0 {
                1
            } else {
                n
            },
            zp == zero_pad(plaintext@),
            pl == padded_len(n as nat),
            zp.len() == pl,
            pl % 16 == 0 && pl >= m && pl < m + 16,
            i % 16 == 0,
            i <= pl,
            i <= 176,
            out@.len() == i,
            out@ == ecb_encrypt(key@, zp.subrange(0, i as int)),
        decreases 200 - i,
    {
        let end: usize = if i + BLOCK_SIZE < n {
            i + BLOCK_SIZE
        } else {
            n
        };
        let mut block = [0u8; 16];
        let mut j: usize = 0;
        while i + j < end
            invariant
                n == plaintext@.len(),
                i < m,
                i + 16 <= pl,
                zp == zero_pad(plaintext@),
                end <= n,
                end <= i + 16,
                i + j <= end || j == 0,
                j <= 16,
                forall|k: int| 0 <= k < j ==> block@[k] == plaintext@[i + k],
                forall|k: int| j <= k < 16 ==> block@[k] == 0,
            decreases end - i - j,
        {
            block[j] = plaintext[i + j];
            j = j + 1;
        }
        assert(block@ =~= zp.subrange(i as int, i + 16)) by {
            assert forall|k: int| 0 <= k < 16 implies block@[k] == zp[i + k] by {
                if i + k < n {
                    assert(k < j);
                } else {
                    assert(k >= j);
                }
            }
        }
        let c = aes128_encrypt(key, block);
        proof {
            lemma_ecb_encrypt_step(key@, zp, i as int);
        }
        if out.extend_from_slice(&c).is_err() {
            assert(i == 176);
            return Err(EncodeError::PayloadTooLong);
        }
        i = i + BLOCK_SIZE;
    }
    assert(i == pl);
    assert(zp.subrange(0, i as int) =~= zp);
    Ok(())
}

/// Decrypt whole AES-128-ECB blocks into `out`, replacing what it held.
/// Fails with `TooShort` on an empty ciphertext or one that is not whole
/// blocks (leaving `out` alone), and with `PayloadTooLong` when the result
/// exceeds a payload (`out` then holds the eleven blocks that fitted). A ciphertext that is the ECB encryption of `d`
/// decrypts to `d`.
pub fn aes128_ecb_decrypt(key: &[u8; 16], ciphertext: &[u8], out: &mut PayloadBuffer) -> (r:
    Result<(), DecodeError>)
    ensures
        (ciphertext@.len() == 0 || ciphertext@.len() % 16 != 0) ==> r == Err::<(), DecodeError>(
            DecodeError::TooShort,
        ) && final(out)@ == old(out)@,
        (ciphertext@.len() != 0 && ciphertext@.len() % 16 == 0) ==> (ciphertext@.len()
            <= MAX_PAYLOAD_LEN <==> r is Ok),
        (ciphertext@.len() % 16 == 0 && ciphertext@.len() > MAX_PAYLOAD_LEN) ==> r == Err::<
            (),
            DecodeError,
        >(DecodeError::PayloadTooLong),
        r is Ok ==> final(out)@ == ecb_decrypt(key@, ciphertext@),
        r is Ok ==> forall|d: Seq<u8>|
            d.len() == ciphertext@.len() && #[trigger] ecb_encrypt(key@, d) == ciphertext@
                ==> final(out)@ == d,
        r matches Err(e) ==> e == DecodeError::TooShort || e == DecodeError::PayloadTooLong,
        r == Err::<(), DecodeError>(DecodeError::TooShort) <==> (ciphertext@.len() == 0
            || ciphertext@.len() % 16 != 0),
        r == Err::<(), DecodeError>(DecodeError::PayloadTooLong) ==> final(out)@ == ecb_decrypt(
            key@,
            ciphertext@.subrange(0, 176),
        ),
{
    let n = ciphertext.len();
    if n == 0 || n % BLOCK_SIZE != 0 {
        return Err(DecodeError::TooShort);
    }
    out.clear();
    let mut i: usize = 0;
    assert(ciphertext@.subrange(0, 0) =~= Seq::<u8>::empty());
    while i < n
        invariant
            n == ciphertext@.len(),
            n % 16 == 0,
            i % 16 == 0,
            i <= n,
            i <= 176,
            out@.len() == i,
            out@ == ecb_decrypt(key@, ciphertext@.subrange(0, i as int)),
            forall|d: Seq<u8>|
                d.len() == n && #[trigger] ecb_encrypt(key@, d) == ciphertext@ ==> out@
                    == d.subrange(0, i as int),
        decreases n - i,
    {
        let mut block = [0u8; 16];
        let mut j: usize = 0;
        while j < 16
            invariant
                n == ciphertext@.len(),
                i + 16 <= n,
                j <= 16,
                forall|k: int| 0 <= k < j ==> block@[k] == ciphertext@[i + k],
            decreases 16 - j,
        {
            block[j] = ciphertext[i + j];
            j = j + 1;
        }
        assert(block@ =~= ciphertext@.subrange(i as int, i + 16));
        let p = aes128_decrypt(key, block);
        proof {
            lemma_ecb_decrypt_step(key@, ciphertext@, i as int);
        }
        let ghost before = out@;
        if out.extend_from_slice(&p).is_err() {
            return Err(DecodeError::PayloadTooLong);
        }
        proof {
            assert forall|d: Seq<u8>|
                d.len() == n && #[trigger] ecb_encrypt(key@, d) == ciphertext@ implies out@
                    == d.subrange(0, i + 16) by {
                lemma_ecb_encrypt_block(key@, d, i as int);
                let x = d.subrange(i as int, i + 16);
                assert(aes128_encrypt_block(key@, x)@ == block@);
                assert(p@ == x);
                assert(d.subrange(0, i + 16) =~= d.subrange(0, i as int) + x);
            }
        }
        i = i + BLOCK_SIZE;
    }
    assert(ciphertext@.subrange(0, n as int) =~= ciphertext@);
    proof {
        assert forall|d: Seq<u8>|
            d.len() == n && #[trigger] ecb_encrypt(key@, d) == ciphertext@ implies out@ == d by {
            assert(d.subrange(0, n as int) =~= d);
        }
    }
    Ok(())
}

/// The two-byte MAC of a ciphertext: HMAC-SHA256 under `key`, truncated.
pub fn compute_mac(key: &[u8], ciphertext: &[u8]) -> (m: [u8; 2])
    ensures
        m@ == mac_of(key@, ciphertext@),
{
    let full = hmac_sha256(key, ciphertext);
    let m: [u8; 2] = [full[0], full[1]];
    assert(m@ =~= mac_of(key@, ciphertext@));
    m
}

/// Encrypt the zero-padded plaintext into `ciphertext_out`, then MAC the
/// ciphertext; returns the MAC. Fails as the encryption does.
pub fn encrypt_then_mac(key: &[u8; 16], plaintext: &[u8], ciphertext_out: &mut PayloadBuffer) -> (r:
    Result<[u8; 2], EncodeError>)
    ensures
        padded_len(plaintext@.len()) <= MAX_PAYLOAD_LEN <==> r is Ok,
        r matches Ok(m) ==> final(ciphertext_out)@ == ecb_encrypt(key@, zero_pad(plaintext@))
            && m@ == mac_of(key@, final(ciphertext_out)@),
        r matches Err(e) ==> e == EncodeError::PayloadTooLong,
{
    aes128_ecb_encrypt_zero_padded(key, plaintext, ciphertext_out)?;
    Ok(compute_mac(key, ciphertext_out.as_slice()))
}

/// Check the MAC of the ciphertext, then decrypt it into `plaintext_out`.
/// A wrong MAC fails with `MacMismatch` before anything is decrypted;
/// otherwise the result is that of the decryption. A ciphertext and MAC
/// made by `encrypt_then_mac` from `p` under the same key decrypt to `p`
/// zero-padded.
pub fn mac_then_decrypt(
    key: &[u8; 16],
    expected_mac: [u8; 2],
    ciphertext: &[u8],
    plaintext_out: &mut PayloadBuffer,
) -> (r: Result<(), DecodeError>)
    ensures
        expected_mac@ != mac_of(key@, ciphertext@) ==> r == Err::<(), DecodeError>(
            DecodeError::MacMismatch,
        ) && final(plaintext_out)@ == old(plaintext_out)@,
        expected_mac@ == mac_of(key@, ciphertext@) ==> {
            &&& (ciphertext@.len() == 0 || ciphertext@.len() % 16 != 0) ==> r == Err::<
                (),
                DecodeError,
            >(DecodeError::TooShort)
            &&& (ciphertext@.len() != 0 && ciphertext@.len() % 16 == 0) ==> (ciphertext@.len()
                <= MAX_PAYLOAD_LEN <==> r is Ok)
            &&& (ciphertext@.len() % 16 == 0 && ciphertext@.len() > MAX_PAYLOAD_LEN) ==> r
                == Err::<(), DecodeError>(DecodeError::PayloadTooLong)
        },
        r is Ok ==> final(plaintext_out)@ == ecb_decrypt(key@, ciphertext@),
        r == Err::<(), DecodeError>(DecodeError::TooShort) ==> final(plaintext_out)@ == old(
            plaintext_out,
        )@,
        r == Err::<(), DecodeError>(DecodeError::PayloadTooLong) ==> final(plaintext_out)@
            == ecb_decrypt(key@, ciphertext@.subrange(0, 176)),
        forall|p: Seq<u8>|
            padded_len(p.len()) <= MAX_PAYLOAD_LEN && #[trigger] ecb_encrypt(key@, zero_pad(p))
                == ciphertext@ && expected_mac@ == mac_of(key@, ciphertext@) ==> r is Ok
                && final(plaintext_out)@ == zero_pad(p),
{
    let m = compute_mac(key, ciphertext);
    if m[0] != expected_mac[0] || m[1] != expected_mac[1] {
        assert(m@ != expected_mac@) by {
            if m@ == expected_mac@ {
                assert(m@[0] == expected_mac@[0]);
                assert(m@[1] == expected_mac@[1]);
            }
        }
        return Err(DecodeError::MacMismatch);
    }
    assert(m@ =~= expected_mac@);
    let r = aes128_ecb_decrypt(key, ciphertext, plaintext_out);
    proof {
        assert forall|p: Seq<u8>|
            padded_len(p.len()) <= MAX_PAYLOAD_LEN && #[trigger] ecb_encrypt(key@, zero_pad(p))
                == ciphertext@ && expected_mac@ == mac_of(key@, ciphertext@) implies r is Ok
                && final(plaintext_out)@ == zero_pad(p) by {
            let d = zero_pad(p);
            assert(d.len() == padded_len(p.len()));
            lemma_ecb_encrypt_len(key@, d);
            assert(d.len() % 16 == 0);
            assert(ciphertext@.len() == d.len());
        }
    }
    r
}

} // verus!
