use vstd::prelude::*;

use crate::cipher::{aead_open, aead_seal, record_opens};
use crate::engine::copy_range;
use crate::errors::{AccessError, StoreError};

verus! {

/// The eight little-endian bytes of a 64-bit length or chunk size.
pub open spec fn le8_spec(n: u64) -> Seq<u8> {
    seq![
        (n & 0xff) as u8,
        ((n >> 8u64) & 0xff) as u8,
        ((n >> 16u64) & 0xff) as u8,
        ((n >> 24u64) & 0xff) as u8,
        ((n >> 32u64) & 0xff) as u8,
        ((n >> 40u64) & 0xff) as u8,
        ((n >> 48u64) & 0xff) as u8,
        ((n >> 56u64) & 0xff) as u8,
    ]
}

/// The 64-bit value eight little-endian bytes denote.
pub open spec fn le8_val(s: Seq<u8>) -> u64 {
    (s[0] as u64) | ((s[1] as u64) << 8u64) | ((s[2] as u64) << 16u64) | ((s[3] as u64) << 24u64)
        | ((s[4] as u64) << 32u64) | ((s[5] as u64) << 40u64) | ((s[6] as u64) << 48u64) | ((
    s[7] as u64) << 56u64)
}

/// Reading back the eight little-endian bytes of `n` yields `n`.
pub proof fn lemma_le8_round_trip(n: u64)
    ensures
        le8_val(le8_spec(n)) == n,
{
    assert((((n & 0xff) as u8 as u64) | ((((n >> 8u64) & 0xff) as u8 as u64) << 8u64) | ((((n
        >> 16u64) & 0xff) as u8 as u64) << 16u64) | ((((n >> 24u64) & 0xff) as u8 as u64)
        << 24u64) | ((((n >> 32u64) & 0xff) as u8 as u64) << 32u64) | ((((n >> 40u64)
        & 0xff) as u8 as u64) << 40u64) | ((((n >> 48u64) & 0xff) as u8 as u64) << 48u64) | ((((n
        >> 56u64) & 0xff) as u8 as u64) << 56u64)) == n) by (bit_vector);
}

/// Re-encryption key material bound to one file's symmetric key: the
/// owner's re-encryption secret, the capsule encapsulating the key the
/// wrapped file key was sealed under, the wrapped symmetric file key
/// itself, and the chunk size the artifact was sealed with.
#[derive(Clone, Debug, PartialEq, Eq)]
pub struct RecryptionKeys {
    pub owner_secret: Vec<u8>,
    pub capsule: Vec<u8>,
    pub wrapped_key: Vec<u8>,
    pub chunk_size: u64,
}

/// One immutable key store record: the gating token's mint and the
/// re-encryption key material for one file.
#[derive(Clone, Debug, PartialEq, Eq)]
pub struct KeyStoreRecord {
    pub mint: Vec<u8>,
    pub recryption_keys: RecryptionKeys,
}

/// The canonical byte encoding of a record: every variable-length field is
/// preceded by its 64-bit little-endian length, and the chunk size closes
/// the record.
pub open spec fn record_bytes(
    mint: Seq<u8>,
    owner_secret: Seq<u8>,
    capsule: Seq<u8>,
    wrapped_key: Seq<u8>,
    chunk_size: u64,
) -> Seq<u8> {
    le8_spec(mint.len() as u64) + mint + le8_spec(owner_secret.len() as u64) + owner_secret
        + le8_spec(capsule.len() as u64) + capsule + le8_spec(wrapped_key.len() as u64)
        + wrapped_key + le8_spec(chunk_size)
}

impl KeyStoreRecord {
    /// The canonical encoding of this record.
    pub open spec fn enc(self) -> Seq<u8> {
        record_bytes(
            self.mint@,
            self.recryption_keys.owner_secret@,
            self.recryption_keys.capsule@,
            self.recryption_keys.wrapped_key@,
            self.recryption_keys.chunk_size,
        )
    }

    /// The record fits into one sealing operation.
    pub open spec fn size_ok(self) -> bool {
        self.mint@.len() + self.recryption_keys.owner_secret@.len()
            + self.recryption_keys.capsule@.len() + self.recryption_keys.wrapped_key@.len()
            <= 0x3FFF_FFD8
    }
}

/// The length-prefixed field starting at `pos`, and the position after it.
pub open spec fn field_at(b: Seq<u8>, pos: int) -> Option<(Seq<u8>, int)> {
    if pos + 8 > b.len() {
        None
    } else {
        let l = le8_val(b.subrange(pos, pos + 8)) as int;
        if pos + 8 + l > b.len() {
            None
        } else {
            Some((b.subrange(pos + 8, pos + 8 + l), pos + 8 + l))
        }
    }
}

/// What the canonical record decoder yields on arbitrary bytes: the four
/// fields and the chunk size, or nothing if the bytes are not a record
/// encoding consumed exactly to its end.
pub open spec fn parse_record(b: Seq<u8>) -> Option<(Seq<u8>, Seq<u8>, Seq<u8>, Seq<u8>, u64)> {
    match field_at(b, 0) {
        None => None,
        Some((mint, p1)) => match field_at(b, p1) {
            None => None,
            Some((os, p2)) => match field_at(b, p2) {
                None => None,
                Some((cap, p3)) => match field_at(b, p3) {
                    None => None,
                    Some((wk, p4)) => if p4 + 8 == b.len() {
                        Some((mint, os, cap, wk, le8_val(b.subrange(p4, p4 + 8))))
                    } else {
                        None
                    },
                },
            },
        },
    }
}

/// Appends the eight little-endian bytes of `n`.
fn write_le8(out: &mut Vec<u8>, n: u64)
    ensures
        final(out)@ == old(out)@ + le8_spec(n),
{
    out.push((n & 0xff) as u8);
    out.push(((n >> 8u64) & 0xff) as u8);
    out.push(((n >> 16u64) & 0xff) as u8);
    out.push(((n >> 24u64) & 0xff) as u8);
    out.push(((n >> 32u64) & 0xff) as u8);
    out.push(((n >> 40u64) & 0xff) as u8);
    out.push(((n >> 48u64) & 0xff) as u8);
    out.push(((n >> 56u64) & 0xff) as u8);
    proof {
        assert(out@ =~= old(out)@ + le8_spec(n));
    }
}

/// Appends a copy of `src`.
fn push_bytes(out: &mut Vec<u8>, src: &Vec<u8>)
    ensures
        final(out)@ == old(out)@ + src@,
{
    let mut j: usize = 0;
    while j < src.len()
        invariant
            j <= src@.len(),
            out@.len() == old(out)@.len() + j,
            forall|k: int| 0 <= k < old(out)@.len() ==> #[trigger] out@[k] == old(out)@[k],
            forall|k: int|
                0 <= k < j ==> #[trigger] out@[old(out)@.len() + k] == src@[k],
        decreases src@.len() - j,
    {
        let b = src[j];
        out.push(b);
        j += 1;
    }
    proof {
        assert forall|m: int| old(out)@.len() <= m < out@.len() implies out@[m] == src@[m - old(
            out,
        )@.len()] by {
            assert(out@[old(out)@.len() + (m - old(out)@.len())] == src@[m - old(out)@.len()]);
        }
        assert(out@ =~= old(out)@ + src@);
    }
}

/// Reads the 64-bit little-endian value at `pos`.
fn read_le8(b: &Vec<u8>, pos: usize) -> (r: u64)
    requires
        pos + 8 <= b@.len(),
    ensures
        r == le8_val(b@.subrange(pos as int, pos as int + 8)),
{
    let n = b.len();
    let r = (b[pos] as u64) | ((b[pos + 1] as u64) << 8u64) | ((b[pos + 2] as u64) << 16u64) | ((
    b[pos + 3] as u64) << 24u64) | ((b[pos + 4] as u64) << 32u64) | ((b[pos + 5] as u64)
        << 40u64) | ((b[pos + 6] as u64) << 48u64) | ((b[pos + 7] as u64) << 56u64);
    r
}

/// Reads the length-prefixed field at `pos`.
fn read_field(b: &Vec<u8>, pos: usize) -> (r: Option<(Vec<u8>, usize)>)
    requires
        pos <= b@.len(),
    ensures
        r matches Some(f) ==> (field_at(b@, pos as int) matches Some(g) && g.0 == f.0@ && g.1
            == f.1 && pos < f.1 <= b@.len()),
        r is None ==> field_at(b@, pos as int) is None,
{
    if b.len() - pos < 8 {
        return None;
    }
    let l = read_le8(b, pos);
    let rem = (b.len() - pos - 8) as u64;
    if l > rem {
        return None;
    }
    let flen = l as usize;
    let start = pos + 8;
    let endp = start + flen;
    let field = copy_range(b, start, endp);
    Some((field, endp))
}

/// Encodes a record canonically.
pub fn encode_record(rec: &KeyStoreRecord) -> (r: Vec<u8>)
    ensures
        r@ == rec.enc(),
{
    let mut out: Vec<u8> = Vec::new();
    write_le8(&mut out, rec.mint.len() as u64);
    push_bytes(&mut out, &rec.mint);
    write_le8(&mut out, rec.recryption_keys.owner_secret.len() as u64);
    push_bytes(&mut out, &rec.recryption_keys.owner_secret);
    write_le8(&mut out, rec.recryption_keys.capsule.len() as u64);
    push_bytes(&mut out, &rec.recryption_keys.capsule);
    write_le8(&mut out, rec.recryption_keys.wrapped_key.len() as u64);
    push_bytes(&mut out, &rec.recryption_keys.wrapped_key);
    write_le8(&mut out, rec.recryption_keys.chunk_size);
    out
}

/// Decodes the canonical record encoding; bytes that are not exactly one
/// record yield nothing.
pub fn decode_record(b: &Vec<u8>) -> (r: Option<KeyStoreRecord>)
    ensures
        r matches Some(rec) ==> parse_record(b@) == Some(
            (
                rec.mint@,
                rec.recryption_keys.owner_secret@,
                rec.recryption_keys.capsule@,
                rec.recryption_keys.wrapped_key@,
                rec.recryption_keys.chunk_size,
            ),
        ),
        r is None ==> parse_record(b@) is None,
{
    let (mint, p1) = match read_field(b, 0) {
        Some(f) => f,
        None => {
            return None;
        },
    };
    let (owner_secret, p2) = match read_field(b, p1) {
        Some(f) => f,
        None => {
            return None;
        },
    };
    let (capsule, p3) = match read_field(b, p2) {
        Some(f) => f,
        None => {
            return None;
        },
    };
    let (wrapped_key, p4) = match read_field(b, p3) {
        Some(f) => f,
        None => {
            return None;
        },
    };
    if b.len() - p4 != 8 {
        return None;
    }
    let chunk_size = read_le8(b, p4);
    Some(
        KeyStoreRecord {
            mint,
            recryption_keys: RecryptionKeys { owner_secret, capsule, wrapped_key, chunk_size },
        },
    )
}

/// Round trip of the canonical record encoding: decoding what was encoded
/// yields exactly the encoded fields, for every record.
#[verifier::rlimit(100)]
pub proof fn lemma_record_round_trip(
    mint: Seq<u8>,
    os: Seq<u8>,
    cap: Seq<u8>,
    wk: Seq<u8>,
    cs: u64,
)
    requires
        mint.len() < 0x1_0000_0000_0000_0000,
        os.len() < 0x1_0000_0000_0000_0000,
        cap.len() < 0x1_0000_0000_0000_0000,
        wk.len() < 0x1_0000_0000_0000_0000,
    ensures
        parse_record(record_bytes(mint, os, cap, wk, cs)) == Some((mint, os, cap, wk, cs)),
{
    let b = record_bytes(mint, os, cap, wk, cs);
    let l0 = mint.len() as int;
    let l1 = os.len() as int;
    let l2 = cap.len() as int;
    let l3 = wk.len() as int;
    let p1 = 8 + l0;
    let p2 = p1 + 8 + l1;
    let p3 = p2 + 8 + l2;
    let p4 = p3 + 8 + l3;
    assert(b.len() == p4 + 8);
    lemma_le8_round_trip(mint.len() as u64);
    lemma_le8_round_trip(os.len() as u64);
    lemma_le8_round_trip(cap.len() as u64);
    lemma_le8_round_trip(wk.len() as u64);
    lemma_le8_round_trip(cs);
    assert(b.subrange(0, 8) =~= le8_spec(mint.len() as u64));
    assert(b.subrange(8, p1) =~= mint);
    assert(field_at(b, 0) == Some((mint, p1)));
    assert(b.subrange(p1, p1 + 8) =~= le8_spec(os.len() as u64));
    assert(b.subrange(p1 + 8, p2) =~= os);
    assert(field_at(b, p1) == Some((os, p2)));
    assert(b.subrange(p2, p2 + 8) =~= le8_spec(cap.len() as u64));
    assert(b.subrange(p2 + 8, p3) =~= cap);
    assert(field_at(b, p2) == Some((cap, p3)));
    assert(b.subrange(p3, p3 + 8) =~= le8_spec(wk.len() as u64));
    assert(b.subrange(p3 + 8, p4) =~= wk);
    assert(field_at(b, p3) == Some((wk, p4)));
    assert(b.subrange(p4, p4 + 8) =~= le8_spec(cs));
}

/// Key store protocol: canonically encodes `{mint, recryption_keys}` and
/// authenticated-encrypts the encoding under the service secret.  The
/// sealing is committing: altering any bit of the sealed bytes makes
/// `open_record` fail rather than yield different fields.  Persisting the
/// sealed bytes, and the content identifier assigned to them, belong to the
/// external content-addressed store.
pub fn store(mint: Vec<u8>, recryption_keys: RecryptionKeys, service_secret: &Vec<u8>) -> (r:
    Result<Vec<u8>, StoreError>)
    requires
        service_secret@.len() == 32,
    ensures
        r matches Ok(ct) ==> record_opens(service_secret@, ct@) == Some(
            record_bytes(
                mint@,
                recryption_keys.owner_secret@,
                recryption_keys.capsule@,
                recryption_keys.wrapped_key@,
                recryption_keys.chunk_size,
            ),
        ),
        r is Err ==> r == Err::<Vec<u8>, StoreError>(StoreError::SerializationFailed) || r
            == Err::<Vec<u8>, StoreError>(StoreError::EncryptionFailed),
        r == Err::<Vec<u8>, StoreError>(StoreError::SerializationFailed) <==> mint@.len()
            + recryption_keys.owner_secret@.len() + recryption_keys.capsule@.len()
            + recryption_keys.wrapped_key@.len() > 0x3FFF_FFD8,
{
    let rec = KeyStoreRecord { mint, recryption_keys };
    let lm = rec.mint.len();
    let lo = rec.recryption_keys.owner_secret.len();
    let lc = rec.recryption_keys.capsule.len();
    let lw = rec.recryption_keys.wrapped_key.len();
    let cap_total: usize = 0x3FFF_FFD8;
    if lm > cap_total || lo > cap_total - lm || lc > cap_total - lm - lo || lw > cap_total - lm
        - lo - lc {
        return Err(StoreError::SerializationFailed);
    }
    let pt = encode_record(&rec);
    assert(pt@.len() == 40 + lm + lo + lc + lw);
    match aead_seal(service_secret, &pt) {
        Ok(ct) => Ok(ct),
        Err(_) => Err(StoreError::EncryptionFailed),
    }
}

/// Decrypt stage of the access control protocol: authenticated-decrypts
/// fetched bytes with the service secret and decodes the canonical record.
/// Bytes that this service never sealed and bytes that were tampered with
/// surface as the same `InvalidRecord` error: the cause is never
/// distinguished to the caller.
pub fn open_record(ciphertext: &Vec<u8>, service_secret: &Vec<u8>) -> (r: Result<
    KeyStoreRecord,
    AccessError,
>)
    requires
        service_secret@.len() == 32,
    ensures
        r matches Ok(rec) ==> (record_opens(service_secret@, ciphertext@) matches Some(pt)
            && parse_record(pt) == Some(
            (
                rec.mint@,
                rec.recryption_keys.owner_secret@,
                rec.recryption_keys.capsule@,
                rec.recryption_keys.wrapped_key@,
                rec.recryption_keys.chunk_size,
            ),
        )),
        r is Err ==> r == Err::<KeyStoreRecord, AccessError>(AccessError::InvalidRecord),
        (r is Err) <==> (record_opens(service_secret@, ciphertext@) is None || (record_opens(
            service_secret@,
            ciphertext@,
        ) matches Some(pt) && parse_record(pt) is None)),
{
    let n = ciphertext.len();
    if n < 41 || n > 0x4000_0028 {
        return Err(AccessError::InvalidRecord);
    }
    match aead_open(service_secret, ciphertext) {
        None => Err(AccessError::InvalidRecord),
        Some(pt) => match decode_record(&pt) {
            None => Err(AccessError::InvalidRecord),
            Some(rec) => Ok(rec),
        },
    }
}

/// Round trip law of the key store protocol in executable form: a record
/// sealed under the service secret opens back to exactly its fields, and
/// opening can only fail where sealing itself failed.
pub fn store_open_round_trip(mint: Vec<u8>, recryption_keys: RecryptionKeys, service_secret: &Vec<
    u8,
>) -> (r: Result<KeyStoreRecord, StoreError>)
    requires
        service_secret@.len() == 32,
    ensures
        r matches Ok(rec) ==> ({
            &&& rec.mint@ == mint@
            &&& rec.recryption_keys.owner_secret@ == recryption_keys.owner_secret@
            &&& rec.recryption_keys.capsule@ == recryption_keys.capsule@
            &&& rec.recryption_keys.wrapped_key@ == recryption_keys.wrapped_key@
            &&& rec.recryption_keys.chunk_size == recryption_keys.chunk_size
        }),
        mint@.len() + recryption_keys.owner_secret@.len() + recryption_keys.capsule@.len()
            + recryption_keys.wrapped_key@.len() <= 0x3FFF_FFD8 ==> (r is Ok || r == Err::<
            KeyStoreRecord,
            StoreError,
        >(StoreError::EncryptionFailed)),
{
    let ghost gm = mint@;
    let ghost go = recryption_keys.owner_secret@;
    let ghost gc = recryption_keys.capsule@;
    let ghost gw = recryption_keys.wrapped_key@;
    let ghost gs = recryption_keys.chunk_size;
    match store(mint, recryption_keys, service_secret) {
        Ok(ct) => {
            proof {
                lemma_record_round_trip(gm, go, gc, gw, gs);
            }
            match open_record(&ct, service_secret) {
                Ok(rec) => Ok(rec),
                Err(_) => {
                    proof {
                        assert(false);
                    }
                    Err(StoreError::EncryptionFailed)
                },
            }
        },
        Err(e) => Err(e),
    }
}

/// Any eight bytes are reproduced by writing back the value they denote.
proof fn lemma_le8_bytes_round_trip(s: Seq<u8>)
    requires
        s.len() == 8,
    ensures
        le8_spec(le8_val(s)) == s,
{
    let b0 = s[0];
    let b1 = s[1];
    let b2 = s[2];
    let b3 = s[3];
    let b4 = s[4];
    let b5 = s[5];
    let b6 = s[6];
    let b7 = s[7];
    assert({
        let v = (b0 as u64) | ((b1 as u64) << 8u64) | ((b2 as u64) << 16u64) | ((b3 as u64)
            << 24u64) | ((b4 as u64) << 32u64) | ((b5 as u64) << 40u64) | ((b6 as u64)
            << 48u64) | ((b7 as u64) << 56u64);
        &&& (v & 0xff) as u8 == b0
        &&& ((v >> 8u64) & 0xff) as u8 == b1
        &&& ((v >> 16u64) & 0xff) as u8 == b2
        &&& ((v >> 24u64) & 0xff) as u8 == b3
        &&& ((v >> 32u64) & 0xff) as u8 == b4
        &&& ((v >> 40u64) & 0xff) as u8 == b5
        &&& ((v >> 48u64) & 0xff) as u8 == b6
        &&& ((v >> 56u64) & 0xff) as u8 == b7
    }) by (bit_vector);
    assert(le8_spec(le8_val(s)) =~= s);
}

/// The decoder is a true inverse: bytes that decode to a record are
/// exactly that record's canonical encoding, so no two distinct records
/// share an encoding and no stray bytes around one are tolerated.
#[verifier::rlimit(100)]
pub proof fn lemma_parse_is_encode(b: Seq<u8>)
    requires
        parse_record(b) is Some,
    ensures
        parse_record(b) matches Some(f) ==> b == record_bytes(f.0, f.1, f.2, f.3, f.4),
{
    let f = match parse_record(b) {
        Some(f) => f,
        None => arbitrary(),
    };
    let l0 = le8_val(b.subrange(0, 8)) as int;
    let p1 = 8 + l0;
    let l1 = le8_val(b.subrange(p1, p1 + 8)) as int;
    let p2 = p1 + 8 + l1;
    let l2 = le8_val(b.subrange(p2, p2 + 8)) as int;
    let p3 = p2 + 8 + l2;
    let l3 = le8_val(b.subrange(p3, p3 + 8)) as int;
    let p4 = p3 + 8 + l3;
    assert(f.0 == b.subrange(8, p1));
    assert(f.1 == b.subrange(p1 + 8, p2));
    assert(f.2 == b.subrange(p2 + 8, p3));
    assert(f.3 == b.subrange(p3 + 8, p4));
    assert(p4 + 8 == b.len());
    assert(f.4 == le8_val(b.subrange(p4, p4 + 8)));
    lemma_le8_bytes_round_trip(b.subrange(0, 8));
    lemma_le8_bytes_round_trip(b.subrange(p1, p1 + 8));
    lemma_le8_bytes_round_trip(b.subrange(p2, p2 + 8));
    lemma_le8_bytes_round_trip(b.subrange(p3, p3 + 8));
    lemma_le8_bytes_round_trip(b.subrange(p4, p4 + 8));
    assert(le8_spec(f.0.len() as u64) == b.subrange(0, 8));
    assert(le8_spec(f.1.len() as u64) == b.subrange(p1, p1 + 8));
    assert(le8_spec(f.2.len() as u64) == b.subrange(p2, p2 + 8));
    assert(le8_spec(f.3.len() as u64) == b.subrange(p3, p3 + 8));
    assert(le8_spec(f.4) == b.subrange(p4, p4 + 8));
    assert(record_bytes(f.0, f.1, f.2, f.3, f.4) =~= b);
}

} // verus!
