use vstd::prelude::*;

use crate::chunking::{chunk_bounds, chunk_size_spec, num_chunks_spec, plan_chunks, valid_config};
use crate::cipher::{chunk_open_of, xchacha_open, xchacha_seal};
use crate::errors::CryptoError;

verus! {

/// Largest input one engine invocation handles, comfortably below every
/// limit of the underlying cipher.
pub const MAX_INPUT: usize = 0x4000_0000;

/// The per-chunk nonce, derived deterministically from the chunk index: the
/// index in little-endian, zero-padded to the cipher's 24 nonce bytes.  One
/// symmetric file key protects one file, so no (key, nonce) pair is ever
/// reused across chunks.
pub open spec fn nonce_spec(i: u64) -> Seq<u8> {
    seq![
        (i & 0xff) as u8,
        ((i >> 8u64) & 0xff) as u8,
        ((i >> 16u64) & 0xff) as u8,
        ((i >> 24u64) & 0xff) as u8,
        ((i >> 32u64) & 0xff) as u8,
        ((i >> 40u64) & 0xff) as u8,
        ((i >> 48u64) & 0xff) as u8,
        ((i >> 56u64) & 0xff) as u8,
        0u8, 0u8, 0u8, 0u8, 0u8, 0u8, 0u8, 0u8,
        0u8, 0u8, 0u8, 0u8, 0u8, 0u8, 0u8, 0u8,
    ]
}

/// Chunk `i` of the data under chunk size `cs`.
pub open spec fn chunk_at(data: Seq<u8>, cs: u64, i: int) -> Seq<u8> {
    data.subrange(i * cs, vstd::math::min(i * cs + cs as int, data.len() as int))
}

/// Ciphertext chunks a well-behaved encryption of `data` must consist of:
/// one sealed chunk per plaintext chunk, each 16 bytes longer than its
/// chunk, each opening back to exactly its chunk under the index-derived
/// nonce.
pub open spec fn sealed_chunks_of(key: Seq<u8>, data: Seq<u8>, cs: u64, cts: Seq<Vec<u8>>) -> bool {
    &&& data.len() <= u64::MAX
    &&& cts.len() == num_chunks_spec(data.len() as u64, cs)
    &&& forall|i: int|
        0 <= i < cts.len() ==> (#[trigger] cts[i])@.len() == chunk_at(data, cs, i).len() + 16
    &&& forall|i: int|
        0 <= i < cts.len() ==> chunk_open_of(key, nonce_spec(i as u64), (#[trigger] cts[i])@)
            == Some(chunk_at(data, cs, i))
}

/// A ciphertext chunk the engine will even try to open: tag plus at least
/// one byte, within the single-operation size limit.
pub open spec fn chunk_len_ok(ct: Seq<u8>) -> bool {
    17 <= ct.len() <= 0x4000_0010
}

/// What opening ciphertext chunk `i` yields: bytes of an impossible length
/// never open.
pub open spec fn chunk_opens(key: Seq<u8>, i: u64, ct: Seq<u8>) -> Option<Seq<u8>> {
    if chunk_len_ok(ct) {
        chunk_open_of(key, nonce_spec(i), ct)
    } else {
        None
    }
}

/// Every ciphertext chunk authenticates and decrypts under its
/// index-derived nonce.
pub open spec fn all_chunks_open(key: Seq<u8>, cts: Seq<Vec<u8>>) -> bool {
    forall|i: int| 0 <= i < cts.len() ==> chunk_opens(key, i as u64, (#[trigger] cts[i])@) is Some
}

/// Concatenation of the plaintexts of the first `upto` ciphertext chunks.
pub open spec fn opened_cat(key: Seq<u8>, cts: Seq<Vec<u8>>, upto: int) -> Seq<u8>
    decreases upto,
{
    if upto <= 0 {
        Seq::empty()
    } else {
        opened_cat(key, cts, upto - 1) + match chunk_opens(key, (upto - 1) as u64, cts[upto - 1]@) {
            Some(p) => p,
            None => Seq::empty(),
        }
    }
}

/// Builds the 24-byte nonce for chunk `i`.
pub fn build_nonce(i: u64) -> (r: Vec<u8>)
    ensures
        r@ == nonce_spec(i),
{
    let mut out: Vec<u8> = Vec::new();
    out.push((i & 0xff) as u8);
    out.push(((i >> 8u64) & 0xff) as u8);
    out.push(((i >> 16u64) & 0xff) as u8);
    out.push(((i >> 24u64) & 0xff) as u8);
    out.push(((i >> 32u64) & 0xff) as u8);
    out.push(((i >> 40u64) & 0xff) as u8);
    out.push(((i >> 48u64) & 0xff) as u8);
    out.push(((i >> 56u64) & 0xff) as u8);
    let mut j: usize = 8;
    while j < 24
        invariant
            8 <= j <= 24,
            out@.len() == j,
            forall|k: int| 0 <= k < 8 ==> out@[k] == nonce_spec(i)[k],
            forall|k: int| 8 <= k < j ==> out@[k] == 0u8,
        decreases 24 - j,
    {
        out.push(0u8);
        j += 1;
    }
    proof {
        assert(out@ =~= nonce_spec(i));
    }
    out
}

/// Copies the byte range `[start, end)` of `data` into a fresh buffer.
pub(crate) fn copy_range(data: &Vec<u8>, start: usize, end: usize) -> (r: Vec<u8>)
    requires
        start <= end <= data@.len(),
    ensures
        r@ == data@.subrange(start as int, end as int),
{
    let mut out: Vec<u8> = Vec::new();
    let mut j: usize = start;
    while j < end
        invariant
            start <= j <= end <= data@.len(),
            out@.len() == j - start,
            forall|k: int| 0 <= k < j - start ==> #[trigger] out@[k] == data@[start + k],
        decreases end - j,
    {
        let b = data[j];
        out.push(b);
        j += 1;
    }
    proof {
        assert(out@ =~= data@.subrange(start as int, end as int));
    }
    out
}

/// Seals one plaintext chunk under the file key and its index-derived
/// nonce: the unit of work one pool worker performs.
pub fn encrypt_chunk(key: &Vec<u8>, index: u64, chunk: &Vec<u8>) -> (r: Vec<u8>)
    requires
        key@.len() == 32,
        1 <= chunk@.len() <= MAX_INPUT,
    ensures
        r@.len() == chunk@.len() + 16,
        chunk_open_of(key@, nonce_spec(index), r@) == Some(chunk@),
{
    let nonce = build_nonce(index);
    xchacha_seal(key, &nonce, chunk)
}

/// Opens one ciphertext chunk under the file key and its index-derived
/// nonce; `None` exactly when the chunk does not authenticate there.
pub fn decrypt_chunk(key: &Vec<u8>, index: u64, ct: &Vec<u8>) -> (r: Option<Vec<u8>>)
    requires
        key@.len() == 32,
    ensures
        r matches Some(p) ==> chunk_opens(key@, index, ct@) == Some(p@),
        r is None ==> chunk_opens(key@, index, ct@) is None,
{
    let n = ct.len();
    if n < 17 || n > 0x4000_0010 {
        return None;
    }
    let nonce = build_nonce(index);
    xchacha_open(key, &nonce, ct)
}

/// Store side of the chunked crypto engine: partitions `data` under the
/// worker count and memory budget, seals every chunk under the file key
/// with its index-derived nonce, and returns the ordered ciphertext chunks.
/// A zero-length input is an explicit error; a single failed chunk would
/// abort the whole operation, and within the stated sizes no chunk can
/// fail.
pub fn encrypt_chunks(key: &Vec<u8>, data: &Vec<u8>, worker_count: u64, memory_budget: u64) -> (r:
    Result<Vec<Vec<u8>>, CryptoError>)
    requires
        key@.len() == 32,
        data@.len() <= MAX_INPUT,
    ensures
        data@.len() == 0 ==> r == Err::<Vec<Vec<u8>>, CryptoError>(CryptoError::EmptyInput),
        data@.len() >= 1 && !valid_config(worker_count, memory_budget) ==> r == Err::<
            Vec<Vec<u8>>,
            CryptoError,
        >(CryptoError::BadConfig),
        data@.len() >= 1 && valid_config(worker_count, memory_budget) ==> (r matches Ok(cts)
            && sealed_chunks_of(
            key@,
            data@,
            chunk_size_spec(worker_count, memory_budget) as u64,
            cts@,
        )),
{
    let len = data.len() as u64;
    let plan = match plan_chunks(len, worker_count, memory_budget) {
        Ok(p) => p,
        Err(e) => {
            return Err(e);
        },
    };
    let mut cts: Vec<Vec<u8>> = Vec::new();
    let mut i: u64 = 0;
    while i < plan.chunk_count
        invariant
            plan.wf(),
            plan.file_size == data@.len(),
            plan.chunk_size >= 1,
            key@.len() == 32,
            data@.len() <= MAX_INPUT,
            i <= plan.chunk_count,
            cts@.len() == i,
            forall|k: int|
                0 <= k < i ==> (#[trigger] cts@[k])@.len() == chunk_at(
                    data@,
                    plan.chunk_size,
                    k,
                ).len() + 16,
            forall|k: int|
                0 <= k < i ==> chunk_open_of(key@, nonce_spec(k as u64), (#[trigger] cts@[k])@)
                    == Some(chunk_at(data@, plan.chunk_size, k)),
        decreases plan.chunk_count - i,
    {
        let (start, end) = chunk_bounds(&plan, i);
        let chunk = copy_range(data, start as usize, end as usize);
        proof {
            assert(chunk@ =~= chunk_at(data@, plan.chunk_size, i as int));
        }
        let nonce = build_nonce(i);
        let ct = xchacha_seal(key, &nonce, &chunk);
        cts.push(ct);
        i += 1;
    }
    Ok(cts)
}

/// Retrieve side of the chunked crypto engine: opens every ciphertext chunk
/// under its index-derived nonce and reassembles the plaintext in order.  A
/// single chunk that fails to authenticate aborts the whole operation: a
/// partial artifact is never returned as valid.
pub fn decrypt_chunks(key: &Vec<u8>, cts: &Vec<Vec<u8>>) -> (r: Result<Vec<u8>, CryptoError>)
    requires
        key@.len() == 32,
    ensures
        r matches Ok(p) ==> all_chunks_open(key@, cts@) && p@ == opened_cat(
            key@,
            cts@,
            cts@.len() as int,
        ),
        r is Err ==> !all_chunks_open(key@, cts@) && r == Err::<Vec<u8>, CryptoError>(
            CryptoError::Tampered,
        ),
        all_chunks_open(key@, cts@) ==> r is Ok,
{
    let mut out: Vec<u8> = Vec::new();
    let mut i: usize = 0;
    while i < cts.len()
        invariant
            key@.len() == 32,
            i <= cts@.len(),
            out@ == opened_cat(key@, cts@, i as int),
            forall|k: int| 0 <= k < i ==> chunk_opens(key@, k as u64, (#[trigger] cts@[k])@) is Some,
        decreases cts@.len() - i,
    {
        let ct = &cts[i];
        if ct.len() < 17 || ct.len() > 0x4000_0010 {
            return Err(CryptoError::Tampered);
        }
        let nonce = build_nonce(i as u64);
        match xchacha_open(key, &nonce, ct) {
            Some(mut p) => {
                out.append(&mut p);
            },
            None => {
                return Err(CryptoError::Tampered);
            },
        }
        i += 1;
    }
    Ok(out)
}

/// The concatenated plaintexts of the first `k` sealed chunks are exactly
/// the first `min(k * cs, len)` bytes of the data.
proof fn lemma_cat_prefix(key: Seq<u8>, data: Seq<u8>, cs: u64, cts: Seq<Vec<u8>>, k: int)
    requires
        sealed_chunks_of(key, data, cs, cts),
        1 <= data.len() <= MAX_INPUT,
        cs >= 1,
        0 <= k <= cts.len(),
    ensures
        opened_cat(key, cts, k) == data.subrange(
            0,
            vstd::math::min(k * cs, data.len() as int),
        ),
    decreases k,
{
    if k == 0 {
        assert(k * cs == 0) by (nonlinear_arith)
            requires
                k == 0,
        ;
        assert(opened_cat(key, cts, 0) =~= data.subrange(0, 0));
    } else {
        lemma_cat_prefix(key, data, cs, cts, k - 1);
        crate::chunking::lemma_chunk_start_in_file(data.len() as u64, cs, k - 1);
        assert((k - 1) * cs + cs == k * cs) by (nonlinear_arith);
        assert((k - 1) * cs < k * cs) by (nonlinear_arith)
            requires
                cs >= 1,
        ;
        let len = data.len() as int;
        let a = (k - 1) * cs;
        let b = vstd::math::min(k * cs, len);
        let chunk = chunk_at(data, cs, k - 1);
        assert(chunk == data.subrange(a, b));
        assert(chunk.len() >= 1);
        assert(cts[k - 1]@.len() == chunk.len() + 16);
        assert(chunk.len() <= len);
        assert(chunk_len_ok(cts[k - 1]@));
        assert(chunk_opens(key, (k - 1) as u64, cts[k - 1]@) == Some(chunk));
        assert(vstd::math::min((k - 1) * cs, len) == a);
        assert(opened_cat(key, cts, k) == data.subrange(0, a) + chunk);
        assert(data.subrange(0, a) + data.subrange(a, b) =~= data.subrange(0, b));
        assert(opened_cat(key, cts, k) == data.subrange(0, b));
    }
}

/// Round trip of the chunked crypto engine: every chunk that
/// `encrypt_chunks` sealed authenticates, and their plaintexts reassemble
/// to exactly the original bytes — at any worker count and memory budget
/// that admit at least one one-byte chunk, and whatever the file size.
pub proof fn lemma_engine_round_trip(key: Seq<u8>, data: Seq<u8>, cs: u64, cts: Seq<Vec<u8>>)
    requires
        sealed_chunks_of(key, data, cs, cts),
        1 <= data.len() <= MAX_INPUT,
        cs >= 1,
    ensures
        all_chunks_open(key, cts),
        opened_cat(key, cts, cts.len() as int) == data,
{
    let n = cts.len() as int;
    let len = data.len() as int;
    assert forall|i: int| 0 <= i < n implies chunk_opens(
        key,
        i as u64,
        (#[trigger] cts[i])@,
    ) is Some by {
        crate::chunking::lemma_chunk_start_in_file(data.len() as u64, cs, i);
        assert(i * cs + cs > i * cs) by (nonlinear_arith)
            requires
                cs >= 1,
        ;
        assert(chunk_at(data, cs, i).len() >= 1);
        assert(chunk_len_ok(cts[i]@));
    }
    lemma_cat_prefix(key, data, cs, cts, n);
    crate::chunking::lemma_chunks_partition(data.len() as u64, cs);
    assert(crate::chunking::chunk_end(data.len() as u64, cs, n - 1) == len);
    assert((n - 1) * cs + cs == n * cs) by (nonlinear_arith);
    assert(vstd::math::min(n * cs, len) == len);
    assert(data.subrange(0, len) =~= data);
}

/// Round trip law in executable form: retrieving what the engine stored
/// under a key returns the original bytes, for every input the engine
/// accepts.
pub fn round_trip(key: &Vec<u8>, data: &Vec<u8>, worker_count: u64, memory_budget: u64) -> (r: Vec<
    u8,
>)
    requires
        key@.len() == 32,
        1 <= data@.len() <= MAX_INPUT,
        valid_config(worker_count, memory_budget),
    ensures
        r@ == data@,
{
    let cts = match encrypt_chunks(key, data, worker_count, memory_budget) {
        Ok(c) => c,
        Err(_) => {
            proof {
                assert(false);
            }
            Vec::new()
        },
    };
    proof {
        lemma_engine_round_trip(
            key@,
            data@,
            chunk_size_spec(worker_count, memory_budget) as u64,
            cts@,
        );
    }
    match decrypt_chunks(key, &cts) {
        Ok(p) => p,
        Err(_) => {
            proof {
                assert(false);
            }
            Vec::new()
        },
    }
}

} // verus!
