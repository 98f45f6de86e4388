//! Perceptual hashing for card image matching.
//!
//! A 256-bit difference hash (dHash): the image is reduced to a 17×16
//! grayscale thumbnail; for each row, bit = 1 when a pixel is brighter than
//! its right neighbour. 16 comparisons × 16 rows = 256 bits = 32 bytes.
//! Hashes are compared by Hamming distance.

use vstd::prelude::*;

use crate::domain::{CardId, Error, Result};
use crate::scanning::ranking::{lemma_ranking_bounded, rank_indices, ranking};

verus! {

/// Hash size in bytes (256 bits = 32 bytes).
pub const HASH_SIZE: usize = 32;

/// Width of the grayscale thumbnail (one extra column for the gradient).
pub const THUMB_WIDTH: usize = 17;

/// Height of the grayscale thumbnail.
pub const THUMB_HEIGHT: usize = 16;

// ---------- bit counting ----------

/// Bit `i` (0 = least significant) of `x`, as 0 or 1.
pub open spec fn bit(x: u8, i: u8) -> nat {
    if (x >> i) & 1u8 == 1u8 {
        1
    } else {
        0
    }
}

/// Number of set bits of a byte.
pub open spec fn popcount(x: u8) -> nat {
    bit(x, 0) + bit(x, 1) + bit(x, 2) + bit(x, 3) + bit(x, 4) + bit(x, 5) + bit(x, 6) + bit(x, 7)
}

/// Number of differing bits between the first `n` bytes of `a` and `b`.
pub open spec fn bit_distance(a: Seq<u8>, b: Seq<u8>, n: nat) -> nat
    decreases n,
{
    if n == 0 {
        0
    } else {
        bit_distance(a, b, (n - 1) as nat) + popcount(a[n - 1] ^ b[n - 1])
    }
}

/// Hamming distance of two whole hashes.
pub open spec fn hamming(a: Seq<u8>, b: Seq<u8>) -> nat {
    bit_distance(a, b, a.len())
}

fn count_ones(x: u8) -> (r: u32)
    ensures
        r == popcount(x),
{
    let mut r: u32 = 0;
    if (x >> 0u8) & 1 == 1 {
        r = r + 1;
    }
    if (x >> 1u8) & 1 == 1 {
        r = r + 1;
    }
    if (x >> 2u8) & 1 == 1 {
        r = r + 1;
    }
    if (x >> 3u8) & 1 == 1 {
        r = r + 1;
    }
    if (x >> 4u8) & 1 == 1 {
        r = r + 1;
    }
    if (x >> 5u8) & 1 == 1 {
        r = r + 1;
    }
    if (x >> 6u8) & 1 == 1 {
        r = r + 1;
    }
    if (x >> 7u8) & 1 == 1 {
        r = r + 1;
    }
    r
}

proof fn lemma_popcount_le_8(x: u8)
    ensures
        popcount(x) <= 8,
{
}

proof fn lemma_bit_distance_bound(a: Seq<u8>, b: Seq<u8>, n: nat)
    ensures
        bit_distance(a, b, n) <= 8 * n,
    decreases n,
{
    if n > 0 {
        lemma_bit_distance_bound(a, b, (n - 1) as nat);
        lemma_popcount_le_8(a[n - 1] ^ b[n - 1]);
    }
}

/// Hamming distance between two 256-bit hashes (number of differing bits).
pub fn hamming_distance(a: &[u8; HASH_SIZE], b: &[u8; HASH_SIZE]) -> (r: u32)
    ensures
        r == hamming(a@, b@),
        r <= 256,
{
    let mut total: u32 = 0;
    let mut i: usize = 0;
    while i < HASH_SIZE
        invariant
            i <= HASH_SIZE,
            a@.len() == HASH_SIZE,
            b@.len() == HASH_SIZE,
            total == bit_distance(a@, b@, i as nat),
            total <= 8 * i,
        decreases HASH_SIZE - i,
    {
        proof {
            lemma_popcount_le_8(a@[i as int] ^ b@[i as int]);
        }
        total = total + count_ones(a[i] ^ b[i]);
        i = i + 1;
    }
    total
}

// ---------- the distance is a metric ----------

proof fn lemma_bit_xor_symmetric(x: u8, y: u8)
    ensures
        popcount(x ^ y) == popcount(y ^ x),
{
    assert(x ^ y == y ^ x) by (bit_vector);
}

proof fn lemma_popcount_zero(x: u8)
    ensures
        popcount(x) == 0 <==> x == 0,
{
    assert(((x >> 0u8) & 1u8 != 1u8 && (x >> 1u8) & 1u8 != 1u8 && (x >> 2u8) & 1u8 != 1u8 && (x
        >> 3u8) & 1u8 != 1u8 && (x >> 4u8) & 1u8 != 1u8 && (x >> 5u8) & 1u8 != 1u8 && (x >> 6u8)
        & 1u8 != 1u8 && (x >> 7u8) & 1u8 != 1u8) <==> x == 0) by (bit_vector);
}

proof fn lemma_xor_zero(x: u8, y: u8)
    ensures
        x ^ y == 0 <==> x == y,
{
    assert(x ^ y == 0 <==> x == y) by (bit_vector);
}

proof fn lemma_bit_triangle(x: u8, y: u8, z: u8, i: u8)
    requires
        i < 8,
    ensures
        bit(x ^ z, i) <= bit(x ^ y, i) + bit(y ^ z, i),
{
    assert(((x ^ z) >> i) & 1u8 == 1u8 ==> (((x ^ y) >> i) & 1u8 == 1u8 || ((y ^ z) >> i) & 1u8
        == 1u8)) by (bit_vector)
        requires
            i < 8,
    ;
}

proof fn lemma_popcount_triangle(x: u8, y: u8, z: u8)
    ensures
        popcount(x ^ z) <= popcount(x ^ y) + popcount(y ^ z),
{
    lemma_bit_triangle(x, y, z, 0);
    lemma_bit_triangle(x, y, z, 1);
    lemma_bit_triangle(x, y, z, 2);
    lemma_bit_triangle(x, y, z, 3);
    lemma_bit_triangle(x, y, z, 4);
    lemma_bit_triangle(x, y, z, 5);
    lemma_bit_triangle(x, y, z, 6);
    lemma_bit_triangle(x, y, z, 7);
}

proof fn lemma_bit_distance_laws(a: Seq<u8>, b: Seq<u8>, c: Seq<u8>, n: nat)
    requires
        n <= a.len(),
        n <= b.len(),
        n <= c.len(),
    ensures
        bit_distance(a, b, n) == bit_distance(b, a, n),
        bit_distance(a, c, n) <= bit_distance(a, b, n) + bit_distance(b, c, n),
        bit_distance(a, b, n) == 0 <==> a.take(n as int) =~= b.take(n as int),
    decreases n,
{
    if n > 0 {
        let m = (n - 1) as nat;
        lemma_bit_distance_laws(a, b, c, m);
        lemma_bit_xor_symmetric(a[m as int], b[m as int]);
        lemma_popcount_triangle(a[m as int], b[m as int], c[m as int]);
        lemma_popcount_zero(a[m as int] ^ b[m as int]);
        lemma_xor_zero(a[m as int], b[m as int]);
        if a.take(n as int) =~= b.take(n as int) {
            assert(a.take(m as int) =~= b.take(m as int));
            assert(a[m as int] == a.take(n as int)[m as int]);
        }
        if bit_distance(a, b, n) == 0 {
            assert forall|j: int| 0 <= j < n implies a.take(n as int)[j] == b.take(n as int)[j] by {
                if j < m {
                    assert(a.take(m as int)[j] == b.take(m as int)[j]);
                }
            }
        }
    }
}

/// The Hamming distance between hashes is a metric: symmetric, zero exactly
/// on equal hashes, bounded by 256, and obeys the triangle inequality.
pub proof fn lemma_hamming_is_metric(a: [u8; HASH_SIZE], b: [u8; HASH_SIZE], c: [u8; HASH_SIZE])
    ensures
        hamming(a@, b@) == hamming(b@, a@),
        hamming(a@, b@) == 0 <==> a@ == b@,
        hamming(a@, c@) <= hamming(a@, b@) + hamming(b@, c@),
        hamming(a@, b@) <= 256,
{
    lemma_bit_distance_laws(a@, b@, c@, 32);
    lemma_bit_distance_bound(a@, b@, 32);
    assert(a@.take(32) =~= a@);
    assert(b@.take(32) =~= b@);
}

// ---------- the difference hash ----------

/// Whether hash bit `k` (0..256, row-major) is set: the pixel at column
/// `k % 16` of row `k / 16` is brighter than its right neighbour.
pub open spec fn dhash_bit(gray: Seq<u8>, k: int) -> bool {
    let y = k / 16;
    let x = k % 16;
    gray[y * 17 + x] > gray[y * 17 + x + 1]
}

/// Hash bit `k` is stored MSB-first: byte `k / 8`, bit `7 - k % 8`.
pub open spec fn hash_bit(hash: Seq<u8>, k: int) -> bool {
    msb_bit(hash[k / 8], k % 8)
}

/// Bit `t` of a byte counted from the most significant end (t in 0..8).
pub open spec fn msb_bit(b: u8, t: int) -> bool {
    (b >> ((7 - t) as u8)) & 1u8 == 1u8
}

/// Bit `t` of a byte counted from the most significant end, as a number.
pub open spec fn msb_bit_value(b: u8, t: int) -> u8 {
    (b >> ((7 - t) as u8)) & 1u8
}

/// `hash` is the difference hash of the 17×16 grayscale thumbnail `gray`.
pub open spec fn is_dhash_of(hash: Seq<u8>, gray: Seq<u8>) -> bool {
    &&& hash.len() == 32
    &&& forall|k: int| 0 <= k < 256 ==> hash_bit(hash, k) == dhash_bit(gray, k)
}

proof fn lemma_set_bit(b: u8, p: u8, q: u8)
    requires
        p < 8,
        q < 8,
    ensures
        ((b | (1u8 << p)) >> q) & 1u8 == (if p == q {
            1u8
        } else {
            (b >> q) & 1u8
        }),
{
    assert(((b | (1u8 << p)) >> q) & 1u8 == (if p == q {
        1u8
    } else {
        (b >> q) & 1u8
    })) by (bit_vector)
        requires
            p < 8,
            q < 8,
    ;
}

proof fn lemma_zero_bits(q: u8)
    requires
        q < 8,
    ensures
        (0u8 >> q) & 1u8 == 0u8,
{
    assert((0u8 >> q) & 1u8 == 0u8) by (bit_vector);
}

/// One hash byte: bits `8j .. 8j+8` of the difference hash.
fn dhash_byte(gray: &Vec<u8>, j: usize) -> (r: u8)
    requires
        gray@.len() == 272,
        j < 32,
    ensures
        forall|t: int| 0 <= t < 8 ==> #[trigger] msb_bit(r, t) == dhash_bit(gray@, 8 * j + t),
{
    let mut b: u8 = 0;
    let mut t: usize = 0;
    proof {
        assert forall|t2: int| 0 <= t2 < 8 implies #[trigger] msb_bit_value(b, t2) == 0u8 by {
            lemma_zero_bits((7 - t2) as u8);
        }
    }
    while t < 8
        invariant
            gray@.len() == 272,
            j < 32,
            t <= 8,
            forall|t2: int| 0 <= t2 < t ==> #[trigger] msb_bit(b, t2) == dhash_bit(gray@, 8 * j + t2),
            forall|t2: int| t <= t2 < 8 ==> #[trigger] msb_bit_value(b, t2) == 0u8,
        decreases 8 - t,
    {
        let k: usize = 8 * j + t;
        let y: usize = k / 16;
        let x: usize = k % 16;
        let left = gray[y * 17 + x];
        let right = gray[y * 17 + x + 1];
        if left > right {
            let p: u8 = (7 - t) as u8;
            let ghost old_b = b;
            b = b | (1u8 << p);
            proof {
                assert forall|t2: int| 0 <= t2 < 8 implies #[trigger] msb_bit_value(b, t2) == (if t2
                    == t {
                    1u8
                } else {
                    msb_bit_value(old_b, t2)
                }) by {
                    lemma_set_bit(old_b, p, (7 - t2) as u8);
                }
                assert forall|t2: int| 0 <= t2 < t implies #[trigger] msb_bit(b, t2) == dhash_bit(
                    gray@,
                    8 * j + t2,
                ) by {
                    lemma_set_bit(old_b, p, (7 - t2) as u8);
                    assert(msb_bit_value(b, t2) == msb_bit_value(old_b, t2));
                    assert(msb_bit(old_b, t2) == dhash_bit(gray@, 8 * j + t2));
                }
            }
        }
        proof {
            assert(msb_bit(b, t as int) == dhash_bit(gray@, 8 * j + t)) by {
                assert(msb_bit_value(b, t as int) == 1u8 || msb_bit_value(b, t as int) == 0u8);
            }
        }
        t = t + 1;
    }
    b
}

/// The difference hash of a 17×16 row-major grayscale thumbnail.
pub fn dhash_from_gray(gray: &Vec<u8>) -> (r: [u8; HASH_SIZE])
    requires
        gray@.len() == THUMB_WIDTH * THUMB_HEIGHT,
    ensures
        is_dhash_of(r@, gray@),
{
    let mut hash: [u8; HASH_SIZE] = [0u8; HASH_SIZE];
    let mut j: usize = 0;
    while j < HASH_SIZE
        invariant
            gray@.len() == 272,
            j <= 32,
            hash@.len() == 32,
            forall|k: int| 0 <= k < 8 * j ==> hash_bit(hash@, k) == dhash_bit(gray@, k),
        decreases 32 - j,
    {
        let byte = dhash_byte(gray, j);
        hash[j] = byte;
        proof {
            assert forall|k: int| 0 <= k < 8 * (j + 1) implies hash_bit(hash@, k) == dhash_bit(
                gray@,
                k,
            ) by {
                if k >= 8 * j {
                    let t = k - 8 * j;
                    assert(k / 8 == j as int);
                    assert(k % 8 == t);
                }
            }
        }
        j = j + 1;
    }
    hash
}

proof fn lemma_byte_from_bits(a: u8, b: u8)
    requires
        forall|t: int| 0 <= t < 8 ==> msb_bit(a, t) == msb_bit(b, t),
    ensures
        a == b,
{
    assert(msb_bit(a, 0) == msb_bit(b, 0));
    assert(msb_bit(a, 1) == msb_bit(b, 1));
    assert(msb_bit(a, 2) == msb_bit(b, 2));
    assert(msb_bit(a, 3) == msb_bit(b, 3));
    assert(msb_bit(a, 4) == msb_bit(b, 4));
    assert(msb_bit(a, 5) == msb_bit(b, 5));
    assert(msb_bit(a, 6) == msb_bit(b, 6));
    assert(msb_bit(a, 7) == msb_bit(b, 7));
    assert(a == b) by (bit_vector)
        requires
            ((a >> 7u8) & 1u8 == 1u8) == ((b >> 7u8) & 1u8 == 1u8),
            ((a >> 6u8) & 1u8 == 1u8) == ((b >> 6u8) & 1u8 == 1u8),
            ((a >> 5u8) & 1u8 == 1u8) == ((b >> 5u8) & 1u8 == 1u8),
            ((a >> 4u8) & 1u8 == 1u8) == ((b >> 4u8) & 1u8 == 1u8),
            ((a >> 3u8) & 1u8 == 1u8) == ((b >> 3u8) & 1u8 == 1u8),
            ((a >> 2u8) & 1u8 == 1u8) == ((b >> 2u8) & 1u8 == 1u8),
            ((a >> 1u8) & 1u8 == 1u8) == ((b >> 1u8) & 1u8 == 1u8),
            ((a >> 0u8) & 1u8 == 1u8) == ((b >> 0u8) & 1u8 == 1u8),
    ;
}

/// A thumbnail has exactly one difference hash.
pub proof fn lemma_dhash_unique(h1: Seq<u8>, h2: Seq<u8>, gray: Seq<u8>)
    requires
        is_dhash_of(h1, gray),
        is_dhash_of(h2, gray),
    ensures
        h1 == h2,
{
    assert forall|j: int| 0 <= j < 32 implies h1[j] == h2[j] by {
        assert forall|t: int| 0 <= t < 8 implies msb_bit(h1[j], t) == msb_bit(h2[j], t) by {
            let k = 8 * j + t;
            assert(k / 8 == j && k % 8 == t);
            assert(hash_bit(h1, k) == dhash_bit(gray, k));
            assert(hash_bit(h2, k) == dhash_bit(gray, k));
        }
        lemma_byte_from_bits(h1[j], h2[j]);
    }
    assert(h1 =~= h2);
}

// ---------- stored hashes ----------

/// The abstract contents of a list of stored `(card id, hash)` pairs.
pub open spec fn hash_entries(s: Seq<(CardId, [u8; HASH_SIZE])>) -> Seq<(Seq<char>, Seq<u8>)> {
    Seq::new(s.len(), |i: int| (s[i].0.0@, s[i].1@))
}

/// The rows of the hash table that hold a well-formed 32-byte hash, in order.
pub open spec fn well_formed_rows(rows: Seq<(String, Vec<u8>)>) -> Seq<(Seq<char>, Seq<u8>)>
    decreases rows.len(),
{
    if rows.len() == 0 {
        Seq::empty()
    } else {
        let rest = well_formed_rows(rows.drop_last());
        if rows.last().1@.len() == HASH_SIZE {
            rest.push((rows.last().0@, rows.last().1@))
        } else {
            rest
        }
    }
}

fn hash_from_blob(blob: &Vec<u8>) -> (r: [u8; HASH_SIZE])
    requires
        blob@.len() == HASH_SIZE,
    ensures
        r@ == blob@,
{
    let mut hash: [u8; HASH_SIZE] = [0u8; HASH_SIZE];
    let mut i: usize = 0;
    while i < HASH_SIZE
        invariant
            i <= HASH_SIZE,
            blob@.len() == HASH_SIZE,
            hash@.len() == HASH_SIZE,
            forall|j: int| 0 <= j < i ==> hash@[j] == blob@[j],
        decreases HASH_SIZE - i,
    {
        hash[i] = blob[i];
        i = i + 1;
    }
    assert(hash@ =~= blob@);
    hash
}

/// Turns `(card_id, blob)` rows of the hash table into hashes, skipping any
/// blob that is not exactly `HASH_SIZE` bytes long.
pub fn hashes_from_rows(rows: &Vec<(String, Vec<u8>)>) -> (r: Vec<(CardId, [u8; HASH_SIZE])>)
    ensures
        hash_entries(r@) == well_formed_rows(rows@),
{
    let mut out: Vec<(CardId, [u8; HASH_SIZE])> = Vec::new();
    let mut i: usize = 0;
    while i < rows.len()
        invariant
            i <= rows@.len(),
            hash_entries(out@) == well_formed_rows(rows@.take(i as int)),
        decreases rows@.len() - i,
    {
        assert(rows@.take(i + 1).drop_last() =~= rows@.take(i as int));
        let blob = &rows[i].1;
        if blob.len() == HASH_SIZE {
            let h = hash_from_blob(blob);
            let id = CardId(rows[i].0.clone());
            out.push((id, h));
            assert(hash_entries(out@) =~= well_formed_rows(rows@.take(i + 1)));
        } else {
            assert(hash_entries(out@) =~= well_formed_rows(rows@.take(i + 1)));
        }
        i = i + 1;
    }
    assert(rows@.take(rows@.len() as int) =~= rows@);
    out
}

// ---------- nearest neighbours ----------

/// Distance from `query` to each stored hash.
pub open spec fn distances(query: Seq<u8>, stored: Seq<(CardId, [u8; HASH_SIZE])>) -> Seq<u32> {
    Seq::new(stored.len(), |i: int| hamming(query, stored[i].1@) as u32)
}

/// The stored hashes nearest to `query`: those within `max_distance` bits,
/// nearest first (ties in stored order), at most `limit` of them, each with
/// its distance.
pub fn nearest_matches(
    query: &[u8; HASH_SIZE],
    stored: &Vec<(CardId, [u8; HASH_SIZE])>,
    limit: usize,
    max_distance: u32,
) -> (r: Vec<(CardId, u32)>)
    ensures
        r@.len() == ranking(distances(query@, stored@), max_distance as nat, limit as nat).len(),
        forall|k: int|
            0 <= k < r@.len() ==> {
                let i = ranking(distances(query@, stored@), max_distance as nat, limit as nat)[k]
                    as int;
                &&& 0 <= i < stored@.len()
                &&& (#[trigger] r@[k]).0.0@ == stored@[i].0.0@
                &&& r@[k].1 == hamming(query@, stored@[i].1@)
            },
{
    let mut dists: Vec<u32> = Vec::new();
    let mut i: usize = 0;
    while i < stored.len()
        invariant
            i <= stored@.len(),
            dists@ =~= distances(query@, stored@).take(i as int),
        decreases stored@.len() - i,
    {
        let d = hamming_distance(query, &stored[i].1);
        dists.push(d);
        i = i + 1;
    }
    assert(dists@ =~= distances(query@, stored@));
    let order = rank_indices(&dists, max_distance, limit);
    proof {
        lemma_ranking_bounded(dists@, max_distance as nat, limit as nat);
    }
    let mut out: Vec<(CardId, u32)> = Vec::new();
    let mut k: usize = 0;
    while k < order.len()
        invariant
            order@ == ranking(dists@, max_distance as nat, limit as nat),
            dists@ == distances(query@, stored@),
            dists@.len() == stored@.len(),
            forall|j: int| 0 <= j < order@.len() ==> order@[j] < stored@.len(),
            k <= order@.len(),
            out@.len() == k,
            forall|j: int|
                0 <= j < k ==> {
                    let i = order@[j] as int;
                    &&& (#[trigger] out@[j]).0.0@ == stored@[i].0.0@
                    &&& out@[j].1 == hamming(query@, stored@[i].1@)
                },
        decreases order@.len() - k,
    {
        let idx = order[k];
        let id = stored[idx].0.duplicate();
        let d = dists[idx];
        proof {
            lemma_hamming_bound(query@, stored@[idx as int].1@);
        }
        out.push((id, d));
        k = k + 1;
    }
    out
}

proof fn lemma_hamming_bound(a: Seq<u8>, b: Seq<u8>)
    requires
        a.len() == HASH_SIZE,
    ensures
        hamming(a, b) <= 256,
{
    lemma_bit_distance_bound(a, b, 32);
}

// ---------- images ----------

/// Declares `image::DynamicImage` to the verifier as an opaque value.
#[verifier::external_type_specification]
#[verifier::external_body]
pub struct ExDynamicImage(image::DynamicImage);

/// The decoder allocation cap that `image` applies by default (512 MiB).
pub const DEFAULT_MAX_DECODE_ALLOC: u64 = 536870912;

/// Decodes encoded image bytes (`ImageReader::with_guessed_format`, the
/// allocation limit `max_alloc`, then `decode`), returning the image with
/// its width and height (`DynamicImage::width`, `height`).
/// Trusted, with nothing claimed: whether decoding succeeds is not a function
/// of the bytes and the cap alone (`image` consults process-wide format and
/// decoder hooks that any code may register), nothing is claimed of the
/// pixels, and an error carries the `image` crate's message.
#[verifier::external_body]
pub(crate) fn decode_image(bytes: &[u8], max_alloc: u64) -> (r: std::result::Result<
    (image::DynamicImage, u32, u32),
    String,
>)
{
    let mut reader = image::ImageReader::new(std::io::Cursor::new(bytes))
        .with_guessed_format()
        .map_err(|e| e.to_string())?;
    let mut limits = image::Limits::default();
    limits.max_alloc = Some(max_alloc);
    reader.limits(limits);
    let img = reader.decode().map_err(|e| e.to_string())?;
    let (w, h) = (img.width(), img.height());
    Ok((img, w, h))
}

/// The grayscale thumbnail of an image at `width` × `height` pixels
/// (`resize_exact` with the Lanczos3 filter, then `to_luma8`), as row-major
/// luma bytes.
/// Trusted: a `width` × `height` luma buffer holds `width * height` bytes.
/// Which bytes is left open: the filter's arithmetic uses `f32::sin`, whose
/// precision std leaves to the platform.
#[verifier::external_body]
pub(crate) fn gray_thumbnail(img: &image::DynamicImage, width: u32, height: u32) -> (r: Vec<u8>)
    requires
        width * height <= 65536,
    ensures
        r@.len() == width * height,
{
    img.resize_exact(width, height, image::imageops::FilterType::Lanczos3).to_luma8().into_raw()
}

/// The 17×16 grayscale thumbnail of a decoded image.
pub(crate) fn thumbnail(img: &image::DynamicImage) -> (r: Vec<u8>)
    ensures
        r@.len() == THUMB_WIDTH * THUMB_HEIGHT,
{
    gray_thumbnail(img, THUMB_WIDTH as u32, THUMB_HEIGHT as u32)
}

/// Compute a 256-bit difference hash (dHash) from a decoded image: the
/// difference hash of a 17×16 grayscale thumbnail of the image.
pub fn compute_dhash(img: &image::DynamicImage) -> (r: [u8; HASH_SIZE])
    ensures
        exists|gray: Seq<u8>| gray.len() == THUMB_WIDTH * THUMB_HEIGHT && is_dhash_of(r@, gray),
{
    let gray = thumbnail(img);
    dhash_from_gray(&gray)
}

/// Compute a 256-bit difference hash (dHash) from raw image bytes, decoded
/// under `image`'s default allocation cap. Bytes that fail to decode give
/// `Error::ImageDecode`; a decoded image gives the hash of a thumbnail.
pub fn compute_dhash_from_bytes(bytes: &[u8]) -> (r: Result<[u8; HASH_SIZE]>)
    ensures
        r matches Ok(h) ==> exists|gray: Seq<u8>|
            gray.len() == THUMB_WIDTH * THUMB_HEIGHT && is_dhash_of(h@, gray),
        r matches Err(e) ==> e is ImageDecode,
{
    match decode_image(bytes, DEFAULT_MAX_DECODE_ALLOC) {
        Ok((img, _, _)) => Ok(compute_dhash(&img)),
        Err(m) => Err(Error::ImageDecode(m)),
    }
}

} // verus!
