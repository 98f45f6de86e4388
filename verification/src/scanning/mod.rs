//! Scanning pipeline.
//!
//! Identify a card from a still image: guard the input size, decode, hash
//! (256-bit dHash), then rank the stored hashes of catalog thumbnails by
//! Hamming distance. Candidates are reported best-first with a confidence
//! of `1 - distance / 256`, computed by the application shell.

pub mod hashing;
pub mod index;
pub mod ranking;

use vstd::prelude::*;

use crate::domain::{CardId, Error, Game, Result};
use crate::scanning::hashing::{
    decode_image, dhash_from_gray, is_dhash_of, thumbnail, HASH_SIZE, THUMB_HEIGHT, THUMB_WIDTH,
};
use crate::scanning::ranking::{lemma_ranking_bounded, rank_indices, ranking};
use crate::text::{copy_opt_string, copy_str, copy_string, decimal, decimal_string, push_str};

verus! {

/// Maximum number of match results to return.
pub const MAX_RESULTS: usize = 5;

/// Maximum raw image bytes accepted (10 MB).
pub const MAX_IMAGE_BYTES: usize = 10485760;

/// Maximum decoded pixel count (50 megapixels).
pub const MAX_PIXEL_COUNT: u64 = 50000000;

/// Bytes per decoded pixel budgeted by the decoder limit (RGBA).
pub const BYTES_PER_PIXEL: u64 = 4;

/// An accepted scan image: its dimensions and perceptual hash.
pub struct ScanImage {
    pub width: u32,
    pub height: u32,
    pub hash: [u8; HASH_SIZE],
}

/// Text of the oversized-file rejection.
pub open spec fn too_many_bytes_message() -> Seq<char> {
    "image file exceeds the "@ + decimal((MAX_IMAGE_BYTES / 1048576) as nat) + " MB size limit"@
}

/// Text of the oversized-image rejection.
pub open spec fn too_many_pixels_message() -> Seq<char> {
    "decoded image exceeds the "@ + decimal((MAX_PIXEL_COUNT / 1000000) as nat)
        + " megapixel limit"@
}

/// The decoder's allocation cap for scan images: `MAX_PIXEL_COUNT` RGBA
/// pixels (`MAX_PIXEL_COUNT * BYTES_PER_PIXEL` bytes).
pub const SCAN_DECODE_CAP: u64 = 200000000;

/// What a decoded scan image of `width` × `height` pixels becomes: more
/// than `MAX_PIXEL_COUNT` pixels is `InputTooLarge` (the thumbnail is then
/// not needed and not read); otherwise the image is accepted with its size
/// and the difference hash of `gray`, its 17×16 grayscale thumbnail.
pub fn scan_decoded(width: u32, height: u32, gray: &Vec<u8>) -> (r: Result<ScanImage>)
    requires
        width * height <= MAX_PIXEL_COUNT ==> gray@.len() == THUMB_WIDTH * THUMB_HEIGHT,
    ensures
        width * height > MAX_PIXEL_COUNT ==> {
            &&& r matches Err(Error::InputTooLarge { message, limit, actual })
            &&& message@ == too_many_pixels_message()
            &&& limit@ == decimal(MAX_PIXEL_COUNT as nat)
            &&& actual@ == decimal((width * height) as nat)
        },
        width * height <= MAX_PIXEL_COUNT ==> {
            &&& r matches Ok(s)
            &&& s.width == width
            &&& s.height == height
            &&& is_dhash_of(s.hash@, gray@)
        },
{
    assert((width as u64) * (height as u64) <= u64::MAX) by (nonlinear_arith)
        requires
            width <= u32::MAX,
            height <= u32::MAX,
    ;
    let pixel_count: u64 = (width as u64) * (height as u64);
    if pixel_count > MAX_PIXEL_COUNT {
        let mut message = copy_str("decoded image exceeds the ");
        let mp = decimal_string(MAX_PIXEL_COUNT / 1000000);
        push_str(&mut message, mp.as_str());
        push_str(&mut message, " megapixel limit");
        return Err(
            Error::InputTooLarge {
                message,
                limit: decimal_string(MAX_PIXEL_COUNT),
                actual: decimal_string(pixel_count),
            },
        );
    }
    let hash = dhash_from_gray(gray);
    Ok(ScanImage { width, height, hash })
}

/// Guards, decodes and hashes a scan image.
///
/// Empty input is `InvalidInput`; more than `MAX_IMAGE_BYTES` bytes is
/// `InputTooLarge` before any decoding. The bytes are then decoded with the
/// allocation capped at `SCAN_DECODE_CAP`; bytes that fail to decode are
/// `ImageDecode`, and a decoded image goes through `scan_decoded`: more than
/// `MAX_PIXEL_COUNT` pixels is `InputTooLarge`, any other image is accepted
/// with its size and the hash of its 17×16 thumbnail.
pub fn scan_image(bytes: &[u8]) -> (r: Result<ScanImage>)
    ensures
        bytes@.len() == 0 ==> (r matches Err(Error::InvalidInput(m)) && m@
            == "empty image buffer"@),
        bytes@.len() > MAX_IMAGE_BYTES ==> (r matches Err(
            Error::InputTooLarge { message, limit, actual },
        ) && message@ == too_many_bytes_message() && limit@ == decimal(MAX_IMAGE_BYTES as nat)
            && actual@ == decimal(bytes@.len())),
        0 < bytes@.len() <= MAX_IMAGE_BYTES ==> match r {
            Ok(s) => {
                &&& s.width * s.height <= MAX_PIXEL_COUNT
                &&& exists|gray: Seq<u8>|
                    gray.len() == THUMB_WIDTH * THUMB_HEIGHT && is_dhash_of(s.hash@, gray)
            },
            Err(Error::ImageDecode(_)) => true,
            Err(Error::InputTooLarge { message, limit, actual }) => {
                &&& message@ == too_many_pixels_message()
                &&& limit@ == decimal(MAX_PIXEL_COUNT as nat)
                &&& exists|n: nat| n > MAX_PIXEL_COUNT && actual@ == decimal(n)
            },
            Err(_) => false,
        },
{
    if bytes.len() == 0 {
        return Err(Error::InvalidInput(copy_str("empty image buffer")));
    }
    if bytes.len() > MAX_IMAGE_BYTES {
        let mut message = copy_str("image file exceeds the ");
        let mb = decimal_string((MAX_IMAGE_BYTES / 1048576) as u64);
        push_str(&mut message, mb.as_str());
        push_str(&mut message, " MB size limit");
        return Err(
            Error::InputTooLarge {
                message,
                limit: decimal_string(MAX_IMAGE_BYTES as u64),
                actual: decimal_string(bytes.len() as u64),
            },
        );
    }
    assert(SCAN_DECODE_CAP == MAX_PIXEL_COUNT * BYTES_PER_PIXEL);
    let (img, width, height) = match decode_image(bytes, SCAN_DECODE_CAP) {
        Ok(d) => d,
        Err(m) => {
            return Err(Error::ImageDecode(m));
        },
    };
    assert((width as u64) * (height as u64) <= u64::MAX) by (nonlinear_arith)
        requires
            width <= u32::MAX,
            height <= u32::MAX,
    ;
    let gray = if (width as u64) * (height as u64) <= MAX_PIXEL_COUNT {
        thumbnail(&img)
    } else {
        Vec::new()
    };
    scan_decoded(width, height, &gray)
}

/// A candidate match, before its confidence is computed.
pub struct ScanCandidate {
    pub game: Game,
    pub card_id: CardId,
    pub name: String,
    pub set_name: String,
    pub image_url: Option<String>,
    /// Hamming distance between the scan's hash and the card's hash.
    pub distance: u32,
}

/// Two candidates describe the same match.
pub open spec fn same_candidate(a: ScanCandidate, b: ScanCandidate) -> bool {
    &&& a.game == b.game
    &&& a.card_id.0@ == b.card_id.0@
    &&& a.name@ == b.name@
    &&& a.set_name@ == b.set_name@
    &&& (a.image_url is Some <==> b.image_url is Some)
    &&& (a.image_url is Some ==> a.image_url->0@ == b.image_url->0@)
    &&& a.distance == b.distance
}

impl ScanCandidate {
    pub fn duplicate(&self) -> (r: ScanCandidate)
        ensures
            same_candidate(r, *self),
    {
        ScanCandidate {
            game: self.game,
            card_id: self.card_id.duplicate(),
            name: copy_string(&self.name),
            set_name: copy_string(&self.set_name),
            image_url: copy_opt_string(&self.image_url),
            distance: self.distance,
        }
    }
}

/// The distances of a list of candidates.
pub open spec fn candidate_distances(c: Seq<ScanCandidate>) -> Seq<u32> {
    Seq::new(c.len(), |i: int| c[i].distance)
}

/// The best `limit` candidates across games: nearest first, ties in the
/// given order.
pub fn best_candidates(cands: &Vec<ScanCandidate>, limit: usize) -> (r: Vec<ScanCandidate>)
    ensures
        r@.len() == ranking(candidate_distances(cands@), u32::MAX as nat, limit as nat).len(),
        forall|k: int|
            0 <= k < r@.len() ==> {
                let i = ranking(candidate_distances(cands@), u32::MAX as nat, limit as nat)[k] as int;
                0 <= i < cands@.len() && same_candidate(#[trigger] r@[k], cands@[i])
            },
{
    let mut dists: Vec<u32> = Vec::new();
    let mut i: usize = 0;
    while i < cands.len()
        invariant
            i <= cands@.len(),
            dists@ =~= candidate_distances(cands@).take(i as int),
        decreases cands@.len() - i,
    {
        dists.push(cands[i].distance);
        i = i + 1;
    }
    assert(dists@ =~= candidate_distances(cands@));
    let order = rank_indices(&dists, u32::MAX, limit);
    proof {
        lemma_ranking_bounded(dists@, u32::MAX as nat, limit as nat);
    }
    let mut out: Vec<ScanCandidate> = Vec::new();
    let mut k: usize = 0;
    while k < order.len()
        invariant
            order@ == ranking(dists@, u32::MAX as nat, limit as nat),
            dists@ == candidate_distances(cands@),
            forall|j: int| 0 <= j < order@.len() ==> order@[j] < cands@.len(),
            k <= order@.len(),
            out@.len() == k,
            forall|j: int|
                0 <= j < k ==> same_candidate(#[trigger] out@[j], cands@[order@[j] as int]),
        decreases order@.len() - k,
    {
        let c = cands[order[k]].duplicate();
        out.push(c);
        k = k + 1;
    }
    out
}

} // verus!
