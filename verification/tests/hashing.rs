use binderbase::domain::CardId;
use binderbase::scanning::hashing::{
    compute_dhash, compute_dhash_from_bytes, dhash_from_gray, hamming_distance, hashes_from_rows,
    nearest_matches, HASH_SIZE,
};
use binderbase::scanning::ranking::rank_indices;
use binderbase::scanning::{best_candidates, scan_decoded, scan_image, ScanCandidate, MAX_RESULTS};
use binderbase::domain::Game;
use image::DynamicImage;

#[test]
fn identical_images_have_zero_distance() {
    let img = DynamicImage::new_rgb8(100, 100);
    let hash1 = compute_dhash(&img);
    let hash2 = compute_dhash(&img);
    assert_eq!(hamming_distance(&hash1, &hash2), 0);
}

#[test]
fn hash_is_correct_size() {
    let img = DynamicImage::new_rgb8(50, 50);
    let hash = compute_dhash(&img);
    assert_eq!(hash.len(), HASH_SIZE);
}

#[test]
fn hamming_distance_is_symmetric() {
    let a = [0xAA; HASH_SIZE];
    let b = [0x55; HASH_SIZE];
    assert_eq!(hamming_distance(&a, &b), hamming_distance(&b, &a));
}

#[test]
fn hamming_distance_max_is_256() {
    let a = [0xFF; HASH_SIZE];
    let b = [0x00; HASH_SIZE];
    assert_eq!(hamming_distance(&a, &b), 256);
}

#[test]
fn hamming_distance_counts_single_bits() {
    let a = [0u8; HASH_SIZE];
    let mut b = [0u8; HASH_SIZE];
    b[0] = 0b1000_0001;
    b[31] = 0b0001_0000;
    assert_eq!(hamming_distance(&a, &b), 3);
    // Triangle inequality on a concrete triple.
    let mut c = [0u8; HASH_SIZE];
    c[0] = 0xFF;
    assert!(hamming_distance(&a, &c) <= hamming_distance(&a, &b) + hamming_distance(&b, &c));
}

#[test]
fn dhash_sets_bit_when_left_pixel_is_brighter() {
    // Row 0: pixel 0 brighter than pixel 1 → bit 0 (MSB of byte 0) set.
    let mut gray = vec![0u8; 17 * 16];
    gray[0] = 200;
    // Row 1, column 15: brighter than column 16 → bit 31 (LSB of byte 3).
    gray[17 + 15] = 9;
    let h = dhash_from_gray(&gray);
    assert_eq!(h[0], 0b1000_0000);
    assert_eq!(h[3], 0b0000_0001);
    assert_eq!(h.iter().map(|b| b.count_ones()).sum::<u32>(), 2);
}

#[test]
fn dhash_of_gradient_sets_every_bit() {
    // Brightness falling from left to right sets all 256 bits.
    let mut gray = Vec::new();
    for _y in 0..16 {
        for x in 0..17u8 {
            gray.push(255 - x * 10);
        }
    }
    assert_eq!(dhash_from_gray(&gray), [0xFF; HASH_SIZE]);
}

#[test]
fn undecodable_bytes_are_image_decode_errors() {
    let err = compute_dhash_from_bytes(b"definitely not an image").unwrap_err();
    assert_eq!(err.kind(), "image_decode");
}

#[test]
fn hashes_from_rows_skips_malformed_blobs() {
    let rows = vec![
        ("a".to_string(), vec![1u8; HASH_SIZE]),
        ("b".to_string(), vec![2u8; 5]),
        ("c".to_string(), vec![3u8; HASH_SIZE]),
    ];
    let hashes = hashes_from_rows(&rows);
    assert_eq!(hashes.len(), 2);
    assert_eq!(hashes[0].0, CardId("a".into()));
    assert_eq!(hashes[0].1, [1u8; HASH_SIZE]);
    assert_eq!(hashes[1].0, CardId("c".into()));
}

#[test]
fn find_nearest_returns_sorted_by_confidence() {
    let stored = vec![
        (CardId("c1".into()), [0x00u8; HASH_SIZE]),
        (CardId("c2".into()), [0xFFu8; HASH_SIZE]),
    ];
    let query = [0x00; HASH_SIZE];
    let matches = nearest_matches(&query, &stored, 5, 256);
    assert_eq!(matches.len(), 2);
    assert_eq!(matches[0].0, CardId("c1".into()));
    assert_eq!(matches[0].1, 0);
    assert_eq!(matches[1].0, CardId("c2".into()));
    assert_eq!(matches[1].1, 256);
}

#[test]
fn nearest_matches_filters_caps_and_keeps_ties_in_order() {
    let mut far = [0u8; HASH_SIZE];
    far[0] = 0xFF;
    let mut near = [0u8; HASH_SIZE];
    near[0] = 0x01;
    let stored = vec![
        (CardId("far".into()), far),
        (CardId("near-1".into()), near),
        (CardId("exact".into()), [0u8; HASH_SIZE]),
        (CardId("near-2".into()), near),
    ];
    let m = nearest_matches(&[0u8; HASH_SIZE], &stored, 3, 4);
    let ids: Vec<&str> = m.iter().map(|(id, _)| id.0.as_str()).collect();
    assert_eq!(ids, vec!["exact", "near-1", "near-2"]);
    let m = nearest_matches(&[0u8; HASH_SIZE], &stored, 2, 8);
    let ids: Vec<&str> = m.iter().map(|(id, _)| id.0.as_str()).collect();
    assert_eq!(ids, vec!["exact", "near-1"]);
}

#[test]
fn rank_indices_orders_by_distance_stably() {
    assert_eq!(rank_indices(&vec![3, 1, 2, 1, 9], 3, 10), vec![1, 3, 2, 0]);
    assert_eq!(rank_indices(&vec![3, 1, 2, 1, 9], 3, 2), vec![1, 3]);
    assert!(rank_indices(&vec![], 3, 2).is_empty());
}

#[test]
fn best_candidates_merges_games_best_first() {
    let cand = |game, id: &str, distance| ScanCandidate {
        game,
        card_id: CardId(id.into()),
        name: id.to_string(),
        set_name: String::new(),
        image_url: None,
        distance,
    };
    let all = vec![
        cand(Game::Mtg, "m1", 10),
        cand(Game::Mtg, "m2", 40),
        cand(Game::Pokemon, "p1", 5),
        cand(Game::Pokemon, "p2", 10),
        cand(Game::Pokemon, "p3", 70),
        cand(Game::Mtg, "m3", 71),
    ];
    let best = best_candidates(&all, MAX_RESULTS);
    let ids: Vec<&str> = best.iter().map(|c| c.card_id.0.as_str()).collect();
    assert_eq!(ids, vec!["p1", "m1", "p2", "m2", "p3"]);
}

#[test]
fn scan_identify_rejects_oversized_image_bytes() {
    // 11 MB of zeros — exceeds the 10 MB limit.
    let huge = vec![0u8; 11 * 1024 * 1024];
    let err = match scan_image(&huge) {
        Err(e) => e,
        Ok(_) => panic!("oversized input accepted"),
    };
    let msg = err.to_string();
    assert!(
        msg.contains("10 MB"),
        "error should mention size limit: {msg}"
    );
    assert_eq!(err.kind(), "input_too_large");
}

#[test]
fn scan_identify_rejects_empty_buffer() {
    let err = match scan_image(&[]) {
        Err(e) => e,
        Ok(_) => panic!("empty input accepted"),
    };
    assert!(err.to_string().contains("empty"));
}

#[test]
fn scan_image_hashes_a_decodable_png() {
    let img = DynamicImage::new_rgb8(40, 30);
    let mut bytes = Vec::new();
    img.write_to(&mut std::io::Cursor::new(&mut bytes), image::ImageFormat::Png)
        .unwrap();
    let scan = match scan_image(&bytes) {
        Ok(s) => s,
        Err(e) => panic!("decodable image rejected: {}", e.to_string()),
    };
    assert_eq!((scan.width, scan.height), (40, 30));
    assert_eq!(scan.hash, compute_dhash(&img));
}

#[test]
fn rank_indices_handles_the_full_distance_range() {
    let d = vec![5, u32::MAX, 0, 5];
    assert_eq!(rank_indices(&d, u32::MAX, 10), vec![2, 0, 3, 1]);
    assert_eq!(rank_indices(&d, u32::MAX, 2), vec![2, 0]);
    assert_eq!(rank_indices(&d, 4, 10), vec![2]);
    assert_eq!(rank_indices(&d, u32::MAX - 1, 10), vec![2, 0, 3]);
    assert_eq!(rank_indices(&vec![], u32::MAX, 10), Vec::<usize>::new());
}

#[test]
fn scan_decoded_applies_the_megapixel_limit_and_hashes_the_thumbnail() {
    match scan_decoded(10000, 5001, &Vec::new()) {
        Err(binderbase::domain::Error::InputTooLarge { message, limit, actual }) => {
            assert_eq!(message, "decoded image exceeds the 50 megapixel limit");
            assert_eq!(limit, "50000000");
            assert_eq!(actual, "50010000");
        }
        other => panic!("expected InputTooLarge, got ok={}", other.is_ok()),
    }
    let gray: Vec<u8> = (0..272u32).map(|i| (i * 7 % 251) as u8).collect();
    let s = scan_decoded(10000, 5000, &gray).unwrap();
    assert_eq!((s.width, s.height), (10000, 5000));
    assert_eq!(s.hash, dhash_from_gray(&gray));
}
