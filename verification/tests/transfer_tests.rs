use nudge::error::NudgeError;
use nudge::transfer::check_received_hash;
use nudge::transfer::choose_output_path;
use nudge::transfer::compute_file_hash;
use nudge::transfer::download_decision;
use nudge::transfer::overwrite_decision;
use nudge::transfer::split_into_chunks;
use nudge::utils::AnonymousString;

#[test]
fn test_chunking_two_chunks() {
    let data: Vec<u8> = b"abc".repeat(1667);
    let chunks = split_into_chunks(&data, 4096);
    assert_eq!(chunks.len(), 2);
    assert_eq!(chunks[0].len(), 4096);
    assert_eq!(chunks[1].len(), data.len() - 4096);
    let mut joined: Vec<u8> = Vec::new();
    for chunk in &chunks {
        joined.extend_from_slice(chunk);
    }
    assert_eq!(joined, data);
}

#[test]
fn test_chunking_exact_multiple() {
    let data = vec![9u8; 8192];
    let chunks = split_into_chunks(&data, 4096);
    assert_eq!(chunks.len(), 2);
    assert_eq!(chunks[0].len(), 4096);
    assert_eq!(chunks[1].len(), 4096);
}

#[test]
fn test_chunking_empty() {
    let data: Vec<u8> = Vec::new();
    assert!(split_into_chunks(&data, 4096).is_empty());
}

#[test]
fn test_path_traversal_defense() {
    assert_eq!(choose_output_path(&None, "../evil"), "evil");
    assert_eq!(choose_output_path(&None, "/etc/passwd"), "passwd");
    assert_eq!(choose_output_path(&None, "plain.txt"), "plain.txt");
    assert_eq!(choose_output_path(&None, "a/b/c.txt"), "c.txt");
}

#[test]
fn test_explicit_output_path_wins() {
    let out = Some(String::from("here.bin"));
    assert_eq!(choose_output_path(&out, "../evil"), "here.bin");
}

#[test]
fn test_overwrite_decision() {
    assert_eq!(overwrite_decision(true, true, false).unwrap(), false);
    assert_eq!(overwrite_decision(false, false, false).unwrap(), false);
    assert_eq!(overwrite_decision(false, true, false).unwrap(), true);
    assert!(matches!(
        overwrite_decision(false, true, true),
        Err(NudgeError::NoPromptExit)
    ));
}

#[test]
fn test_download_decision() {
    assert_eq!(download_decision(true, false).unwrap(), false);
    assert_eq!(download_decision(true, true).unwrap(), false);
    assert_eq!(download_decision(false, false).unwrap(), true);
    assert!(matches!(download_decision(false, true), Err(NudgeError::NoPromptExit)));
}

#[test]
fn test_skip_hash_offers_no_hash() {
    let data = b"abc".to_vec();
    let hash = compute_file_hash(true, &data);
    assert!(hash.0.is_none());
}

#[test]
fn test_computed_hash_is_hex() {
    let data = b"abc".to_vec();
    let hash = compute_file_hash(false, &data);
    let text = hash.0.unwrap();
    assert_eq!(text.len(), 64);
    assert!(text.chars().all(|c| c.is_ascii_hexdigit()));
}

#[test]
fn test_hash_round_trip() {
    let data: Vec<u8> = b"abc".repeat(1667);
    let offered = compute_file_hash(false, &data);
    assert!(check_received_hash(&offered, false, &data).is_ok());
}

#[test]
fn test_hash_mismatch_reports_both_digests() {
    let data: Vec<u8> = b"abc".repeat(1667);
    let offered = compute_file_hash(false, &data);
    let expected_digest = offered.0.clone().unwrap();

    let mut altered = data.clone();
    altered[100] ^= 0x01;
    match check_received_hash(&offered, false, &altered) {
        Err(NudgeError::HashMismatch(expected, actual)) => {
            assert_eq!(expected, expected_digest);
            assert_ne!(actual, expected_digest);
            assert_eq!(actual.len(), 64);
        }
        other => panic!("expected HashMismatch, got {:?}", other),
    }
}

#[test]
fn test_hash_check_skipped_or_absent() {
    let data = b"abc".to_vec();
    let altered = b"abd".to_vec();
    let offered = compute_file_hash(false, &data);
    // Skipping the check accepts anything.
    assert!(check_received_hash(&offered, true, &altered).is_ok());
    // A hashless offer is only warned about, never failed.
    assert!(check_received_hash(&AnonymousString(None), false, &altered).is_ok());
}

#[test]
fn test_empty_file_hash_round_trip() {
    let data: Vec<u8> = Vec::new();
    let offered = compute_file_hash(false, &data);
    assert!(offered.0.is_some());
    assert!(check_received_hash(&offered, false, &data).is_ok());
}
