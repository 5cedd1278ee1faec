use vintage_story_mod_loader::content_hash::{hash_bytes, hash_chunks, ContentHasher};

const EMPTY: &str = "e3b0c44298fc1c149afbf4c8996fb92427ae41e4649b934ca495991b7852b855";
const ABC: &str = "ba7816bf8f01cfea414140de5dae2223b00361a396177a9cb410ff61f20015ad";

#[test]
fn hash_of_nothing() {
    assert_eq!(hash_bytes(b""), EMPTY);
    assert_eq!(ContentHasher::new().finish(), EMPTY);
}

#[test]
fn hash_of_abc() {
    assert_eq!(hash_bytes(b"abc"), ABC);
}

#[test]
fn hash_is_sixty_four_lowercase_hex_digits() {
    let hash = hash_bytes(b"some archive bytes");
    assert_eq!(hash.len(), 64);
    assert!(hash.chars().all(|c| c.is_ascii_digit() || ('a'..='f').contains(&c)));
}

#[test]
fn chunks_hash_like_the_whole() {
    let mut hasher = ContentHasher::new();
    hasher.update(b"a");
    hasher.update(b"");
    hasher.update(b"bc");
    assert_eq!(hasher.finish(), ABC);
    assert_eq!(hash_chunks(&vec![b"ab".to_vec(), b"c".to_vec()]), ABC);
    assert_eq!(hash_chunks(&vec![]), EMPTY);
}

#[test]
fn equal_bytes_give_equal_hashes_and_different_bytes_do_not() {
    let one = vec![1u8, 2, 3, 4];
    let other = vec![1u8, 2, 3, 4];
    assert_eq!(hash_bytes(&one), hash_bytes(&other));
    assert_ne!(hash_bytes(&one), hash_bytes(&[1u8, 2, 3, 5]));
}
