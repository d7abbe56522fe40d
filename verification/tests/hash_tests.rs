use elliecore::hash::content_hash;
use elliecore::hash::fnv1a_hash;

#[test]
fn digest_of_empty_content_is_the_offset_basis() {
    assert_eq!(fnv1a_hash(&b"".to_vec()), 0xcbf29ce484222325);
    assert_eq!(content_hash(&b"".to_vec()), "cbf29ce484222325");
}

#[test]
fn digest_matches_published_vectors() {
    assert_eq!(fnv1a_hash(&b"a".to_vec()), 0xaf63dc4c8601ec8c);
    assert_eq!(content_hash(&b"a".to_vec()), "af63dc4c8601ec8c");
    assert_eq!(content_hash(&b"abc".to_vec()), "e71fa2190541574b");
    assert_eq!(content_hash(&b"hello world".to_vec()), "779a65e7023cd2e7");
}

#[test]
fn changed_content_changes_the_digest() {
    assert_ne!(content_hash(&b"abc".to_vec()), content_hash(&b"abd".to_vec()));
}
