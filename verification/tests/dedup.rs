use ambient_fs::dedup::{ContentDedup, HashError};

fn hash(dedup: &ContentDedup, content: &[u8]) -> Result<String, HashError> {
    dedup.hash_contents(content.len() as u64, content)
}

#[test]
fn hash_empty_file() {
    let dedup = ContentDedup::new(1024);
    let hash = hash(&dedup, b"\n").unwrap();
    assert_eq!(hash.len(), 64);
    assert!(hash.chars().all(|c| c.is_ascii_hexdigit()));
}

#[test]
fn hash_simple_content() {
    let dedup = ContentDedup::new(1024);
    let hash1 = hash(&dedup, b"hello world\n").unwrap();
    assert_eq!(hash1.len(), 64);
    let hash2 = hash(&dedup, b"hello world\n").unwrap();
    assert_eq!(hash1, hash2);
}

#[test]
fn hash_different_content_different_hash() {
    let dedup = ContentDedup::new(1024);
    let hash1 = hash(&dedup, b"content A\n").unwrap();
    let hash2 = hash(&dedup, b"content B\n").unwrap();
    assert_ne!(hash1, hash2);
}

#[test]
fn hash_matches_returns_true_for_same_content() {
    let dedup = ContentDedup::new(1024);
    let content = b"test content\n";
    let hash = hash(&dedup, content).unwrap();
    let matches = dedup.hash_matches(content.len() as u64, content, &hash).unwrap();
    assert!(matches);
}

#[test]
fn hash_matches_returns_false_for_different_hash() {
    let dedup = ContentDedup::new(1024);
    let matches = dedup.hash_matches(0, b"", "deadbeef").unwrap();
    assert!(!matches);
}

#[test]
fn hash_file_that_doesnt_exist() {
    let dedup = ContentDedup::new(1024);
    let result = dedup.check_file("/nonexistent/file.txt", None);
    assert!(matches!(result, Err(HashError::NotFound(_))));
}

#[test]
fn hash_matches_file_that_doesnt_exist() {
    let dedup = ContentDedup::new(1024);
    let result = dedup.check_file("/nonexistent/file.txt", None);
    assert!(matches!(result, Err(HashError::NotFound(ref p)) if p == "/nonexistent/file.txt"));
}

#[test]
fn file_too_large_returns_error() {
    let dedup = ContentDedup::new(100);
    let content = vec![b'a'; 200];
    let result = hash(&dedup, &content);
    assert!(matches!(result, Err(HashError::FileTooLarge { size, max_size }) if size == 200 && max_size == 100));
    assert!(matches!(dedup.check_file("big.bin", Some(200)), Err(HashError::FileTooLarge { size: 200, max_size: 100 })));
}

#[test]
fn hash_matches_file_too_large() {
    let dedup = ContentDedup::new(100);
    let content = vec![b'a'; 200];
    let result = dedup.hash_matches(200, &content, "hash");
    assert!(matches!(result, Err(HashError::FileTooLarge { .. })));
}

#[test]
fn file_exactly_at_max_size_hashes() {
    let dedup = ContentDedup::new(100);
    let content = vec![b'a'; 100];
    assert!(dedup.check_file("f", Some(100)).is_ok());
    let hash = hash(&dedup, &content).unwrap();
    assert_eq!(hash.len(), 64);
}

#[test]
fn one_byte_under_max_size_hashes() {
    let dedup = ContentDedup::new(100);
    let content = vec![b'a'; 99];
    let hash = hash(&dedup, &content).unwrap();
    assert_eq!(hash.len(), 64);
}

#[test]
fn max_size_bytes_returns_configured_value() {
    let dedup = ContentDedup::new(4200);
    assert_eq!(dedup.max_size_bytes(), 4200);
}

#[test]
fn dedup_default_max_size_is_10mb() {
    let dedup = ContentDedup::default();
    assert_eq!(dedup.max_size_bytes(), 10 * 1024 * 1024);
}

#[test]
fn hash_is_deterministic() {
    let dedup = ContentDedup::new(1024);
    let hash1 = hash(&dedup, b"same content\n").unwrap();
    let hash2 = hash(&dedup, b"same content\n").unwrap();
    assert_eq!(hash1, hash2);
}

#[test]
fn hash_binary_content() {
    let dedup = ContentDedup::new(1024);
    let hash = hash(&dedup, &[0x00, 0xFF, 0x42, 0x00]).unwrap();
    assert_eq!(hash.len(), 64);
}

#[test]
fn hash_unicode_content() {
    let dedup = ContentDedup::new(1024);
    let hash = hash(&dedup, "Hello 世界 🌍 مرحبا\n".as_bytes()).unwrap();
    assert_eq!(hash.len(), 64);
}

#[test]
fn hash_of_empty_input_is_the_blake3_reference_value() {
    let dedup = ContentDedup::new(16);
    let hash = hash(&dedup, b"").unwrap();
    assert_eq!(hash, "af1349b9f5f9a1a6a0404dea36dcc9499bcb25c9adc112b7cc9a93cae41f3262");
    assert_ne!(hash.as_bytes(), b"".as_slice());
}

#[test]
fn hash_is_lowercase() {
    let dedup = ContentDedup::new(1024);
    let hash = hash(&dedup, b"abc").unwrap();
    assert!(hash.chars().all(|c| c.is_ascii_digit() || ('a'..='f').contains(&c)));
}
