//! Content-based deduplication with blake3 hashes.
//!
//! Reading a file is the caller's part: the library decides, from what was
//! seen of the file, whether it may be hashed, and hashes the bytes read.
use vstd::prelude::*;
use crate::text::str_eq;

verus! {

/// The lowercase hexadecimal blake3 hash of `content`.
pub uninterp spec fn blake3_hex(content: Seq<u8>) -> Seq<char>;

/// A lowercase hexadecimal digit.
pub open spec fn is_lower_hex_digit(c: char) -> bool {
    ('0' <= c && c <= '9') || ('a' <= c && c <= 'f')
}

/// Sixty-four lowercase hexadecimal digits: the text form of a 32-byte hash.
pub open spec fn is_hash_text(s: Seq<char>) -> bool {
    &&& s.len() == 64
    &&& forall|i: int| 0 <= i < s.len() ==> #[trigger] is_lower_hex_digit(s[i])
}

/// Calls `blake3::hash` on `content` and then `Hash::to_hex`, whose source
/// writes each of the 32 output bytes as two digits of `0123456789abcdef`.
/// The contract names the result and claims its shape; which digits come
/// out is not stated.
#[verifier::external_body]
fn blake3_hash_hex(content: &[u8]) -> (r: String)
    ensures
        r@ == blake3_hex(content@),
        is_hash_text(r@),
{
    blake3::hash(content).to_hex().to_string()
}

/// Errors while hashing a file.
#[derive(Debug)]
pub enum HashError {
    /// Reading the file failed.
    Io(std::io::Error),
    /// The file is larger than the configured maximum.
    FileTooLarge { size: u64, max_size: u64 },
    /// No file at the path.
    NotFound(String),
}

/// Computes blake3 hashes of file contents, skipping files larger than
/// `max_size_bytes`.
#[derive(Debug, Clone, Copy)]
pub struct ContentDedup {
    /// Maximum file size to hash, in bytes.
    pub max_size_bytes: u64,
}

impl ContentDedup {
    /// A deduplicator that hashes files of at most `max_size_bytes` bytes.
    pub fn new(max_size_bytes: u64) -> (r: Self)
        ensures
            r.max_size_bytes == max_size_bytes,
    {
        ContentDedup { max_size_bytes }
    }

    /// The configured maximum file size in bytes.
    pub fn max_size_bytes(&self) -> (r: u64)
        ensures
            r == self.max_size_bytes,
    {
        self.max_size_bytes
    }

    /// Whether the file at `path` may be hashed, given its size, or `None`
    /// when no file is there: a missing file is `NotFound(path)`, one over
    /// the maximum is `FileTooLarge`, and any other file is accepted.
    pub fn check_file(&self, path: &str, size: Option<u64>) -> (r: Result<(), HashError>)
        ensures
            size is None <==> (r matches Err(HashError::NotFound(p)) && p@ == path@),
            size matches Some(s) && s > self.max_size_bytes <==> (r matches Err(
                HashError::FileTooLarge { size: s2, max_size: m },
            ) && size == Some(s2) && m == self.max_size_bytes),
            r is Ok <==> (size matches Some(s) && s <= self.max_size_bytes),
    {
        match size {
            None => Err(HashError::NotFound(path.to_string())),
            Some(s) => {
                if s > self.max_size_bytes {
                    Err(HashError::FileTooLarge { size: s, max_size: self.max_size_bytes })
                } else {
                    Ok(())
                }
            },
        }
    }

    /// The hash of the bytes of a file of `size` bytes (as its metadata
    /// gave it): `FileTooLarge` over the maximum, the hex blake3 hash of
    /// `content` otherwise.
    pub fn hash_contents(&self, size: u64, content: &[u8]) -> (r: Result<String, HashError>)
        ensures
            size > self.max_size_bytes <==> (r matches Err(HashError::FileTooLarge { size: s, max_size: m })
                && s == size && m == self.max_size_bytes),
            size <= self.max_size_bytes <==> (r matches Ok(h) && h@ == blake3_hex(content@)),
            r matches Ok(h) ==> is_hash_text(h@),
    {
        if size > self.max_size_bytes {
            return Err(HashError::FileTooLarge { size, max_size: self.max_size_bytes });
        }
        Ok(blake3_hash_hex(content))
    }

    /// Whether the hash of `content` equals `expected`, for a file of
    /// `size` bytes: `FileTooLarge` over the maximum.
    pub fn hash_matches(&self, size: u64, content: &[u8], expected: &str) -> (r: Result<bool, HashError>)
        ensures
            size > self.max_size_bytes <==> (r matches Err(HashError::FileTooLarge { size: s, max_size: m })
                && s == size && m == self.max_size_bytes),
            size <= self.max_size_bytes <==> (r matches Ok(b) && b == (blake3_hex(content@) == expected@)),
            !is_hash_text(expected@) ==> r != Ok::<bool, HashError>(true),
    {
        match self.hash_contents(size, content) {
            Ok(actual) => Ok(str_eq(actual.as_str(), expected)),
            Err(e) => Err(e),
        }
    }
}

impl Default for ContentDedup {
    /// Ten megabytes.
    fn default() -> (r: Self)
        ensures
            r.max_size_bytes == 10485760,
    {
        Self::new(10485760)
    }
}

} // verus!
