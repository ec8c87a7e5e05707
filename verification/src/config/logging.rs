//! Size-based log rotation: when a log file is rotated, what its backup
//! holds and what the backup is named.

use vstd::prelude::*;
use flate2::write::GzEncoder;
use flate2::Compression;
use std::io::Write;
use crate::text::concat;

verus! {

/// Default rotation threshold: 5 MB.
pub const DEFAULT_MAX_SIZE: u64 = 5 * 1024 * 1024;

/// The bytes written to a log file since it was opened or last rotated,
/// and the size that triggers a rotation.
pub struct LogSize {
    bytes_written: u64,
    max_size: u64,
}

impl LogSize {
    /// Bytes in the current file.
    pub closed spec fn written(&self) -> u64 {
        self.bytes_written
    }

    /// The rotation threshold.
    pub closed spec fn limit(&self) -> u64 {
        self.max_size
    }

    /// Bytes in the current file.
    pub fn written_bytes(&self) -> (r: u64)
        ensures
            r == self.written(),
    {
        self.bytes_written
    }

    /// A file that already holds `bytes_written` bytes, rotated past
    /// `max_size`.
    pub fn new(bytes_written: u64, max_size: u64) -> (r: Self)
        ensures
            r.written() == bytes_written,
            r.limit() == max_size,
    {
        LogSize { bytes_written, max_size }
    }

    /// The same with the default 5 MB threshold.
    pub fn with_default_max(bytes_written: u64) -> (r: Self)
        ensures
            r.written() == bytes_written,
            r.limit() == DEFAULT_MAX_SIZE,
    {
        LogSize { bytes_written, max_size: DEFAULT_MAX_SIZE }
    }

    /// Whether writing `incoming` more bytes must rotate the file first: it
    /// would pass the threshold, and the file is not empty.
    pub fn must_rotate(&self, incoming: u64) -> (r: bool)
        requires
            self.written() + incoming <= u64::MAX,
        ensures
            r == (self.written() + incoming > self.limit() && self.written() > 0),
    {
        self.bytes_written + incoming > self.max_size && self.bytes_written > 0
    }

    /// The file was rotated: it is empty again.
    pub fn rotated(&mut self)
        ensures
            final(self).written() == 0,
            final(self).limit() == old(self).limit(),
    {
        self.bytes_written = 0;
    }

    /// `n` bytes were written.
    pub fn wrote(&mut self, n: u64)
        requires
            old(self).written() + n <= u64::MAX,
        ensures
            final(self).written() == old(self).written() + n,
            final(self).limit() == old(self).limit(),
    {
        self.bytes_written = self.bytes_written + n;
    }
}

/// The name of a rotated log's backup: the file's name (`router.log` when
/// it has none), the rotation timestamp, and `.gz`.
pub open spec fn backup_name_spec(file_name: Option<Seq<char>>, timestamp: Seq<char>) -> Seq<char> {
    let name = match file_name {
        Some(n) => n,
        None => "router.log"@,
    };
    name + "."@ + timestamp + ".gz"@
}

/// The file name of a rotated log's backup.
pub fn backup_name(file_name: Option<&str>, timestamp: &str) -> (r: String)
    ensures
        r@ == backup_name_spec(
            match file_name {
                Some(n) => Some(n@),
                None => None,
            },
            timestamp@,
        ),
{
    let name = match file_name {
        Some(n) => n,
        None => "router.log",
    };
    let a = concat(name, ".");
    let b = concat(a.as_str(), timestamp);
    concat(b.as_str(), ".gz")
}

/// The gzip stream that `flate2` writes for a byte string at the default
/// compression level.
pub uninterp spec fn gzip_of(data: Seq<u8>) -> Seq<u8>;

/// Writes `data` through `flate2::write::GzEncoder` (default level) into
/// a vector. The contract claims that this succeeds (the encoder writes
/// to memory, and a `Vec` never refuses bytes) and that the result is a
/// function of the input, named `gzip_of`; the deflate format is left
/// unstated.
#[verifier::external_body]
fn gzip_compress(data: &[u8]) -> (r: Result<Vec<u8>, String>)
    ensures
        r is Ok,
        r matches Ok(v) ==> v@ == gzip_of(data@),
{
    let mut encoder = GzEncoder::new(Vec::new(), Compression::default());
    match encoder.write_all(data) {
        Ok(()) => match encoder.finish() {
            Ok(v) => Ok(v),
            Err(e) => Err(e.to_string()),
        },
        Err(e) => Err(e.to_string()),
    }
}

/// What a rotation keeps of a log's content: nothing for an empty file,
/// else its gzip compression.
pub fn backup_content(content: &[u8]) -> (r: Result<Option<Vec<u8>>, String>)
    ensures
        content@.len() == 0 ==> r == Ok::<Option<Vec<u8>>, String>(None),
        content@.len() > 0 ==> (r matches Ok(Some(v)) && v@ == gzip_of(content@)),
{
    if content.len() == 0 {
        return Ok(None);
    }
    match gzip_compress(content) {
        Ok(v) => Ok(Some(v)),
        Err(e) => Err(e),
    }
}

} // verus!
