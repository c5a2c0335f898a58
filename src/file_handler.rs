use vstd::prelude::*;

use crate::error::{is_invalid_input, validate_file_size, AppError, ValidationError};
use crate::text::{chars_of, split_bounds, split_on, string_of};

verus! {

/// Largest path length, in bytes, that the handler accepts.
pub const MAX_PATH_BYTES: usize = 4096;

/// Limits and locations for file operations.
#[derive(Debug)]
pub struct FileHandlerConfig {
    /// Largest file accepted, in bytes.
    pub max_file_size: u64,
    /// Directory for temporary files.
    pub temp_dir: String,
    /// File extensions accepted.
    pub allowed_extensions: Vec<String>,
}

impl FileHandlerConfig {
    /// 100 MiB files, temporary files under `/tmp/dochub`, extensions `pdf` and `PDF`.
    pub fn default() -> (r: FileHandlerConfig)
        ensures
            r.max_file_size == 100 * 1024 * 1024,
            r.temp_dir@ == "/tmp/dochub"@,
            r.allowed_extensions@.len() == 2,
            r.allowed_extensions@[0]@ == "pdf"@,
            r.allowed_extensions@[1]@ == "PDF"@,
    {
        let mut allowed_extensions: Vec<String> = Vec::new();
        allowed_extensions.push("pdf".to_string());
        allowed_extensions.push("PDF".to_string());
        FileHandlerConfig {
            max_file_size: 100 * 1024 * 1024,
            temp_dir: "/tmp/dochub".to_string(),
            allowed_extensions,
        }
    }
}

/// Checks paths before any file is touched.
#[derive(Debug)]
pub struct FileHandler {
    pub config: FileHandlerConfig,
}

/// The length of the UTF-8 encoding of `s`, as `str::len` gives it.
pub open spec fn byte_len(s: Seq<char>) -> usize {
    vstd::utf8::encode_utf8(s).len() as usize
}

/// One of the path's components is `..`.
pub open spec fn has_parent_component(path: Seq<char>) -> bool {
    exists|k: int| 0 <= k < split_on(path, '/').len() && #[trigger] split_on(path, '/')[k] == seq!['.', '.']
}

impl FileHandler {
    /// A handler with the default configuration (see `FileHandlerConfig::default`);
    /// a caller that knows the system's temporary directory passes it through
    /// `with_config`.
    pub fn new() -> (r: FileHandler)
        ensures
            r.config.max_file_size == 100 * 1024 * 1024,
            r.config.temp_dir@ == "/tmp/dochub"@,
            r.config.allowed_extensions@.len() == 2,
            r.config.allowed_extensions@[0]@ == "pdf"@,
            r.config.allowed_extensions@[1]@ == "PDF"@,
    {
        FileHandler::with_config(FileHandlerConfig::default())
    }

    pub fn with_config(config: FileHandlerConfig) -> (r: FileHandler)
        ensures
            r.config == config,
    {
        FileHandler { config }
    }

    /// Accepts a path that is not empty, has no `..` component and is at most
    /// 4096 bytes long; every rejection is an invalid-input error.
    pub fn validate_path(&self, path: &str) -> (r: Result<String, AppError>)
        ensures
            r is Ok <==> (path@.len() > 0 && !has_parent_component(path@) && byte_len(path@)
                <= MAX_PATH_BYTES),
            r is Ok ==> r->Ok_0@ == path@,
            r is Err ==> is_invalid_input(r->Err_0),
    {
        if path.is_empty() {
            return Err(AppError::validation("Path cannot be empty"));
        }
        let cs = chars_of(path);
        assert(cs@.subrange(0, cs.len() as int) =~= path@);
        let parts = split_bounds(&cs, 0, cs.len(), '/');
        let mut k: usize = 0;
        while k < parts.len()
            invariant
                k <= parts.len(),
                parts.len() == split_on(path@, '/').len(),
                forall|j: int|
                    0 <= j < parts.len() ==> (#[trigger] parts[j]).0 <= parts[j].1 <= cs.len()
                        && cs@.subrange(parts[j].0 as int, parts[j].1 as int) == split_on(path@, '/')[j],
                forall|j: int| 0 <= j < k ==> #[trigger] split_on(path@, '/')[j] != seq!['.', '.'],
            decreases parts.len() - k,
        {
            let (a, b) = parts[k];
            if b - a == 2 && cs[a] == '.' && cs[a + 1] == '.' {
                assert(cs@.subrange(a as int, b as int) =~= seq!['.', '.']);
                return Err(AppError::validation("Path contains directory traversal attempts"));
            }
            assert(cs@.subrange(a as int, b as int) != seq!['.', '.']) by {
                if cs@.subrange(a as int, b as int) == seq!['.', '.'] {
                    assert(cs@.subrange(a as int, b as int)[0] == cs@[a as int]);
                    assert(cs@.subrange(a as int, b as int)[1] == cs@[a + 1]);
                }
            }
            k = k + 1;
        }
        assert(!has_parent_component(path@));
        if path.len() > MAX_PATH_BYTES {
            return Err(AppError::validation("Path is too long"));
        }
        Ok(string_of(&cs))
    }

    /// Checks what the file system reported of `path`: the path passes
    /// `validate_path`, it names a regular file, and the file is at most
    /// `max_file_size` bytes (else `FileTooLarge`).
    pub fn check_file(&self, path: &str, is_file: bool, size: u64) -> (r: Result<(), AppError>)
        ensures
            r is Ok <==> (path@.len() > 0 && !has_parent_component(path@) && byte_len(path@)
                <= MAX_PATH_BYTES && is_file && size <= self.config.max_file_size),
            (path@.len() > 0 && !has_parent_component(path@) && byte_len(path@) <= MAX_PATH_BYTES && is_file
                && size > self.config.max_file_size) ==> r is Err && r->Err_0 matches AppError::Validation(
                ValidationError::FileTooLarge { .. },
            ),
    {
        let checked = match self.validate_path(path) {
            Ok(p) => p,
            Err(e) => {
                return Err(e);
            },
        };
        if !is_file {
            return Err(AppError::validation("Path is not a file"));
        }
        validate_file_size(&checked, size, self.config.max_file_size)
    }
}

} // verus!
