//! File handling rules: upload validation and the cache configuration
//! shapes.
//!
//! Reading, writing and moving file bytes is the hosting layer's work;
//! the rules about what a file may be called and how large it may grow
//! are the library's, stated and proved here.

use vstd::prelude::*;

use crate::errors::AppError;
use crate::strutil::{chars_vec, str_eq};
use vstd::string::StringExecFns;

verus! {

/// Where files are kept and how the cache behaves.
#[derive(Debug)]
pub struct FileStorageConfig {
    pub local_storage_path: String,
    pub max_cache_size: u64,
    pub cache_expiration: u64,
    pub cleanup_interval: u64,
    pub compression_enabled: bool,
    pub encryption_enabled: bool,
}

/// Limits a cache cleanup run enforces.
#[derive(Debug)]
pub struct FileCacheCleanupStrategy {
    pub max_age: String,
    pub max_size: u64,
    pub max_files: u32,
    pub cleanup_on_startup: bool,
    pub cleanup_interval: String,
}

/// What a cleanup run removed.
#[derive(Clone, Copy, Debug, PartialEq, Eq, Structural)]
pub struct CleanupResult {
    pub deleted_files: u32,
    pub freed_space: u64,
}

/// The text after the last dot of a filename, or the whole name when it
/// has no dot.
pub open spec fn spec_ext(s: Seq<char>) -> Seq<char>
    decreases s.len(),
{
    if s.len() == 0 {
        s
    } else if s.last() == '.' {
        Seq::empty()
    } else {
        spec_ext(s.drop_last()).push(s.last())
    }
}

/// ASCII lower-casing, other characters untouched.
pub open spec fn ascii_lower(s: Seq<char>) -> Seq<char> {
    s.map_values(
        |c: char|
            if 'A' <= c && c <= 'Z' {
                (((c as u32) + 32) as u8) as char
            } else {
                c
            },
    )
}

/// An extension the service accepts, compared after lower-casing.
pub open spec fn spec_ext_allowed(e: Seq<char>) -> bool {
    ||| e == "jpg"@
    ||| e == "jpeg"@
    ||| e == "png"@
    ||| e == "gif"@
    ||| e == "pdf"@
    ||| e == "doc"@
    ||| e == "docx"@
    ||| e == "txt"@
}

/// A character a filename may not contain.
pub open spec fn is_file_bad_char(c: char) -> bool {
    ||| c == '<'
    ||| c == '>'
    ||| c == ':'
    ||| c == '"'
    ||| c == '/'
    ||| c == '\\'
    ||| c == '|'
    ||| c == '?'
    ||| c == '*'
}

/// The first rule an upload breaks, or `None`: at most 50 MB, an
/// accepted extension, a name of at most 255 bytes holding no
/// forbidden character.
pub open spec fn spec_file_error(data_len: nat, name: Seq<char>) -> Option<Seq<char>> {
    if data_len > 52428800 {
        Some("File size exceeds 50MB limit"@)
    } else if !spec_ext_allowed(ascii_lower(spec_ext(name))) {
        Some("File type not allowed: "@ + ascii_lower(spec_ext(name)))
    } else if vstd::utf8::encode_utf8(name).len() > 255 {
        Some("File name too long"@)
    } else if exists|i: int| 0 <= i < name.len() && is_file_bad_char(#[trigger] name[i]) {
        Some("File name contains invalid characters"@)
    } else {
        None
    }
}

/// Upload handling around the hosting layer's storage.
pub struct FileService;

impl FileService {
    pub fn new() -> (r: FileService) {
        FileService
    }

    /// Accepts an upload or reports the first broken rule, per
    /// [`spec_file_error`].
    pub fn validate_file(&self, file_data: &[u8], file_name: &str) -> (r: Result<(), AppError>)
        ensures
            match r {
                Ok(_) => spec_file_error(file_data@.len(), file_name@) is None,
                Err(e) => e matches AppError::ValidationError { message: m } && spec_file_error(
                    file_data@.len(),
                    file_name@,
                ) == Some(m@),
            },
    {
        if file_data.len() > 52428800 {
            return Err(
                AppError::validation_error(String::from_str("File size exceeds 50MB limit")),
            );
        }
        let cs = chars_vec(file_name);
        let n = cs.len();
        // find where the extension starts: right after the last dot, or
        // the start of the name
        let mut start: usize = 0;
        let mut i: usize = 0;
        while i < n
            invariant
                cs@ == file_name@,
                n == cs@.len(),
                0 <= i <= n,
                0 <= start <= i,
                start > 0 ==> cs@[start - 1] == '.',
                forall|j: int| start <= j < i ==> #[trigger] cs@[j] != '.',
            decreases n - i,
        {
            if cs[i] == '.' {
                start = i + 1;
            }
            i = i + 1;
        }
        let mut ext = String::new();
        let mut k: usize = start;
        while k < n
            invariant
                cs@ == file_name@,
                n == cs@.len(),
                start <= k <= n,
                0 <= start <= n,
                start > 0 ==> cs@[start - 1] == '.',
                forall|j: int| start <= j < n ==> #[trigger] cs@[j] != '.',
                ext@ == ascii_lower(cs@.subrange(start as int, k as int)),
            decreases n - k,
        {
            let c = cs[k];
            let lc: char = if 'A' <= c && c <= 'Z' {
                (((c as u32) + 32) as u8) as char
            } else {
                c
            };
            ext.push(lc);
            proof {
                assert(cs@.subrange(start as int, k + 1) =~= cs@.subrange(
                    start as int,
                    k as int,
                ).push(cs@[k as int]));
                assert(ext@ =~= ascii_lower(cs@.subrange(start as int, k + 1)));
            }
            k = k + 1;
        }
        proof {
            lemma_ext_suffix(cs@, start as int);
            assert(cs@.subrange(start as int, n as int) =~= spec_ext(cs@));
        }
        let allowed = str_eq(ext.as_str(), "jpg") || str_eq(ext.as_str(), "jpeg") || str_eq(
            ext.as_str(),
            "png",
        ) || str_eq(ext.as_str(), "gif") || str_eq(ext.as_str(), "pdf") || str_eq(
            ext.as_str(),
            "doc",
        ) || str_eq(ext.as_str(), "docx") || str_eq(ext.as_str(), "txt");
        if !allowed {
            let mut m = String::from_str("File type not allowed: ");
            m.append(ext.as_str());
            proof {
                assert(m@ =~= "File type not allowed: "@ + ascii_lower(spec_ext(file_name@)));
            }
            return Err(AppError::validation_error(m));
        }
        if file_name.as_bytes().len() > 255 {
            return Err(AppError::validation_error(String::from_str("File name too long")));
        }
        let mut j: usize = 0;
        while j < n
            invariant
                cs@ == file_name@,
                n == cs@.len(),
                0 <= j <= n,
                file_data@.len() <= 52428800,
                spec_ext_allowed(ascii_lower(spec_ext(cs@))),
                vstd::utf8::encode_utf8(cs@).len() <= 255,
                forall|t: int| 0 <= t < j ==> !is_file_bad_char(#[trigger] cs@[t]),
            decreases n - j,
        {
            let c = cs[j];
            if c == '<' || c == '>' || c == ':' || c == '"' || c == '/' || c == '\\' || c == '|'
                || c == '?' || c == '*' {
                proof {
                    assert(is_file_bad_char(cs@[j as int]));
                }
                return Err(
                    AppError::validation_error(
                        String::from_str("File name contains invalid characters"),
                    ),
                );
            }
            j = j + 1;
        }
        Ok(())
    }
}

/// Past the last dot, the extension is exactly the remaining suffix.
proof fn lemma_ext_suffix(s: Seq<char>, start: int)
    requires
        0 <= start <= s.len(),
        start > 0 ==> s[start - 1] == '.',
        forall|j: int| start <= j < s.len() ==> #[trigger] s[j] != '.',
    ensures
        spec_ext(s) == s.subrange(start, s.len() as int),
    decreases s.len() - start,
{
    if s.len() == 0 {
        assert(spec_ext(s) =~= s.subrange(start, s.len() as int));
    } else if start == s.len() {
        // start trails a dot, so the last character is that dot and the
        // extension is empty
        assert(s[start - 1] == '.');
        assert(s.last() == '.');
        assert(spec_ext(s) =~= s.subrange(start, s.len() as int));
    } else {
        assert(s.last() != '.');
        lemma_ext_suffix(s.drop_last(), start);
        assert(s.drop_last().subrange(start, s.drop_last().len() as int) =~= s.subrange(
            start,
            s.len() - 1,
        ));
        assert(spec_ext(s) =~= s.subrange(start, s.len() as int));
    }
}

} // verus!
