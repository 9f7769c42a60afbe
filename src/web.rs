//! Decisions of the upload page and of the server's configuration: file
//! extensions, upload checks and keys, the cache's base URL and directory.
use vstd::prelude::*;
use crate::codec::{get_extension_from_mime_type, lowercase_of, mime_extension, to_lowercase};
use crate::keyer::{compute_hash, key_of};
use crate::store::{join_path, joined_path, normalize_scheme, normalize_url_scheme};
use crate::text::{
    decimal, decimal_string, has_prefix, join2, starts_with, str_eq, trim, trim_end_char, trim_end_matches,
    trim_ws,
};

verus! {

/// The position of the last `.` in `s`.
pub open spec fn last_dot(s: Seq<char>, i: int) -> Option<int>
    decreases i + 1,
{
    if i < 0 {
        None
    } else if s[i] == '.' {
        Some(i)
    } else {
        last_dot(s, i - 1)
    }
}

/// The extension of a file name: what follows its last `.`, trimmed and
/// lowered, when that is not empty.
pub open spec fn filename_extension(name: Seq<char>) -> Option<Seq<char>> {
    match last_dot(name, name.len() - 1) {
        None => None,
        Some(i) => {
            let t = trim_ws(name.skip(i + 1));
            if t.len() > 0 && t != name {
                Some(lowercase_of(t))
            } else {
                None
            }
        },
    }
}

proof fn lemma_last_dot_in_range(s: Seq<char>, i: int)
    requires
        i < s.len(),
    ensures
        last_dot(s, i) matches Some(j) ==> 0 <= j <= i && s[j] == '.',
    decreases i + 1,
{
    if i >= 0 && s[i] != '.' {
        lemma_last_dot_in_range(s, i - 1);
    }
}

/// The lowered extension of a file name, if it has one.
pub fn extension_from_filename(file_name: &str) -> (r: Option<String>)
    ensures
        r is Some <==> filename_extension(file_name@) is Some,
        r matches Some(e) ==> filename_extension(file_name@) == Some(e@),
{
    let n = file_name.unicode_len();
    let mut i: usize = n;
    while i > 0 && file_name.get_char(i - 1) != '.'
        invariant
            n == file_name@.len(),
            i <= n,
            last_dot(file_name@, n - 1) == last_dot(file_name@, i - 1),
        decreases i,
    {
        i = i - 1;
    }
    if i == 0 {
        return None;
    }
    let ext = file_name.substring_char(i, n);
    assert(ext@ =~= file_name@.skip(i as int));
    let t = trim(ext);
    if t.unicode_len() > 0 && !str_eq(t, file_name) {
        Some(to_lowercase(t))
    } else {
        None
    }
}

/// The extension for an upload: the file name's, else the content type's
/// when it knows one, else `bin`.
pub open spec fn upload_extension(name: Seq<char>, content_type: Option<Seq<char>>) -> Seq<char> {
    match filename_extension(name) {
        Some(e) => e,
        None => match content_type {
            Some(c) => if mime_extension(lowercase_of(c)) != "bin"@ {
                mime_extension(lowercase_of(c))
            } else {
                "bin"@
            },
            None => "bin"@,
        },
    }
}

/// The extension to store an upload under.
pub fn resolve_extension(file_name: &str, content_type: Option<&str>) -> (r: String)
    ensures
        r@ == upload_extension(
            file_name@,
            match content_type {
                Some(c) => Some(c@),
                None => None,
            },
        ),
{
    if let Some(ext) = extension_from_filename(file_name) {
        return ext;
    }
    if let Some(c) = content_type {
        let ext = get_extension_from_mime_type(c);
        if !str_eq(ext, "bin") {
            return String::from_str(ext);
        }
    }
    String::from_str("bin")
}

/// Why an upload is refused.
#[derive(Clone, Copy, Debug, PartialEq, Eq, Structural)]
pub enum UploadError {
    /// The declared content type is not an image type.
    UnsupportedType,
    /// The form holds no file.
    MissingFile,
    /// The file is empty.
    EmptyFile,
}

/// Checks an upload form: a declared content type must start with
/// `image/`; a file must be there, and not be empty.
pub fn check_upload(content_type: Option<&str>, file_name: Option<&str>, byte_len: Option<usize>) -> (r: Result<
    (),
    UploadError,
>)
    ensures
        (content_type is Some && !starts_with(content_type->0@, "image/"@)) ==> r == Err::<(), UploadError>(
            UploadError::UnsupportedType,
        ),
        !(content_type is Some && !starts_with(content_type->0@, "image/"@)) ==> r == if file_name is None
            || byte_len is None {
            Err::<(), UploadError>(UploadError::MissingFile)
        } else if byte_len->0 == 0 {
            Err::<(), UploadError>(UploadError::EmptyFile)
        } else {
            Ok::<(), UploadError>(())
        },
{
    if let Some(c) = content_type {
        if !has_prefix(c, "image/") {
            return Err(UploadError::UnsupportedType);
        }
    }
    if file_name.is_none() || byte_len.is_none() {
        return Err(UploadError::MissingFile);
    }
    if let Some(len) = byte_len {
        if len == 0 {
            return Err(UploadError::EmptyFile);
        }
    }
    Ok(())
}

/// `uploads/<key of "upload:<time>:<name>:<length>">.<ext>`.
pub open spec fn upload_key_of(timestamp: u64, file_name: Seq<char>, byte_len: u64, ext: Seq<char>) -> Seq<char> {
    "uploads/"@ + key_of(
        "upload:"@ + decimal(timestamp as nat) + ":"@ + file_name + ":"@ + decimal(byte_len as nat),
    ) + "."@ + ext
}

/// The key an upload is stored under.
pub fn upload_key(timestamp: u64, file_name: &str, byte_len: u64, ext: &str) -> (r: String)
    ensures
        r@ == upload_key_of(timestamp, file_name@, byte_len, ext@),
{
    let mut input = String::from_str("upload:");
    input.append(decimal_string(timestamp).as_str());
    input.append(":");
    input.append(file_name);
    input.append(":");
    input.append(decimal_string(byte_len).as_str());
    let hash = compute_hash(input.as_str());
    let mut key = String::from_str("uploads/");
    key.append(hash.as_str());
    key.append(".");
    key.append(ext);
    key
}

pub open spec fn non_blank(o: Option<&str>) -> bool {
    o is Some && trim_ws(o->0@).len() > 0
}

/// The base URL of the cache: an explicit cache URL without trailing
/// slashes, or else the domain (or the bind address) with `http://` added
/// when it names no scheme, normalized; then `/cache`.
pub open spec fn cache_base_url_of(cache_url: Option<&str>, domain: Option<&str>, bind_address: Seq<char>) -> Seq<
    char,
> {
    if non_blank(cache_url) {
        trim_end_char(trim_ws(cache_url->0@), '/') + "/cache"@
    } else {
        let raw = if non_blank(domain) {
            domain->0@
        } else {
            bind_address
        };
        let t = trim_ws(raw);
        let base = if starts_with(t, "http://"@) || starts_with(t, "https://"@) {
            trim_end_char(t, '/')
        } else {
            "http://"@ + trim_end_char(t, '/')
        };
        normalize_scheme(base) + "/cache"@
    }
}

/// The cache's base URL from the configured values.
pub fn cache_base_url(cache_url: Option<&str>, domain: Option<&str>, bind_address: &str) -> (r: String)
    ensures
        r@ == cache_base_url_of(cache_url, domain, bind_address@),
{
    if let Some(c) = cache_url {
        let t = trim(c);
        if t.unicode_len() > 0 {
            return join2(trim_end_matches(t, '/'), "/cache");
        }
    }
    let raw = match domain {
        Some(d) => if trim(d).unicode_len() > 0 {
            d
        } else {
            bind_address
        },
        None => bind_address,
    };
    let t = trim(raw);
    let base = if has_prefix(t, "http://") || has_prefix(t, "https://") {
        String::from_str(trim_end_matches(t, '/'))
    } else {
        join2("http://", trim_end_matches(t, '/'))
    };
    let normalized = normalize_url_scheme(base.as_str());
    join2(normalized.as_str(), "/cache")
}

/// The cache directory: a configured one that is not blank, else
/// `image-edit-rmcp` under the system cache directory (or the current one).
pub fn choose_cache_dir(configured: Option<&str>, system_cache: Option<&str>) -> (r: String)
    ensures
        non_blank(configured) ==> r@ == configured->0@,
        !non_blank(configured) ==> r@ == joined_path(
            match system_cache {
                Some(s) => s@,
                None => "."@,
            },
            "image-edit-rmcp"@,
        ),
{
    if let Some(c) = configured {
        if trim(c).unicode_len() > 0 {
            return String::from_str(c);
        }
    }
    let base = match system_cache {
        Some(s) => s,
        None => ".",
    };
    join_path(base, "image-edit-rmcp")
}

} // verus!
