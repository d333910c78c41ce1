//! What a run keeps for every request: the settled configuration, with the
//! form files already read.

use vstd::prelude::*;
use vstd::string::*;
use crate::config::{CustomHeader, FormFieldConfig, HttpMethod, LoadTestConfig, rate_interval, rate_limit_interval};
use crate::errors::LoadTestError;
use crate::text::{chars_of, joined};

verus! {

/// The content of a form file, read once, and the name it is sent under.
#[derive(Debug, Clone, PartialEq, Eq)]
pub struct CachedFile {
    pub content: Vec<u8>,
    pub file_name: String,
}

/// One field of the multipart form of a run.
#[derive(Debug, Clone, PartialEq, Eq)]
pub struct FormField {
    pub name: String,
    pub value: String,
    /// Set for a file field.
    pub file: Option<CachedFile>,
}

/// The settled, immutable configuration of a run.
#[derive(Debug, Clone, PartialEq, Eq)]
pub struct TestConfig {
    pub url: String,
    pub method: HttpMethod,
    pub headers: Vec<CustomHeader>,
    /// The pause before each request, in nanoseconds.
    pub rate_limit_interval_ns: Option<u64>,
    pub randomize_user_agent: bool,
    pub randomize_headers: bool,
    pub add_cache_buster: bool,
    /// The request body; absent when a form is sent.
    pub body: Option<String>,
    pub payload_content_type: Option<String>,
    pub disable_keep_alive: bool,
    /// The multipart form; when present it is not empty.
    pub form_fields: Option<Vec<FormField>>,
}

/// Whether `c` separates the parts of a path: a slash or a backslash.
pub open spec fn is_separator(c: char) -> bool {
    c == '/' || c == '\\'
}

/// Where the last part of `path` begins, looking at its first `upto`
/// characters: behind the last separator, or at 0 where there is none.
pub open spec fn base_start(path: Seq<char>, upto: int) -> int
    decreases upto,
{
    if upto <= 0 {
        0
    } else if is_separator(path[upto - 1]) {
        upto
    } else {
        base_start(path, upto - 1)
    }
}

/// The last part of `path`: what follows its last separator.
pub open spec fn base_name(path: Seq<char>) -> Seq<char> {
    path.subrange(base_start(path, path.len() as int), path.len() as int)
}

/// The name a form file is sent under: the configured name; else the last
/// part of its path; else, where that is empty, `file`.
pub open spec fn file_name_for(explicit: Option<Seq<char>>, path: Seq<char>) -> Seq<char> {
    match explicit {
        Some(name) => name,
        None => if base_name(path).len() > 0 {
            base_name(path)
        } else {
            "file"@
        },
    }
}

proof fn lemma_base_start_bounds(path: Seq<char>, upto: int)
    requires
        0 <= upto <= path.len(),
    ensures
        0 <= base_start(path, upto) <= upto,
    decreases upto,
{
    if upto > 0 && !is_separator(path[upto - 1]) {
        lemma_base_start_bounds(path, upto - 1);
    }
}

/// Derives the name a form file is sent under.
pub fn derive_file_name(explicit: &Option<String>, path: &str) -> (name: String)
    ensures
        name@ == file_name_for(
            match *explicit {
                Some(s) => Some(s@),
                None => None,
            },
            path@,
        ),
{
    match explicit {
        Some(s) => s.clone(),
        None => {
            let chars = chars_of(path);
            let len: usize = chars.len();
            let mut start: usize = len;
            while start > 0 && !(chars[start - 1] == '/' || chars[start - 1] == '\\')
                invariant
                    start <= len,
                    len == chars.len(),
                    chars@ == path@,
                    base_start(path@, len as int) == base_start(path@, start as int),
                decreases start,
            {
                start -= 1;
            }
            proof {
                lemma_base_start_bounds(path@, len as int);
            }
            if start < len {
                String::from_str(path.substring_char(start, len))
            } else {
                String::from_str("file")
            }
        },
    }
}

/// The words for a form file that could not be read.
pub open spec fn file_read_error_text(path: Seq<char>, reason: Seq<char>) -> Seq<char> {
    "Failed to read file '"@ + path + "': "@ + reason
}

/// The error for a form file that could not be read.
pub fn file_read_error(path: &str, reason: &str) -> (e: LoadTestError)
    ensures
        e is InvalidConfig,
        e->InvalidConfig_0@ == file_read_error_text(path@, reason@),
{
    let mut msg = joined("Failed to read file '", path);
    msg.append("': ");
    msg.append(reason);
    LoadTestError::InvalidConfig(msg)
}

/// Settles one form field. `content` is what was read from the field's file;
/// a field becomes a file field where it names a file and content is given.
pub fn prepare_form_field(field: FormFieldConfig, content: Option<Vec<u8>>) -> (out: FormField)
    ensures
        out.name == field.name,
        out.value == field.value,
        out.file is Some <==> field.file_path is Some && content is Some,
        out.file is Some ==> {
            &&& out.file->0.content == content->0
            &&& out.file->0.file_name@ == file_name_for(
                match field.file_name {
                    Some(s) => Some(s@),
                    None => None,
                },
                field.file_path->0@,
            )
        },
{
    let file = match (&field.file_path, content) {
        (Some(path), Some(bytes)) => {
            let file_name = derive_file_name(&field.file_name, path.as_str());
            Some(CachedFile { content: bytes, file_name })
        },
        _ => None,
    };
    FormField { name: field.name, value: field.value, file }
}

/// Settles the configuration of a run. `fields` are the form fields with
/// their files read. A form that has fields replaces the body; an empty
/// form counts as none.
pub fn build_test_config(config: LoadTestConfig, fields: Option<Vec<FormField>>) -> (out:
    TestConfig)
    ensures
        out.url == config.url,
        out.method == config.method,
        out.headers == config.headers,
        out.rate_limit_interval_ns == rate_interval(config.rate_limit_milli),
        out.randomize_user_agent == config.randomize_user_agent,
        out.randomize_headers == config.randomize_headers,
        out.add_cache_buster == config.add_cache_buster,
        out.payload_content_type == config.payload_content_type,
        out.disable_keep_alive == config.disable_keep_alive,
        out.form_fields == match fields {
            Some(f) => if f@.len() > 0 {
                Some(f)
            } else {
                None
            },
            None => None,
        },
        out.body == if out.form_fields is Some {
            None
        } else {
            config.body
        },
{
    let form_fields = match fields {
        Some(f) => if f.len() > 0 {
            Some(f)
        } else {
            None
        },
        None => None,
    };
    let body = if form_fields.is_some() {
        None
    } else {
        config.body
    };
    TestConfig {
        url: config.url,
        method: config.method,
        headers: config.headers,
        rate_limit_interval_ns: rate_limit_interval(config.rate_limit_milli),
        randomize_user_agent: config.randomize_user_agent,
        randomize_headers: config.randomize_headers,
        add_cache_buster: config.add_cache_buster,
        body,
        payload_content_type: config.payload_content_type,
        disable_keep_alive: config.disable_keep_alive,
        form_fields,
    }
}

} // verus!
