//! The two handlers (a whole directory tree, or one file) and the assembly of
//! a response from what opening the file gave.
use vstd::prelude::*;
use vstd::string::*;
use crate::conditional::{
    lemma_etag_round_trip, entity_tag, etag_of, is_not_modified, not_modified, opt_view, since_of, FileMetadata,
    RequestConditionals,
};
use crate::media::{guessed_media_type, media_type_of, mime_for_path};
use crate::path::{join_path, normalize_path, resolve, views};
use crate::stream::{buf_size_of, optimal_buf_size};

verus! {

/// Configuration shared by every request a handler serves.
#[derive(Clone, Debug)]
pub struct FileOptions {
    path: String,
    cache_control: String,
    gzip: bool,
    brotli: bool,
}

pub open spec fn public_directive() -> Seq<char> {
    seq!['p', 'u', 'b', 'l', 'i', 'c']
}

impl FileOptions {
    /// The configured root directory or file.
    pub closed spec fn path_view(&self) -> Seq<char> {
        self.path@
    }

    pub closed spec fn cache_control_view(&self) -> Seq<char> {
        self.cache_control@
    }

    /// Whether gzip or brotli encoding is switched on (reserved; no effect).
    pub closed spec fn encodings(&self) -> (bool, bool) {
        (self.gzip, self.brotli)
    }

    /// Options for `path`: cache control `public`, no content encoding.
    pub fn default(path: String) -> (r: FileOptions)
        ensures
            r.path_view() == path@,
            r.cache_control_view() == public_directive(),
            r.encodings() == (false, false),
    {
        proof {
            reveal_strlit("public");
        }
        FileOptions { path, cache_control: String::from_str("public"), gzip: false, brotli: false }
    }

    pub fn path(&self) -> (r: &String)
        ensures
            r@ == self.path_view(),
    {
        &self.path
    }

    pub fn cache_control(&self) -> (r: &String)
        ensures
            r@ == self.cache_control_view(),
    {
        &self.cache_control
    }
}

/// Serves any file under a root directory.
#[derive(Clone, Debug)]
pub struct FileSystemHandler {
    options: FileOptions,
}

/// Serves one file.
#[derive(Clone, Debug)]
pub struct FileHandler {
    options: FileOptions,
}

impl FileHandler {
    pub closed spec fn options_view(&self) -> FileOptions {
        self.options
    }

    /// A handler for the file at `path`.
    pub fn new(path: String) -> (r: FileHandler)
        ensures
            r.options_view().path_view() == path@,
            r.options_view().cache_control_view() == public_directive(),
            r.options_view().encodings() == (false, false),
    {
        FileHandler { options: FileOptions::default(path) }
    }

    pub fn options(&self) -> (r: &FileOptions)
        ensures
            *r == self.options_view(),
    {
        &self.options
    }

    /// The file to open: the configured path, unchanged.
    pub fn target_path(&self) -> (r: String)
        ensures
            r@ == self.options_view().path_view(),
    {
        self.options.path.as_str().to_owned()
    }
}

impl FileSystemHandler {
    pub closed spec fn options_view(&self) -> FileOptions {
        self.options
    }

    /// A handler for the files under `path`.
    pub fn new(path: String) -> (r: FileSystemHandler)
        ensures
            r.options_view().path_view() == path@,
            r.options_view().cache_control_view() == public_directive(),
            r.options_view().encodings() == (false, false),
    {
        FileSystemHandler { options: FileOptions::default(path) }
    }

    pub fn options(&self) -> (r: &FileOptions)
        ensures
            *r == self.options_view(),
    {
        &self.options
    }

    /// The file to open for the requested segments: their normalized
    /// components joined onto the root.
    pub fn target_path(&self, parts: &Vec<String>) -> (r: String)
        ensures
            r@ == resolve(self.options_view().path_view(), views(parts@)),
    {
        let comps = normalize_path(parts);
        join_path(self.options.path.as_str(), &comps)
    }
}

/// Why opening a file or reading its metadata failed.
#[derive(Clone, Copy, Debug, PartialEq, Eq, Structural)]
pub enum FsErrorKind {
    NotFound,
    PermissionDenied,
    Other,
}

pub const STATUS_OK: u16 = 200;
pub const STATUS_NOT_MODIFIED: u16 = 304;
pub const STATUS_FORBIDDEN: u16 = 403;
pub const STATUS_NOT_FOUND: u16 = 404;
pub const STATUS_INTERNAL_SERVER_ERROR: u16 = 500;

pub open spec fn status_of(kind: FsErrorKind) -> u16 {
    match kind {
        FsErrorKind::NotFound => STATUS_NOT_FOUND,
        FsErrorKind::PermissionDenied => STATUS_FORBIDDEN,
        FsErrorKind::Other => STATUS_INTERNAL_SERVER_ERROR,
    }
}

/// The status for a file system failure: 404 when absent, 403 when denied,
/// 500 otherwise.
pub fn error_status(kind: FsErrorKind) -> (r: u16)
    ensures
        r == status_of(kind),
{
    match kind {
        FsErrorKind::NotFound => STATUS_NOT_FOUND,
        FsErrorKind::PermissionDenied => STATUS_FORBIDDEN,
        FsErrorKind::Other => STATUS_INTERNAL_SERVER_ERROR,
    }
}

/// What to send for a request.
#[derive(Clone, Debug)]
pub enum FileResponse {
    /// 304 with an empty body.
    NotModified,
    /// 200 with these headers and the file streamed in chunks of `chunk_size`.
    Serve { content_length: u64, content_type: String, etag: Option<String>, chunk_size: usize },
    /// An error status.
    Failed { status: u16 },
}

impl FileResponse {
    pub open spec fn status_spec(&self) -> u16 {
        match self {
            FileResponse::NotModified => STATUS_NOT_MODIFIED,
            FileResponse::Serve { .. } => STATUS_OK,
            FileResponse::Failed { status } => *status,
        }
    }

    pub fn status(&self) -> (r: u16)
        ensures
            r == self.status_spec(),
    {
        match self {
            FileResponse::NotModified => STATUS_NOT_MODIFIED,
            FileResponse::Serve { .. } => STATUS_OK,
            FileResponse::Failed { status } => *status,
        }
    }
}

/// The response for an opened file, given the verdict and its media type.
pub open spec fn serves(
    r: FileResponse,
    meta: FileMetadata,
    unmodified: bool,
    media_type: Seq<char>,
) -> bool {
    if unmodified {
        r is NotModified
    } else {
        match r {
            FileResponse::Serve { content_length, content_type, etag, chunk_size } => {
                &&& content_length == meta.len
                &&& content_type@ == media_type
                &&& opt_view(etag) == etag_of(meta)
                &&& chunk_size as nat == buf_size_of(meta)
            },
            _ => false,
        }
    }
}

/// Builds the response for an opened file once the verdict and the media type
/// are known.
pub fn respond(meta: &FileMetadata, unmodified: bool, media_type: String) -> (r: FileResponse)
    ensures
        serves(r, *meta, unmodified, media_type@),
{
    if unmodified {
        FileResponse::NotModified
    } else {
        FileResponse::Serve {
            content_length: meta.len,
            content_type: media_type,
            etag: entity_tag(meta),
            chunk_size: optimal_buf_size(meta),
        }
    }
}

/// The response for the file at `path`: the failure's status where opening
/// it failed, else 304 or 200 as the request's validators decide.
pub fn create_file_response(
    path: &str,
    opened: Result<FileMetadata, FsErrorKind>,
    cond: &RequestConditionals,
) -> (r: FileResponse)
    requires
        opened matches Ok(m) ==> m.wf(),
    ensures
        match opened {
            Err(k) => r == (FileResponse::Failed { status: status_of(k) }),
            Ok(m) => serves(
                r,
                m,
                is_not_modified(m, views(cond.if_none_match@), since_of(*cond)),
                media_type_of(guessed_media_type(path@)),
            ),
        },
{
    match opened {
        Err(k) => FileResponse::Failed { status: error_status(k) },
        Ok(meta) => {
            let unmodified = not_modified(&meta, cond);
            if unmodified {
                FileResponse::NotModified
            } else {
                respond(&meta, false, mime_for_path(path))
            }
        },
    }
}

/// Replaying the entity tag of a 200 response as `If-None-Match`, while the
/// file is unchanged, gives 304 with an empty body.
pub proof fn lemma_served_etag_replay(
    meta: FileMetadata,
    served: FileResponse,
    media_type: Seq<char>,
    since: Option<u64>,
    again: FileResponse,
)
    requires
        serves(served, meta, false, media_type),
        served matches FileResponse::Serve { etag: Some(_), .. },
        serves(
            again,
            meta,
            is_not_modified(
                meta,
                seq![served->Serve_etag.unwrap()@],
                since,
            ),
            media_type,
        ),
    ensures
        again is NotModified,
        again.status_spec() == STATUS_NOT_MODIFIED,
{
    lemma_etag_round_trip(meta, since);
}

/// The path segments matched by the glob of a route, as the router decoded
/// them.
#[derive(Clone, Debug)]
pub struct FilePathExtractor {
    parts: Vec<String>,
}

impl FilePathExtractor {
    pub closed spec fn parts_view(&self) -> Seq<Seq<char>> {
        views(self.parts@)
    }

    pub fn new(parts: Vec<String>) -> (r: FilePathExtractor)
        ensures
            r.parts_view() == views(parts@),
    {
        FilePathExtractor { parts }
    }

    pub fn parts(&self) -> (r: &Vec<String>)
        ensures
            views(r@) == self.parts_view(),
    {
        &self.parts
    }
}

} // verus!
