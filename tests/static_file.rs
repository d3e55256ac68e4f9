use bytes::Bytes;
use static_file::conditional::{
    entity_tag, not_modified, not_modified_given, FileMetadata, FileTime, RequestConditionals,
};
use static_file::handler::{
    create_file_response, error_status, FileHandler, FileOptions, FilePathExtractor, FileResponse,
    FileSystemHandler, FsErrorKind,
};
use static_file::media::{media_type_from_guess, mime_for_path};
use static_file::path::{join_path, normalize_path};
use static_file::stream::{optimal_buf_size, FileStream};
use std::time::{Duration, SystemTime, UNIX_EPOCH};

const ROOT: &str = "resources/test/static_files";

fn strings(v: &[&str]) -> Vec<String> {
    v.iter().map(|s| s.to_string()).collect()
}

fn hex_val(b: u8) -> Option<u8> {
    match b {
        b'0'..=b'9' => Some(b - b'0'),
        b'a'..=b'f' => Some(b - b'a' + 10),
        b'A'..=b'F' => Some(b - b'A' + 10),
        _ => None,
    }
}

// Splits a request path into segments and percent-decodes each, as a router does.
fn route_parts(request: &str) -> Vec<String> {
    request
        .split('/')
        .filter(|s| !s.is_empty())
        .map(|seg| {
            let b = seg.as_bytes();
            let mut out = Vec::new();
            let mut i = 0;
            while i < b.len() {
                if b[i] == b'%' && i + 2 < b.len() {
                    if let (Some(h), Some(l)) = (hex_val(b[i + 1]), hex_val(b[i + 2])) {
                        out.push(h * 16 + l);
                        i += 3;
                        continue;
                    }
                }
                out.push(b[i]);
                i += 1;
            }
            String::from_utf8_lossy(&out).into_owned()
        })
        .collect()
}

fn no_conditionals() -> RequestConditionals {
    RequestConditionals { if_none_match: Vec::new(), if_modified_since: None }
}

fn doc_meta() -> FileMetadata {
    FileMetadata {
        len: 24,
        modified: Some(FileTime { secs: 1_500_000_000, nanos: 0 }),
        block_size: Some(4096),
    }
}

fn system_time(t: FileTime) -> SystemTime {
    UNIX_EPOCH + Duration::new(t.secs as u64, t.nanos)
}

// Streams `content` through a FileStream, reading at most the asked size each time.
fn stream_all(content: &[u8], chunk_size: usize, len: u64) -> Vec<Bytes> {
    let mut s = FileStream::new(chunk_size, len);
    let mut pos = 0;
    let mut chunks = Vec::new();
    while let Some(n) = s.read_size() {
        let end = std::cmp::min(pos + n, content.len());
        let data = Bytes::copy_from_slice(&content[pos..end]);
        pos = end;
        match s.accept(data) {
            Some(c) => chunks.push(c),
            None => break,
        }
    }
    chunks
}

fn served(path: &str, meta: FileMetadata, cond: &RequestConditionals) -> FileResponse {
    create_file_response(path, Ok(meta), cond)
}

#[test]
fn static_files_guesses_content_type() {
    let expected_docs = vec![
        ("doc.html", "text/html", "<html>I am a doc.</html>"),
        ("file.txt", "text/plain", "I am a file"),
        ("styles/style.css", "text/css", ".styled { border: none; }"),
        ("scripts/script.js", "application/javascript", "console.log('I am javascript!');"),
    ];
    let handler = FileSystemHandler::new(ROOT.to_string());
    for doc in expected_docs {
        let request = format!("http://localhost/{}", doc.0);
        let parts = route_parts(request.trim_start_matches("http://localhost/"));
        let path = handler.target_path(&parts);
        assert_eq!(path, format!("{}/{}", ROOT, doc.0));
        let meta = FileMetadata { len: doc.2.len() as u64, ..doc_meta() };
        let response = served(&path, meta, &no_conditionals());
        assert_eq!(response.status(), 200);
        match response {
            FileResponse::Serve { content_type, chunk_size, content_length, .. } => {
                assert_eq!(content_type, doc.1);
                let body: Vec<u8> = stream_all(doc.2.as_bytes(), chunk_size, content_length)
                    .iter()
                    .flat_map(|c| c.to_vec())
                    .collect();
                assert_eq!(&body[..], doc.2.as_bytes());
            }
            _ => panic!("expected a served file"),
        }
    }
}

#[test]
fn static_path_traversal() {
    let traversal_attempts = vec![
        r"../private_files/secret.txt",
        r"%2e%2e%2fprivate_files/secret.txt",
        r"%2e%2e/private_files/secret.txt",
        r"..%2fprivate_files/secret.txt",
        r"%2e%2e%5cprivate_files/secret.txt",
        r"%2e%2e/private_files/secret.txt",
        r"..%5cprivate_files/secret.txt",
        r"%252e%252e%255cprivate_files/secret.txt",
        r"..%255cprivate_files/secret.txt",
        r"..%c0%afprivate_files/secret.txt",
        r"..%c1%9cprivate_files/secret.txt",
        "/etc/passwd",
    ];
    let handler = FileSystemHandler::new(ROOT.to_string());
    for attempt in traversal_attempts {
        let request = format!("http://localhost/{}", attempt);
        let parts = route_parts(request.trim_start_matches("http://localhost/"));
        let path = handler.target_path(&parts);
        assert!(path.starts_with(&format!("{}/", ROOT)), "{}", path);
        assert!(!path[ROOT.len()..].split('/').any(|c| c == ".."), "{}", path);
        // None of these names a file under the root, so opening fails as absent.
        let response = create_file_response(&path, Err(FsErrorKind::NotFound), &no_conditionals());
        assert_eq!(response.status(), 404);
    }
}

#[test]
fn static_single_file() {
    let handler = FileHandler::new("resources/test/static_files/doc.html".to_string());
    let path = handler.target_path();
    assert_eq!(path, "resources/test/static_files/doc.html");
    let response = served(&path, doc_meta(), &no_conditionals());
    assert_eq!(response.status(), 200);
    match response {
        FileResponse::Serve { content_type, chunk_size, content_length, .. } => {
            assert_eq!(content_type, "text/html");
            let body: Vec<u8> = stream_all(b"<html>I am a doc.</html>", chunk_size, content_length)
                .iter()
                .flat_map(|c| c.to_vec())
                .collect();
            assert_eq!(&body[..], b"<html>I am a doc.</html>");
        }
        _ => panic!("expected a served file"),
    }
}

#[test]
fn static_if_none_match_etag() {
    let path = "resources/test/static_files/doc.html";
    let meta = doc_meta();
    let etag = entity_tag(&meta).expect("entity tag");

    // matching etag
    let cond = RequestConditionals { if_none_match: vec![etag.clone()], if_modified_since: None };
    let response = served(path, meta, &cond);
    assert_eq!(response.status(), 304);

    // not matching etag
    let cond = RequestConditionals { if_none_match: strings(&["bogus"]), if_modified_since: None };
    let response = served(path, meta, &cond);
    assert_eq!(response.status(), 200);
    match response {
        FileResponse::Serve { etag: served_etag, .. } => assert_eq!(served_etag.unwrap(), etag),
        _ => panic!("expected a served file"),
    }
}

#[test]
fn static_if_modified_since() {
    let path = "resources/test/static_files/doc.html";
    let meta = doc_meta();
    let modified = system_time(meta.modified.unwrap());

    // if-modified-since a newer date
    let cond = RequestConditionals {
        if_none_match: Vec::new(),
        if_modified_since: Some(httpdate::fmt_http_date(modified + Duration::new(5, 0))),
    };
    assert_eq!(served(path, meta, &cond).status(), 304);

    // if-modified-since a older date
    let cond = RequestConditionals {
        if_none_match: Vec::new(),
        if_modified_since: Some(httpdate::fmt_http_date(modified - Duration::new(5, 0))),
    };
    assert_eq!(served(path, meta, &cond).status(), 200);
}

#[test]
fn normalize_drops_parent_and_current_pieces() {
    let r = normalize_path(&strings(&["../private", "secret.txt"]));
    assert_eq!(r, strings(&["private", "secret.txt"]));
    let r = normalize_path(&strings(&["a", "b/../c", ".", "", "d/"]));
    assert_eq!(r, strings(&["a", "c", "d"]));
    let r = normalize_path(&strings(&["..", "..", "a/b/../../.."]));
    assert!(r.is_empty());
    assert!(normalize_path(&Vec::new()).is_empty());
}

#[test]
fn traversal_resolves_under_root() {
    let handler = FileSystemHandler::new("R".to_string());
    let path = handler.target_path(&strings(&["../private/secret.txt"]));
    assert_eq!(path, "R/private/secret.txt");
    assert_eq!(handler.target_path(&strings(&["..", "..", ".."])), "R");
    assert_eq!(handler.target_path(&Vec::new()), "R");
}

#[test]
fn join_adds_separators_only_where_needed() {
    assert_eq!(join_path("root/", &strings(&["a", "b"])), "root/a/b");
    assert_eq!(join_path("", &strings(&["a"])), "a");
    assert_eq!(join_path("/", &strings(&["etc"])), "/etc");
}

#[test]
fn normalization_is_idempotent() {
    let once = normalize_path(&strings(&["x/../y", "..", "z/./w", "..%2f"]));
    assert_eq!(normalize_path(&once), once);
    assert_eq!(once, strings(&["z", "w", "..%2f"]));
}

#[test]
fn entity_tag_is_weak_hex_text() {
    let meta = FileMetadata {
        len: 24,
        modified: Some(FileTime { secs: 100_000_000, nanos: 0x1234 }),
        block_size: None,
    };
    assert_eq!(entity_tag(&meta).unwrap(), "W/\"18-5f5e100.1234\"");
    let zero = FileMetadata { len: 0, modified: Some(FileTime { secs: 0, nanos: 0 }), block_size: None };
    assert_eq!(entity_tag(&zero).unwrap(), "W/\"0-0.0\"");
    let unknown = FileMetadata { modified: None, ..meta };
    assert_eq!(entity_tag(&unknown), None);
    let before_epoch = FileMetadata { modified: Some(FileTime { secs: -1, nanos: 5 }), ..meta };
    assert_eq!(entity_tag(&before_epoch), None);
}

#[test]
fn none_match_takes_precedence() {
    let meta = doc_meta();
    let cond = RequestConditionals {
        if_none_match: strings(&["bogus"]),
        if_modified_since: Some("Thu, 01 Jan 2015 00:00:00 GMT".to_string()),
    };
    assert!(!not_modified(&meta, &cond));
    assert!(!not_modified_given(&meta, &cond.if_none_match, Some(2_000_000_000)));
    // Without a computable tag, If-None-Match still decides: serve fresh.
    let unknown = FileMetadata { modified: None, ..meta };
    let etag_cond = RequestConditionals { if_none_match: strings(&["W/\"18-0.0\""]), if_modified_since: None };
    assert!(!not_modified(&unknown, &etag_cond));
}

#[test]
fn etag_replay_gives_not_modified() {
    let meta = doc_meta();
    let first = served("doc.html", meta, &no_conditionals());
    let etag = match first {
        FileResponse::Serve { etag, .. } => etag.unwrap(),
        _ => panic!("expected a served file"),
    };
    let cond = RequestConditionals { if_none_match: vec![etag], if_modified_since: None };
    let again = served("doc.html", meta, &cond);
    assert!(matches!(again, FileResponse::NotModified));
    assert_eq!(again.status(), 304);
}

#[test]
fn modified_since_boundary() {
    let meta = doc_meta();
    let t = meta.modified.unwrap();
    assert!(not_modified_given(&meta, &Vec::new(), Some(t.secs as u64)));
    assert!(!not_modified_given(&meta, &Vec::new(), Some(t.secs as u64 - 1)));
    let exact = RequestConditionals {
        if_none_match: Vec::new(),
        if_modified_since: Some(httpdate::fmt_http_date(system_time(t))),
    };
    assert!(not_modified(&meta, &exact));
    let earlier = RequestConditionals {
        if_none_match: Vec::new(),
        if_modified_since: Some(httpdate::fmt_http_date(system_time(t) - Duration::new(1, 0))),
    };
    assert!(!not_modified(&meta, &earlier));
    // A sub-second modification time is later than its whole second.
    let fine = FileMetadata { modified: Some(FileTime { secs: t.secs, nanos: 1 }), ..meta };
    assert!(!not_modified_given(&fine, &Vec::new(), Some(t.secs as u64)));
    let garbled = RequestConditionals { if_none_match: Vec::new(), if_modified_since: Some("yesterday".to_string()) };
    assert!(!not_modified(&meta, &garbled));
}

#[test]
fn stream_emits_at_most_the_recorded_length() {
    let content: Vec<u8> = (0..100u8).collect();
    // The file grew after its length was recorded.
    let chunks = stream_all(&content, 7, 40);
    assert_eq!(chunks.iter().map(|c| c.len()).sum::<usize>(), 40);
    assert!(chunks.iter().all(|c| c.len() <= 7));
    assert_eq!(chunks.concat(), content[..40].to_vec());
    // The file is shorter than recorded: the stream ends early.
    let chunks = stream_all(&content[..10], 4, 25);
    assert_eq!(chunks.iter().map(|c| c.len()).sum::<usize>(), 10);
    assert_eq!(chunks.iter().map(|c| c.len()).collect::<Vec<_>>(), vec![4, 4, 2]);
    // An empty file emits nothing.
    assert!(stream_all(&[], 8192, 0).is_empty());
}

#[test]
fn read_past_owed_length_is_cut() {
    let mut s = FileStream::new(16, 3);
    assert_eq!(s.read_size(), Some(16));
    let c = s.accept(Bytes::from_static(b"abcdef")).unwrap();
    assert_eq!(&c[..], b"abc");
    assert_eq!(s.remaining_len(), 0);
    assert_eq!(s.read_size(), None);
    assert!(s.accept(Bytes::from_static(b"g")).is_none());
    let mut t = FileStream::new(4, 9);
    assert!(t.accept(Bytes::new()).is_none());
    assert_eq!(t.read_size(), None);
    assert_eq!(t.remaining_len(), 9);
}

#[test]
fn buffer_size_follows_block_and_length() {
    let small = FileMetadata { len: 24, modified: None, block_size: Some(4096) };
    assert_eq!(optimal_buf_size(&small), 24);
    let large = FileMetadata { len: 1 << 20, modified: None, block_size: Some(4096) };
    assert_eq!(optimal_buf_size(&large), 4096);
    let unknown = FileMetadata { len: 1 << 20, modified: None, block_size: None };
    assert_eq!(optimal_buf_size(&unknown), 8192);
}

#[test]
fn media_types_by_extension() {
    assert_eq!(mime_for_path("doc.html"), "text/html");
    assert_eq!(mime_for_path("script.js"), "application/javascript");
    assert_eq!(mime_for_path("styles/style.css"), "text/css");
    assert_eq!(mime_for_path("archive.unknownext"), "application/octet-stream");
    assert_eq!(mime_for_path("README"), "application/octet-stream");
    assert_eq!(media_type_from_guess(None), "application/octet-stream");
    assert_eq!(media_type_from_guess(Some("text/plain".to_string())), "text/plain");
}

#[test]
fn error_kinds_map_to_statuses() {
    assert_eq!(error_status(FsErrorKind::NotFound), 404);
    assert_eq!(error_status(FsErrorKind::PermissionDenied), 403);
    assert_eq!(error_status(FsErrorKind::Other), 500);
    let denied = create_file_response("secret", Err(FsErrorKind::PermissionDenied), &no_conditionals());
    assert_eq!(denied.status(), 403);
}

#[test]
fn options_default_to_public_cache_control() {
    let o = FileOptions::default("site".to_string());
    assert_eq!(o.path(), "site");
    assert_eq!(o.cache_control(), "public");
    let h = FileHandler::new("f.txt".to_string());
    assert_eq!(h.options().cache_control(), "public");
    let e = FilePathExtractor::new(strings(&["a", "b"]));
    assert_eq!(e.parts(), &strings(&["a", "b"]));
}
