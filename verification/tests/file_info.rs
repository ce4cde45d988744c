use url_uploader::file_info::{
    add_extension_from_content_type, extract_file_info, extract_filename, extract_filename_from_header,
    extract_filename_from_url, is_video_file, is_video_lowercase, name_with_extension, percent_decode_utf8, validate_file_size, ResponseInfo,
    MAX_FILE_SIZE_BYTES,
};

fn response(
    length: Option<u64>,
    disposition: Option<&str>,
    content_type: Option<&str>,
    segment: Option<&str>,
) -> ResponseInfo {
    ResponseInfo {
        content_length: length,
        content_disposition: disposition.map(|s| s.to_string()),
        content_type: content_type.map(|s| s.to_string()),
        last_path_segment: segment.map(|s| s.to_string()),
    }
}

#[test]
fn empty_file_is_refused() {
    assert_eq!(validate_file_size(0), Err("⚠️ File is empty"));
}

#[test]
fn too_large_file_is_refused() {
    assert_eq!(MAX_FILE_SIZE_BYTES, 2 * 1024 * 1024 * 1024);
    assert_eq!(validate_file_size(MAX_FILE_SIZE_BYTES + 1), Err("⚠️ File is too large"));
}

#[test]
fn sizes_up_to_two_gib_are_accepted() {
    assert_eq!(validate_file_size(1), Ok(()));
    assert_eq!(validate_file_size(MAX_FILE_SIZE_BYTES), Ok(()));
}

#[test]
fn header_filename_is_unquoted_and_decoded() {
    assert_eq!(
        extract_filename_from_header(Some("attachment; filename=\"report%20final.pdf\"")),
        Some("report final.pdf".to_string())
    );
}

#[test]
fn header_filename_without_quotes() {
    assert_eq!(extract_filename_from_header(Some("attachment;filename=a.txt")), Some("a.txt".to_string()));
    assert_eq!(extract_filename_from_header(Some("  filename=b.bin ; size=3")), Some("b.bin".to_string()));
}

#[test]
fn header_key_repeats_are_all_removed() {
    assert_eq!(extract_filename_from_header(Some("filename=filename=c.txt")), Some("c.txt".to_string()));
}

#[test]
fn header_without_filename_gives_nothing() {
    assert_eq!(extract_filename_from_header(Some("attachment")), None);
    assert_eq!(extract_filename_from_header(Some("attachment; filename*=UTF-8''x.txt")), None);
    assert_eq!(extract_filename_from_header(Some("")), None);
    assert_eq!(extract_filename_from_header(None), None);
}

#[test]
fn header_filename_that_decodes_to_invalid_utf8_gives_nothing() {
    assert_eq!(extract_filename_from_header(Some("filename=a%FF.txt")), None);
}

#[test]
fn percent_decoding_agrees_with_the_crate() {
    for s in ["a%20b", "%", "%2", "%2g", "%41%42", "plain", "%e2%82%ac", "%FF", "100%"] {
        let expected = percent_encoding::percent_decode_str(s).decode_utf8().ok().map(|c| c.into_owned());
        assert_eq!(percent_decode_utf8(s), expected);
    }
    assert_eq!(percent_decode_utf8("%e2%82%ac"), Some("€".to_string()));
    assert_eq!(percent_decode_utf8("100%"), Some("100%".to_string()));
}

#[test]
fn url_segment_with_a_dot_is_used() {
    assert_eq!(extract_filename_from_url(Some("archive.tar.gz"), None), Some("archive.tar.gz".to_string()));
    assert_eq!(extract_filename_from_url(Some("my%20file.zip"), None), Some("my file.zip".to_string()));
}

#[test]
fn url_segment_without_dot_gets_an_extension() {
    assert_eq!(
        extract_filename_from_url(Some("archive"), Some("application/zip")),
        Some("archive.zip".to_string())
    );
    assert_eq!(extract_filename_from_url(Some("video"), Some("video/mp4")), Some("video.mp4".to_string()));
}

#[test]
fn url_segment_without_dot_and_known_type_gives_nothing() {
    assert_eq!(extract_filename_from_url(Some("archive"), None), None);
    assert_eq!(extract_filename_from_url(Some("archive"), Some("no/such-type")), None);
    assert_eq!(extract_filename_from_url(None, Some("application/zip")), None);
}

#[test]
fn url_name_that_does_not_decode_is_kept() {
    assert_eq!(extract_filename_from_url(Some("a%FF.bin"), None), Some("a%FF.bin".to_string()));
}

#[test]
fn extension_is_added_after_a_dot() {
    assert_eq!(add_extension_from_content_type(Some("image/png"), "picture"), Some("picture.png".to_string()));
    assert_eq!(add_extension_from_content_type(None, "picture"), None);
}

#[test]
fn filename_prefers_header_then_url_then_default() {
    let r = response(Some(1), Some("filename=h.txt"), Some("application/zip"), Some("u.bin"));
    assert_eq!(extract_filename(&r), "h.txt");
    let r = response(Some(1), Some("inline"), None, Some("u.bin"));
    assert_eq!(extract_filename(&r), "u.bin");
    let r = response(Some(1), None, None, Some("noext"));
    assert_eq!(extract_filename(&r), "file.bin");
    let r = response(Some(1), None, None, None);
    assert_eq!(extract_filename(&r), "file.bin");
}

#[test]
fn mp4_is_recognised_by_type_or_name() {
    assert!(is_video_file(Some("video/mp4"), "x.bin"));
    assert!(is_video_file(Some("video/mp4; codecs=avc1"), "x"));
    assert!(is_video_file(None, "CLIP.MP4"));
    assert!(!is_video_file(Some("video/webm"), "clip.webm"));
    assert!(!is_video_file(None, "mp4"));
}

#[test]
fn file_info_of_a_response() {
    let r = response(Some(1234), None, Some("video/mp4"), Some("clip"));
    let info = extract_file_info(&r);
    assert_eq!(info.name, "clip.mp4");
    assert_eq!(info.size, 1234);
    assert!(info.is_video);
    let r = response(None, None, None, None);
    let info = extract_file_info(&r);
    assert_eq!(info.name, "file.bin");
    assert_eq!(info.size, 0);
    assert!(!info.is_video);
}

#[test]
fn first_extension_is_appended() {
    let exts = vec!["mp4".to_string(), "mp4v".to_string()];
    assert_eq!(name_with_extension("clip", Some(exts)), Some("clip.mp4".to_string()));
    assert_eq!(name_with_extension("clip", Some(Vec::new())), None);
    assert_eq!(name_with_extension("clip", None), None);
}

#[test]
fn video_check_on_lowercase_name() {
    assert!(is_video_lowercase(None, "clip.mp4"));
    assert!(!is_video_lowercase(None, "CLIP.MP4"));
    assert!(is_video_lowercase(Some("video/mp4"), "x"));
}
