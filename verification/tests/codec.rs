use nar_gateway::codec::Codec;
use nar_gateway::codec::select_codec;

#[test]
fn absent_tag_is_passthrough() {
    assert_eq!(select_codec(&None), Ok(Codec::Passthrough));
}

#[test]
fn known_tags_select_their_decoder() {
    assert_eq!(select_codec(&Some("bzip2".to_string())), Ok(Codec::Bzip2));
    assert_eq!(select_codec(&Some("gzip".to_string())), Ok(Codec::Gzip));
    assert_eq!(select_codec(&Some("xz".to_string())), Ok(Codec::Xz));
    assert_eq!(select_codec(&Some("zstd".to_string())), Ok(Codec::Zstd));
}

#[test]
fn unknown_tag_is_rejected_naming_it() {
    let err = select_codec(&Some("lzma".to_string())).unwrap_err();
    assert_eq!(err, "Unsupported compression: lzma");
}

#[test]
fn empty_tag_is_rejected() {
    let err = select_codec(&Some(String::new())).unwrap_err();
    assert_eq!(err, "Unsupported compression: ");
}

#[test]
fn tags_are_case_sensitive() {
    assert!(select_codec(&Some("XZ".to_string())).is_err());
    assert!(select_codec(&Some("gzip ".to_string())).is_err());
}
