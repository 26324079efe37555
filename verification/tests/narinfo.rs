use nar_gateway::narinfo::NarInfo;
use nar_gateway::narinfo::NarInfoError;
use nar_gateway::narinfo::archive_url;
use nar_gateway::narinfo::narinfo_url;
use nar_gateway::narinfo::parse_narinfo;

fn sample_record() -> String {
    [
        "StorePath: /nix/store/8h6x8md74j4b4xcy4xd9y4cc210hhaxx-foo",
        "URL: nar/1bjcq4xgl3mrkmvn7mzgjbbsdy7xgyts3mclqfcjsnc2bk0xn6vb.nar.xz",
        "Compression: xz",
        "NarHash: sha256:0000000000000000000000000000000000000000000000000000",
        "NarSize: 226488",
    ]
    .join("\n")
}

#[test]
fn parses_url_and_compression() {
    let info: NarInfo = parse_narinfo(&sample_record()).unwrap();
    assert_eq!(
        info.url,
        "nar/1bjcq4xgl3mrkmvn7mzgjbbsdy7xgyts3mclqfcjsnc2bk0xn6vb.nar.xz"
    );
    assert_eq!(info.compression, Some("xz".to_string()));
}

#[test]
fn compression_is_optional() {
    let info = parse_narinfo("URL: nar/object.nar\nNarSize: 5").unwrap();
    assert_eq!(info.url, "nar/object.nar");
    assert_eq!(info.compression, None);
}

#[test]
fn missing_url_is_a_parse_error() {
    let r = parse_narinfo("StorePath: /nix/store/x\nCompression: xz");
    assert!(matches!(r, Err(NarInfoError::MissingUrl)));
}

#[test]
fn empty_url_is_a_parse_error() {
    let r = parse_narinfo("URL: \nCompression: xz");
    assert!(matches!(r, Err(NarInfoError::MissingUrl)));
}

#[test]
fn first_field_occurrence_wins() {
    let info = parse_narinfo("URL: first.nar\nURL: second.nar").unwrap();
    assert_eq!(info.url, "first.nar");
}

#[test]
fn urls_are_joined_under_the_store_base() {
    assert_eq!(
        narinfo_url("http://cache.example", "8h6x8md74j4b4xcy4xd9y4cc210hhaxx"),
        "http://cache.example/8h6x8md74j4b4xcy4xd9y4cc210hhaxx.narinfo"
    );
    assert_eq!(
        archive_url("http://cache.example", "nar/object.nar.xz"),
        "http://cache.example/nar/object.nar.xz"
    );
}

#[test]
fn key_must_be_followed_by_colon_and_space() {
    assert!(parse_narinfo("URL:no-space.nar").is_err());
    assert!(parse_narinfo("URLX: x.nar").is_err());
    assert!(parse_narinfo("").is_err());
}
