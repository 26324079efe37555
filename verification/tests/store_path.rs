use nar_gateway::store_path::NixStorePath;
use nar_gateway::store_path::parse_full_nix_store_path;
use nar_gateway::store_path::parse_hash_only_path;

#[test]
fn test_parse_store_path() {
    let path = "/nix/store/8h6x8md74j4b4xcy4xd9y4cc210hhaxx-foo";
    let nix_path = NixStorePath::parse(path).unwrap();
    assert_eq!(nix_path.hash, "8h6x8md74j4b4xcy4xd9y4cc210hhaxx");
    assert_eq!(nix_path.file_path, None);
}

#[test]
fn test_parse_store_path_with_file_path() {
    let path = "nix/store/8h6x8md74j4b4xcy4xd9y4cc210hhaxx-foo/bin/foo";
    let nix_path = NixStorePath::parse(path).unwrap();
    assert_eq!(nix_path.hash, "8h6x8md74j4b4xcy4xd9y4cc210hhaxx");
    assert_eq!(nix_path.file_path, Some("bin/foo".to_string()));
}

#[test]
fn test_parse_store_path_nar_serve() {
    let path =
        "zhpwxx771lz7hdyiv9f611w80wja0vsn/nix-2.26.0pre19700101_838d3c1-aarch64-darwin.tar.xz";
    let nix_path = NixStorePath::parse(path).unwrap();
    assert_eq!(nix_path.hash, "zhpwxx771lz7hdyiv9f611w80wja0vsn");
    assert_eq!(
        nix_path.file_path,
        Some("nix-2.26.0pre19700101_838d3c1-aarch64-darwin.tar.xz".to_string())
    );
}

#[test]
fn full_form_strips_trailing_slashes() {
    let path = "/nix/store/8h6x8md74j4b4xcy4xd9y4cc210hhaxx-foo/bin/foo//";
    let nix_path = NixStorePath::parse(path).unwrap();
    assert_eq!(nix_path.hash, "8h6x8md74j4b4xcy4xd9y4cc210hhaxx");
    assert_eq!(nix_path.file_path, Some("bin/foo".to_string()));
}

#[test]
fn bare_hash_alone_resolves_to_itself() {
    let path = "zhpwxx771lz7hdyiv9f611w80wja0vsn";
    let nix_path = NixStorePath::parse(path).unwrap();
    assert_eq!(nix_path.hash, "zhpwxx771lz7hdyiv9f611w80wja0vsn");
    assert_eq!(nix_path.file_path, None);
}

#[test]
fn short_inputs_do_not_resolve() {
    assert!(NixStorePath::parse("").is_none());
    assert!(NixStorePath::parse("bin/foo").is_none());
    // 31 characters: one short of a hash.
    assert!(NixStorePath::parse("zhpwxx771lz7hdyiv9f611w80wja0vs").is_none());
    // The prefix alone holds no hash either.
    assert!(NixStorePath::parse("/nix/store/too-short").is_none());
}

#[test]
fn full_form_requires_whole_hash_in_segment() {
    // The segment after nix/store/ is shorter than a hash, so the full form
    // fails; the input is long enough for the bare form, which takes the
    // first 32 characters as they come.
    let path = "nix/store/abc/defghijklmnopqrstuvwxyz0123456";
    let nix_path = NixStorePath::parse(path).unwrap();
    assert_eq!(nix_path.hash, &path[..32]);
}

#[test]
fn grammars_can_be_tried_separately() {
    let full = parse_full_nix_store_path("/nix/store/8h6x8md74j4b4xcy4xd9y4cc210hhaxx-foo");
    assert_eq!(full.unwrap().hash, "8h6x8md74j4b4xcy4xd9y4cc210hhaxx");
    assert!(parse_full_nix_store_path("8h6x8md74j4b4xcy4xd9y4cc210hhaxx").is_none());
    let bare = parse_hash_only_path("8h6x8md74j4b4xcy4xd9y4cc210hhaxx/etc");
    let bare = bare.unwrap();
    assert_eq!(bare.hash, "8h6x8md74j4b4xcy4xd9y4cc210hhaxx");
    assert_eq!(bare.file_path, Some("etc".to_string()));
}

#[test]
fn bare_form_without_slash_carries_no_file_path() {
    // Extra characters not introduced by a slash are discarded: the grammar
    // leaves the unconsumed remainder unused.
    let path = "zhpwxx771lz7hdyiv9f611w80wja0vsnXtail";
    let nix_path = NixStorePath::parse(path).unwrap();
    assert_eq!(nix_path.hash, "zhpwxx771lz7hdyiv9f611w80wja0vsn");
    assert_eq!(nix_path.file_path, None);
}
