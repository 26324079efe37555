//! Codec selection: the compression tag of a metadata record picks the
//! decoder that wraps the raw archive stream.
//!
//! An absent tag means the archive is served as-is; the four known tags pick
//! their streaming decoder; any other tag is rejected with an error that
//! names it.

use vstd::prelude::*;

verus! {

/// The decoder to wrap around the raw archive byte stream.
#[derive(Clone, Copy, Debug, PartialEq, Eq, Structural)]
pub enum Codec {
    Passthrough,
    Bzip2,
    Gzip,
    Xz,
    Zstd,
}

pub open spec fn bzip2_tag() -> Seq<char> {
    seq!['b', 'z', 'i', 'p', '2']
}

pub open spec fn gzip_tag() -> Seq<char> {
    seq!['g', 'z', 'i', 'p']
}

pub open spec fn xz_tag() -> Seq<char> {
    seq!['x', 'z']
}

pub open spec fn zstd_tag() -> Seq<char> {
    seq!['z', 's', 't', 'd']
}

/// The decoder each tag selects; `None` for an unsupported tag.
pub open spec fn codec_for(tag: Option<Seq<char>>) -> Option<Codec> {
    match tag {
        None => Some(Codec::Passthrough),
        Some(t) => if t == bzip2_tag() {
            Some(Codec::Bzip2)
        } else if t == gzip_tag() {
            Some(Codec::Gzip)
        } else if t == xz_tag() {
            Some(Codec::Xz)
        } else if t == zstd_tag() {
            Some(Codec::Zstd)
        } else {
            None
        },
    }
}

/// The message that rejects an unsupported tag, naming it.
pub open spec fn unsupported_message(t: Seq<char>) -> Seq<char> {
    "Unsupported compression: "@ + t
}

/// Pick the decoder for a compression tag; an unsupported tag is rejected
/// with a message naming it.
pub fn select_codec(tag: &Option<String>) -> (r: Result<Codec, String>)
    ensures
        r matches Ok(c) ==> codec_for(tag.deep_view()) == Some(c),
        r is Err <==> codec_for(tag.deep_view()) is None,
        r matches Err(m) ==> tag matches Some(t) && m@ == unsupported_message(t@),
{
    match tag {
        None => Ok(Codec::Passthrough),
        Some(t) => {
            proof {
                reveal_strlit("bzip2");
                reveal_strlit("gzip");
                reveal_strlit("xz");
                reveal_strlit("zstd");
                assert("bzip2"@ =~= bzip2_tag());
                assert("gzip"@ =~= gzip_tag());
                assert("xz"@ =~= xz_tag());
                assert("zstd"@ =~= zstd_tag());
            }
            if *t == String::from_str("bzip2") {
                Ok(Codec::Bzip2)
            } else if *t == String::from_str("gzip") {
                Ok(Codec::Gzip)
            } else if *t == String::from_str("xz") {
                Ok(Codec::Xz)
            } else if *t == String::from_str("zstd") {
                Ok(Codec::Zstd)
            } else {
                Err(String::from_str("Unsupported compression: ").concat(t.as_str()))
            }
        },
    }
}

} // verus!
