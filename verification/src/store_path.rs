//! Store-path resolution: a request path is parsed into a 32-character
//! content hash plus an optional intra-archive path.
//!
//! Two grammars are tried in order:
//! 1. Full form: optional leading `/`, the literal `nix/store/`, then a
//!    segment of at least 32 non-`/` characters whose first 32 characters are
//!    the hash (the `-<name>` tail of the segment is discarded), optionally
//!    followed by `/` and a remaining path.
//! 2. Bare form: at least 32 characters; the first 32 are the hash,
//!    optionally followed by `/` and a remaining path.
//! In both forms the remaining path has all trailing `/` stripped. An input
//! matching neither grammar does not resolve.

use vstd::prelude::*;

use crate::text::find_char;
use crate::text::lemma_find_char_bounds;
use crate::text::lemma_find_char_is;
use crate::text::lemma_trim_trailing_is;
use crate::text::scan_char_from;
use crate::text::scan_trailing;
use crate::text::trim_trailing;

verus! {

/// Number of characters in a content hash.
pub const HASH_LEN: usize = 32;

/// The characters of the `nix/store/` directory prefix.
pub open spec fn store_dir() -> Seq<char> {
    seq!['n', 'i', 'x', '/', 's', 't', 'o', 'r', 'e', '/']
}

/// `s` with one leading `/` removed, if present.
pub open spec fn strip_slash(s: Seq<char>) -> Seq<char> {
    if s.len() > 0 && s[0] == '/' {
        s.drop_first()
    } else {
        s
    }
}

/// Does `s`, after an optional leading `/`, begin with `nix/store/`?
pub open spec fn has_store_prefix(s: Seq<char>) -> bool {
    strip_slash(s).len() >= store_dir().len() && strip_slash(s).take(store_dir().len() as int)
        == store_dir()
}

/// The characters following the `nix/store/` prefix.
pub open spec fn after_prefix(s: Seq<char>) -> Seq<char> {
    strip_slash(s).skip(store_dir().len() as int)
}

/// Length of the `<hash>-<name>` segment: everything up to the next `/`.
pub open spec fn full_seg_len(s: Seq<char>) -> nat {
    find_char(after_prefix(s), '/')
}

/// The full grammar accepts when the prefix is present and the segment holds
/// at least a whole hash.
pub open spec fn full_form_ok(s: Seq<char>) -> bool {
    has_store_prefix(s) && full_seg_len(s) >= HASH_LEN
}

/// The intra-archive path that follows position `k` of `u`: present only when
/// a `/` follows, with trailing `/` stripped.
pub open spec fn rest_after(u: Seq<char>, k: int) -> Option<Seq<char>> {
    if k < u.len() {
        Some(trim_trailing(u.skip(k + 1), '/'))
    } else {
        None
    }
}

/// Hash and intra-archive path of a full-form input.
pub open spec fn full_form_result(s: Seq<char>) -> (Seq<char>, Option<Seq<char>>) {
    (after_prefix(s).take(HASH_LEN as int), rest_after(after_prefix(s), full_seg_len(s) as int))
}

/// The bare grammar accepts any input long enough to hold a hash.
pub open spec fn bare_form_ok(s: Seq<char>) -> bool {
    s.len() >= HASH_LEN
}

/// Hash and intra-archive path of a bare-form input. Anything after the hash
/// that is not introduced by `/` carries no intra-archive path.
pub open spec fn bare_form_result(s: Seq<char>) -> (Seq<char>, Option<Seq<char>>) {
    (
        s.take(HASH_LEN as int),
        if s.len() > HASH_LEN && s[HASH_LEN as int] == '/' {
            Some(trim_trailing(s.skip(HASH_LEN + 1), '/'))
        } else {
            None
        },
    )
}

/// What a request path resolves to: the hash and the optional intra-archive
/// path, or nothing when neither grammar matches.
pub open spec fn resolve(s: Seq<char>) -> Option<(Seq<char>, Option<Seq<char>>)> {
    if full_form_ok(s) {
        Some(full_form_result(s))
    } else if bare_form_ok(s) {
        Some(bare_form_result(s))
    } else {
        None
    }
}

/// A resolved store path: the content hash of the stored object and the
/// optional path of the requested file inside its archive.
pub struct NixStorePath {
    pub hash: String,
    pub file_path: Option<String>,
}

impl NixStorePath {
    /// Does this value carry exactly the resolved hash and intra-archive path?
    pub open spec fn is_resolution_of(self, m: (Seq<char>, Option<Seq<char>>)) -> bool {
        self.hash@ == m.0 && self.file_path.deep_view() == m.1
    }

    /// Parse a request path; `None` when neither grammar matches.
    pub fn parse(path: &str) -> (r: Option<NixStorePath>)
        ensures
            r is Some <==> resolve(path@) is Some,
            r matches Some(p) ==> p.is_resolution_of(resolve(path@).unwrap()),
    {
        parse_nix_store_path(path)
    }
}

/// Try the full grammar, then the bare grammar.
pub fn parse_nix_store_path(input: &str) -> (r: Option<NixStorePath>)
    ensures
        r is Some <==> resolve(input@) is Some,
        r matches Some(p) ==> p.is_resolution_of(resolve(input@).unwrap()),
{
    match parse_full_nix_store_path(input) {
        Some(p) => Some(p),
        None => parse_hash_only_path(input),
    }
}

/// Parse the full `nix/store/` form; `None` when the input is not in it.
pub fn parse_full_nix_store_path(input: &str) -> (r: Option<NixStorePath>)
    ensures
        r is Some <==> full_form_ok(input@),
        r matches Some(p) ==> p.is_resolution_of(full_form_result(input@)),
{
    let n = input.unicode_len();
    let start: usize = if n > 0 && input.get_char(0) == '/' {
        1
    } else {
        0
    };
    proof {
        assert(strip_slash(input@) =~= input@.skip(start as int));
    }
    if n - start < 10 {
        return None;
    }
    if !(input.get_char(start) == 'n' && input.get_char(start + 1) == 'i' && input.get_char(
        start + 2,
    ) == 'x' && input.get_char(start + 3) == '/' && input.get_char(start + 4) == 's'
        && input.get_char(start + 5) == 't' && input.get_char(start + 6) == 'o' && input.get_char(
        start + 7,
    ) == 'r' && input.get_char(start + 8) == 'e' && input.get_char(start + 9) == '/') {
        proof {
            if has_store_prefix(input@) {
                assert(forall|j: int|
                    0 <= j < 10 ==> strip_slash(input@).take(10)[j] == store_dir()[j]);
                assert(false);
            }
        }
        return None;
    }
    proof {
        assert(strip_slash(input@).take(10) =~= store_dir());
        assert(after_prefix(input@) =~= input@.skip(start + 10));
    }
    let k = scan_char_from(input, start + 10, '/');
    proof {
        lemma_find_char_is(after_prefix(input@), '/', k - start - 10);
    }
    if k - (start + 10) < HASH_LEN {
        return None;
    }
    let hash = input.substring_char(start + 10, start + 10 + HASH_LEN).to_owned();
    proof {
        assert(hash@ =~= after_prefix(input@).take(HASH_LEN as int));
    }
    if k < n {
        let j = scan_trailing(input, k + 1, '/');
        let fp = input.substring_char(k + 1, j).to_owned();
        proof {
            let rest = after_prefix(input@).skip(full_seg_len(input@) as int + 1);
            assert(rest =~= input@.skip(k + 1));
            lemma_trim_trailing_is(rest, '/', j - k - 1);
            assert(rest.take(j - k - 1) =~= fp@);
        }
        Some(NixStorePath { hash, file_path: Some(fp) })
    } else {
        Some(NixStorePath { hash, file_path: None })
    }
}

/// Parse the bare-hash form; `None` when the input is shorter than a hash.
pub fn parse_hash_only_path(input: &str) -> (r: Option<NixStorePath>)
    ensures
        r is Some <==> bare_form_ok(input@),
        r matches Some(p) ==> p.is_resolution_of(bare_form_result(input@)),
{
    let n = input.unicode_len();
    if n < HASH_LEN {
        return None;
    }
    let hash = input.substring_char(0, HASH_LEN).to_owned();
    proof {
        assert(hash@ =~= input@.take(HASH_LEN as int));
    }
    if n > HASH_LEN && input.get_char(HASH_LEN) == '/' {
        let j = scan_trailing(input, HASH_LEN + 1, '/');
        let fp = input.substring_char(HASH_LEN + 1, j).to_owned();
        proof {
            let rest = input@.skip(HASH_LEN + 1);
            lemma_trim_trailing_is(rest, '/', j - HASH_LEN - 1);
            assert(rest.take(j - HASH_LEN - 1) =~= fp@);
        }
        Some(NixStorePath { hash, file_path: Some(fp) })
    } else {
        Some(NixStorePath { hash, file_path: None })
    }
}

/// Law: a full-form path built from a 32-character hash `h`, a name, and a
/// remaining path `rest` resolves to hash `h` and the remaining path with
/// trailing `/` stripped.
pub proof fn lemma_resolve_full_form(h: Seq<char>, name: Seq<char>, rest: Seq<char>)
    requires
        h.len() == HASH_LEN,
        forall|i: int| 0 <= i < h.len() ==> h[i] != '/',
        forall|i: int| 0 <= i < name.len() ==> name[i] != '/',
    ensures
        ({
            let s = seq!['/'] + store_dir() + h + seq!['-'] + name + seq!['/'] + rest;
            resolve(s) == Some::<(Seq<char>, Option<Seq<char>>)>(
                (h, Some(trim_trailing(rest, '/'))),
            )
        }),
{
    let s = seq!['/'] + store_dir() + h + seq!['-'] + name + seq!['/'] + rest;
    let u = h + seq!['-'] + name + seq!['/'] + rest;
    assert(strip_slash(s) =~= store_dir() + u);
    assert(strip_slash(s).take(10) =~= store_dir());
    assert(after_prefix(s) =~= u);
    let k = h.len() + 1 + name.len();
    assert(u[k as int] == '/');
    assert(forall|m: int| 0 <= m < k ==> u[m] != '/');
    lemma_find_char_is(u, '/', k as int);
    assert(full_form_ok(s));
    assert(u.take(HASH_LEN as int) =~= h);
    assert(u.skip(k as int + 1) =~= rest);
}

/// Law: any 32-character input resolves, in the bare grammar, to itself as
/// the hash with no intra-archive path.
pub proof fn lemma_resolve_bare_hash(s: Seq<char>)
    requires
        s.len() == HASH_LEN,
    ensures
        resolve(s) == Some::<(Seq<char>, Option<Seq<char>>)>((s, None)),
{
    lemma_full_form_needs_long_segment(s);
    assert(s.take(HASH_LEN as int) =~= s);
}

/// Law: an input shorter than a hash matches neither grammar.
pub proof fn lemma_short_input_fails(s: Seq<char>)
    requires
        s.len() < HASH_LEN,
    ensures
        resolve(s) is None,
{
    lemma_full_form_needs_long_segment(s);
}

/// The full grammar never accepts an input of fewer than 42 characters: the
/// prefix and a whole hash do not fit.
proof fn lemma_full_form_needs_long_segment(s: Seq<char>)
    requires
        s.len() < store_dir().len() + HASH_LEN,
    ensures
        !full_form_ok(s),
{
    if has_store_prefix(s) {
        lemma_find_char_bounds(after_prefix(s), '/');
        assert(after_prefix(s).len() < HASH_LEN);
    }
}

} // verus!
