//! Metadata-record parsing: the textual `key: value` record that names an
//! object's archive location and compression codec.
//!
//! The record is line-oriented. Only the `URL` and `Compression` fields are
//! consumed; every other line is ignored. A missing or empty `URL` value is a
//! parse error; a missing `Compression` field means no decompression is
//! needed.

use vstd::prelude::*;

use crate::text::find_char;
use crate::text::lemma_find_char_is;
use crate::text::scan_char_from;

verus! {

/// The lines of `s`, split on `\n`. The empty text is one empty line.
pub open spec fn split_lines(s: Seq<char>) -> Seq<Seq<char>>
    decreases s.len(),
{
    let k = find_char(s, '\n');
    if k >= s.len() {
        seq![s]
    } else {
        seq![s.take(k as int)] + split_lines(s.skip(k as int + 1))
    }
}

/// The value of `line` when it reads `key`, `:`, a space, then the value.
pub open spec fn line_value(line: Seq<char>, key: Seq<char>) -> Option<Seq<char>> {
    if line.len() >= key.len() + 2 && line.take(key.len() as int) == key && line[key.len() as int]
        == ':' && line[key.len() as int + 1] == ' ' {
        Some(line.skip(key.len() as int + 2))
    } else {
        None
    }
}

/// The value of the first line carrying `key`, if any.
pub open spec fn lookup_field(lines: Seq<Seq<char>>, key: Seq<char>) -> Option<Seq<char>>
    decreases lines.len(),
{
    if lines.len() == 0 {
        None
    } else if line_value(lines[0], key) is Some {
        line_value(lines[0], key)
    } else {
        lookup_field(lines.drop_first(), key)
    }
}

/// The value of the first `key` line of the whole record.
pub open spec fn field_of(s: Seq<char>, key: Seq<char>) -> Option<Seq<char>> {
    lookup_field(split_lines(s), key)
}

/// The characters of the `URL` key.
pub open spec fn url_key() -> Seq<char> {
    seq!['U', 'R', 'L']
}

/// The characters of the `Compression` key.
pub open spec fn compression_key() -> Seq<char> {
    seq!['C', 'o', 'm', 'p', 'r', 'e', 's', 's', 'i', 'o', 'n']
}

/// What a record parses to: the archive location and the optional codec tag,
/// or nothing when the `URL` field is missing or empty.
pub open spec fn narinfo_model(s: Seq<char>) -> Option<(Seq<char>, Option<Seq<char>>)> {
    match field_of(s, url_key()) {
        None => None,
        Some(u) => if u.len() == 0 {
            None
        } else {
            Some((u, field_of(s, compression_key())))
        },
    }
}

/// The two fields of a metadata record that the gateway consumes.
pub struct NarInfo {
    pub url: String,
    pub compression: Option<String>,
}

/// The ways a metadata record can fail to parse.
#[derive(Clone, Copy, Debug, PartialEq, Eq, Structural)]
pub enum NarInfoError {
    MissingUrl,
}

/// The location of an object's metadata record under the store base: the
/// hash names the record.
pub fn narinfo_url(base: &str, hash: &str) -> (r: String)
    ensures
        r@ == base@ + "/"@ + hash@ + ".narinfo"@,
{
    let mut s = base.to_owned();
    s.append("/");
    s.append(hash);
    s.append(".narinfo");
    s
}

/// The location of the archive body a metadata record points at, relative to
/// the store base.
pub fn archive_url(base: &str, archive_path: &str) -> (r: String)
    ensures
        r@ == base@ + "/"@ + archive_path@,
{
    let mut s = base.to_owned();
    s.append("/");
    s.append(archive_path);
    s
}

/// Looking a key up in a head line followed by the remaining lines finds the
/// head's value first.
proof fn lemma_lookup_cons(line: Seq<char>, rest: Seq<Seq<char>>, key: Seq<char>)
    ensures
        lookup_field(seq![line] + rest, key) == if line_value(line, key) is Some {
            line_value(line, key)
        } else {
            lookup_field(rest, key)
        },
{
    let lines = seq![line] + rest;
    assert(lines[0] == line);
    assert(lines.drop_first() =~= rest);
}

/// Does `line` carry `key`, and with which value?
fn line_value_for(line: &str, key: &str) -> (r: Option<String>)
    ensures
        r.deep_view() == line_value(line@, key@),
{
    let kn = key.unicode_len();
    let n = line.unicode_len();
    if n < kn || n - kn < 2 {
        return None;
    }
    let mut i: usize = 0;
    while i < kn
        invariant
            0 <= i <= kn,
            kn == key@.len(),
            n == line@.len(),
            n >= kn + 2,
            forall|m: int| 0 <= m < i ==> line@[m] == key@[m],
        decreases kn - i,
    {
        if line.get_char(i) != key.get_char(i) {
            proof {
                assert(line@.take(kn as int)[i as int] != key@[i as int]);
            }
            return None;
        }
        i = i + 1;
    }
    proof {
        assert(line@.take(kn as int) =~= key@);
    }
    if line.get_char(kn) != ':' {
        return None;
    }
    if line.get_char(kn + 1) != ' ' {
        return None;
    }
    Some(line.substring_char(kn + 2, n).to_owned())
}

/// Does the record, from position `pos` on, still account for what `field_of`
/// finds for `key`, given what was already `found`?
spec fn lookup_pending(s: Seq<char>, pos: int, found: Option<Seq<char>>, key: Seq<char>) -> bool {
    match found {
        Some(v) => field_of(s, key) == Some(v),
        None => field_of(s, key) == lookup_field(split_lines(s.skip(pos)), key),
    }
}

/// Parse a metadata record; the error names the only way it can fail.
pub fn parse_narinfo(s: &str) -> (r: Result<NarInfo, NarInfoError>)
    ensures
        r is Ok <==> narinfo_model(s@) is Some,
        r matches Ok(info) ==> narinfo_model(s@) matches Some(m) && info.url@ == m.0
            && info.compression.deep_view() == m.1,
{
    let n = s.unicode_len();
    let mut pos: usize = 0;
    let mut url: Option<String> = None;
    let mut comp: Option<String> = None;
    proof {
        assert(s@.skip(0) =~= s@);
    }
    loop
        invariant_except_break
            pos <= n,
            n == s@.len(),
            lookup_pending(s@, pos as int, url.deep_view(), url_key()),
            lookup_pending(s@, pos as int, comp.deep_view(), compression_key()),
        ensures
            url.deep_view() == field_of(s@, url_key()),
            comp.deep_view() == field_of(s@, compression_key()),
        decreases n - pos,
    {
        let k = scan_char_from(s, pos, '\n');
        let line = s.substring_char(pos, k);
        proof {
            let t = s@.skip(pos as int);
            lemma_find_char_is(t, '\n', k - pos);
            if k < n {
                assert(t.take(k - pos) =~= line@);
                assert(t.skip(k - pos + 1) =~= s@.skip(k as int + 1));
                lemma_lookup_cons(line@, split_lines(s@.skip(k as int + 1)), url_key());
                lemma_lookup_cons(line@, split_lines(s@.skip(k as int + 1)), compression_key());
            } else {
                assert(t =~= line@);
                assert(split_lines(t) =~= seq![line@]);
                lemma_lookup_cons(line@, Seq::<Seq<char>>::empty(), url_key());
                lemma_lookup_cons(line@, Seq::<Seq<char>>::empty(), compression_key());
                assert(seq![line@] + Seq::<Seq<char>>::empty() =~= seq![line@]);
            }
        }
        if url.is_none() {
            url = line_value_for(line, "URL");
            proof {
                reveal_strlit("URL");
                assert("URL"@ =~= url_key());
            }
        }
        if comp.is_none() {
            comp = line_value_for(line, "Compression");
            proof {
                reveal_strlit("Compression");
                assert("Compression"@ =~= compression_key());
            }
        }
        if k < n {
            pos = k + 1;
        } else {
            break ;
        }
    }
    match url {
        None => Err(NarInfoError::MissingUrl),
        Some(u) => {
            if u.unicode_len() == 0 {
                Err(NarInfoError::MissingUrl)
            } else {
                Ok(NarInfo { url: u, compression: comp })
            }
        },
    }
}

} // verus!
