//! The archive walk: a single root node of a sequential binary tree format
//! (file / directory / symlink) is searched for the one file named by the
//! intra-archive path, in stream order.
//!
//! `streamed` is the model of the walk: the exact bytes delivered to the
//! client. A file node delivers its contents only when the target path has
//! been fully consumed; a directory delivers the concatenation of what its
//! entries whose name equals the next path segment deliver; a symlink is a
//! dead end and delivers nothing. Entries that do not match still have their
//! payloads read from the stream — the wire format cannot skip a node — but
//! none of their bytes are delivered.
//!
//! `search_nar` runs the walk over a materialized tree. The streaming walk,
//! which holds only a cursor per directory, takes its per-entry decisions
//! from `entry_action`, whose actions are tied to the model by
//! `lemma_entry_action`.

use vstd::prelude::*;

use crate::text::find_char;
use crate::text::lemma_find_char_is;
use crate::text::scan_char_from;

verus! {

/// A named entry of a directory node.
pub struct DirEntry {
    pub name: String,
    pub node: ArchiveNode,
}

/// One node of the archive tree. Directory entries appear in raw stream
/// order.
pub enum ArchiveNode {
    File { executable: bool, contents: Vec<u8> },
    Directory { entries: Vec<DirEntry> },
    Symlink { target: String },
}

/// The bytes the walk delivers for `node` once the first `i` segments of
/// `path` have been consumed.
pub open spec fn streamed(node: ArchiveNode, path: Seq<Seq<char>>, i: int) -> Seq<u8>
    decreases path.len() - i, 1int, 0int,
{
    match node {
        ArchiveNode::File { contents, .. } => if i == path.len() {
            contents@
        } else {
            Seq::empty()
        },
        ArchiveNode::Symlink { .. } => Seq::empty(),
        ArchiveNode::Directory { entries } => if 0 <= i < path.len() {
            dir_streamed(entries@, path, i)
        } else {
            Seq::empty()
        },
    }
}

/// The bytes the entries of a directory deliver, in stream order: an entry
/// contributes only when its name equals segment `i` of the path.
pub open spec fn dir_streamed(entries: Seq<DirEntry>, path: Seq<Seq<char>>, i: int) -> Seq<u8>
    decreases path.len() - i, 0int, entries.len(),
{
    if !(0 <= i < path.len()) {
        Seq::empty()
    } else if entries.len() == 0 {
        Seq::empty()
    } else {
        (if entries[0].name@ == path[i] {
            streamed(entries[0].node, path, i + 1)
        } else {
            Seq::empty()
        }) + dir_streamed(entries.drop_first(), path, i)
    }
}

/// Is there a file at `path` (from segment `i` on) under `node`?
pub open spec fn has_file_at(node: ArchiveNode, path: Seq<Seq<char>>, i: int) -> bool
    decreases path.len() - i, 1int, 0int,
{
    match node {
        ArchiveNode::File { .. } => i == path.len(),
        ArchiveNode::Symlink { .. } => false,
        ArchiveNode::Directory { entries } => 0 <= i < path.len() && dir_has_file(
            entries@,
            path,
            i,
        ),
    }
}

/// Does some entry of a directory lead to a file at the path?
pub open spec fn dir_has_file(entries: Seq<DirEntry>, path: Seq<Seq<char>>, i: int) -> bool
    decreases path.len() - i, 0int, entries.len(),
{
    if !(0 <= i < path.len()) {
        false
    } else if entries.len() == 0 {
        false
    } else {
        (entries[0].name@ == path[i] && has_file_at(entries[0].node, path, i + 1)) || dir_has_file(
            entries.drop_first(),
            path,
            i,
        )
    }
}

/// Law: a path with no file under it delivers zero bytes — the walk of a tree
/// that misses the target streams nothing, however many siblings it drains.
pub proof fn lemma_absent_path_streams_nothing(node: ArchiveNode, path: Seq<Seq<char>>, i: int)
    requires
        !has_file_at(node, path, i),
    ensures
        streamed(node, path, i) == Seq::<u8>::empty(),
    decreases path.len() - i, 1int, 0int,
{
    match node {
        ArchiveNode::Directory { entries } => {
            if 0 <= i < path.len() {
                lemma_dir_absent(entries@, path, i);
            }
        },
        _ => {},
    }
}

proof fn lemma_dir_absent(entries: Seq<DirEntry>, path: Seq<Seq<char>>, i: int)
    requires
        0 <= i < path.len(),
        !dir_has_file(entries, path, i),
    ensures
        dir_streamed(entries, path, i) == Seq::<u8>::empty(),
    decreases path.len() - i, 0int, entries.len(),
{
    if entries.len() > 0 {
        if entries[0].name@ == path[i] {
            lemma_absent_path_streams_nothing(entries[0].node, path, i + 1);
        }
        lemma_dir_absent(entries.drop_first(), path, i);
        assert(Seq::<u8>::empty() + Seq::<u8>::empty() =~= Seq::<u8>::empty());
    }
}

/// A directory none of whose entries matches the segment delivers nothing,
/// whatever payloads its entries hold.
pub proof fn lemma_no_match_streams_nothing(entries: Seq<DirEntry>, path: Seq<Seq<char>>, i: int)
    requires
        0 <= i < path.len(),
        forall|m: int| 0 <= m < entries.len() ==> entries[m].name@ != path[i],
    ensures
        dir_streamed(entries, path, i) == Seq::<u8>::empty(),
    decreases entries.len(),
{
    if entries.len() > 0 {
        assert(forall|m: int|
            0 <= m < entries.drop_first().len() ==> entries.drop_first()[m].name@ != path[i]);
        lemma_no_match_streams_nothing(entries.drop_first(), path, i);
        assert(Seq::<u8>::empty() + Seq::<u8>::empty() =~= Seq::<u8>::empty());
    }
}

/// Law: when exactly one entry of a directory matches the segment, the
/// directory delivers exactly what that entry delivers — the payloads of its
/// siblings are read past but never forwarded.
pub proof fn lemma_unique_match_streams_alone(
    entries: Seq<DirEntry>,
    path: Seq<Seq<char>>,
    i: int,
    j: int,
)
    requires
        0 <= i < path.len(),
        0 <= j < entries.len(),
        entries[j].name@ == path[i],
        forall|m: int| 0 <= m < entries.len() && m != j ==> entries[m].name@ != path[i],
    ensures
        dir_streamed(entries, path, i) == streamed(entries[j].node, path, i + 1),
    decreases entries.len(),
{
    if j == 0 {
        assert(forall|m: int|
            0 <= m < entries.drop_first().len() ==> entries.drop_first()[m].name@ != path[i]);
        lemma_no_match_streams_nothing(entries.drop_first(), path, i);
        assert(streamed(entries[0].node, path, i + 1) + Seq::<u8>::empty() =~= streamed(
            entries[0].node,
            path,
            i + 1,
        ));
    } else {
        assert(entries.drop_first()[j - 1] == entries[j]);
        assert(forall|m: int|
            0 <= m < entries.drop_first().len() && m != j - 1 ==> entries.drop_first()[m].name@
                != path[i]);
        lemma_unique_match_streams_alone(entries.drop_first(), path, i, j - 1);
        assert(Seq::<u8>::empty() + dir_streamed(entries.drop_first(), path, i) =~= dir_streamed(
            entries.drop_first(),
            path,
            i,
        ));
    }
}

/// The segments of a slash-separated path; the empty path has none.
pub open spec fn segments_of(s: Seq<char>) -> Seq<Seq<char>>
    decreases s.len(),
{
    if s.len() == 0 {
        Seq::empty()
    } else {
        let k = find_char(s, '/');
        if k >= s.len() {
            seq![s]
        } else {
            seq![s.take(k as int)] + segments_of(s.skip(k as int + 1))
        }
    }
}

/// The segments an optional intra-archive path asks the walk to follow.
pub open spec fn target_segments(fp: Option<Seq<char>>) -> Seq<Seq<char>> {
    match fp {
        None => Seq::empty(),
        Some(s) => segments_of(s),
    }
}

/// Split an intra-archive path into its segments.
pub fn split_segments(s: &str) -> (r: Vec<String>)
    ensures
        r.deep_view() == segments_of(s@),
    decreases s@.len(),
{
    let n = s.unicode_len();
    if n == 0 {
        let r: Vec<String> = Vec::new();
        proof {
            assert(r.deep_view() =~= segments_of(s@));
        }
        return r;
    }
    let k = scan_char_from(s, 0, '/');
    proof {
        lemma_find_char_is(s@, '/', k as int);
    }
    if k == n {
        let mut out: Vec<String> = Vec::new();
        out.push(s.to_owned());
        proof {
            assert(out.deep_view() =~= seq![s@]);
        }
        out
    } else {
        let head = s.substring_char(0, k).to_owned();
        let tail = s.substring_char(k + 1, n);
        proof {
            assert(tail@ =~= s@.skip(k as int + 1));
            assert(head@ =~= s@.take(k as int));
        }
        let mut out = split_segments(tail);
        out.insert(0, head);
        proof {
            assert(out.deep_view() =~= seq![s@.take(k as int)] + segments_of(s@.skip(k as int + 1)));
        }
        out
    }
}

/// Walk a materialized archive tree and return exactly the bytes the model
/// delivers for the target path.
pub fn search_nar(node: &ArchiveNode, path: &Vec<String>, i: usize) -> (r: Vec<u8>)
    requires
        i <= path@.len(),
    ensures
        r@ == streamed(*node, path.deep_view(), i as int),
    decreases path@.len() - i,
{
    match node {
        ArchiveNode::File { contents, .. } => {
            if i == path.len() {
                let r = contents.clone();
                proof {
                    assert(r@ =~= contents@);
                }
                r
            } else {
                Vec::new()
            }
        },
        ArchiveNode::Symlink { .. } => Vec::new(),
        ArchiveNode::Directory { entries } => {
            let ghost pv = path.deep_view();
            let mut out: Vec<u8> = Vec::new();
            let plen = path.len();
            if i < plen {
                let mut j: usize = 0;
                proof {
                    assert(entries@.skip(0) =~= entries@);
                }
                while j < entries.len()
                    invariant
                        plen == path@.len(),
                        i < plen,
                        i < pv.len(),
                        j <= entries@.len(),
                        pv == path.deep_view(),
                        i <= path@.len(),
                        out@ + dir_streamed(entries@.skip(j as int), pv, i as int)
                            == dir_streamed(entries@, pv, i as int),
                    decreases entries@.len() - j,
                {
                    proof {
                        let tail = entries@.skip(j as int);
                        assert(tail[0] == entries@[j as int]);
                        assert(tail.drop_first() =~= entries@.skip(j as int + 1));
                        assert(pv[i as int] == path@[i as int]@);
                    }
                    if entries[j].name == path[i] {
                        let mut part = search_nar(&entries[j].node, path, i + 1);
                        out.append(&mut part);
                    }
                    j = j + 1;
                }
                proof {
                    assert(entries@.skip(entries@.len() as int) =~= Seq::<DirEntry>::empty());
                    assert(out@ + Seq::<u8>::empty() =~= out@);
                }
            }
            out
        },
    }
}

/// What kind of node a directory entry announces before its payload.
#[derive(Clone, Copy, Debug, PartialEq, Eq, Structural)]
pub enum EntryKind {
    File,
    Directory,
    Symlink,
}

/// What the streaming walk does with one directory entry: deliver its bytes,
/// descend into it, or read its payload and discard it.
#[derive(Clone, Copy, Debug, PartialEq, Eq, Structural)]
pub enum EntryAction {
    Stream,
    Descend,
    Drain,
}

/// The kind a node announces.
pub open spec fn kind_of(node: ArchiveNode) -> EntryKind {
    match node {
        ArchiveNode::File { .. } => EntryKind::File,
        ArchiveNode::Directory { .. } => EntryKind::Directory,
        ArchiveNode::Symlink { .. } => EntryKind::Symlink,
    }
}

/// The decision for an entry seen at segment `i`: a file whose name ends the
/// path is delivered, a directory whose name matches an inner segment is
/// entered, and everything else is read and discarded.
pub open spec fn entry_action_model(
    kind: EntryKind,
    name: Seq<char>,
    path: Seq<Seq<char>>,
    i: int,
) -> EntryAction {
    if name == path[i] {
        match kind {
            EntryKind::File => if i + 1 == path.len() {
                EntryAction::Stream
            } else {
                EntryAction::Drain
            },
            EntryKind::Directory => if i + 1 < path.len() {
                EntryAction::Descend
            } else {
                EntryAction::Drain
            },
            EntryKind::Symlink => EntryAction::Drain,
        }
    } else {
        EntryAction::Drain
    }
}

/// Decide what the streaming walk does with the entry named `name` of kind
/// `kind`, at segment `i` of the target path.
pub fn entry_action(kind: EntryKind, name: &String, path: &Vec<String>, i: usize) -> (a:
    EntryAction)
    requires
        i < path@.len(),
    ensures
        a == entry_action_model(kind, name@, path.deep_view(), i as int),
{
    proof {
        assert(path.deep_view()[i as int] == path@[i as int]@);
    }
    let plen = path.len();
    if *name == path[i] {
        match kind {
            EntryKind::File => {
                if i + 1 == plen {
                    EntryAction::Stream
                } else {
                    EntryAction::Drain
                }
            },
            EntryKind::Directory => {
                if i + 1 < plen {
                    EntryAction::Descend
                } else {
                    EntryAction::Drain
                }
            },
            EntryKind::Symlink => EntryAction::Drain,
        }
    } else {
        EntryAction::Drain
    }
}

/// What one entry contributes to the bytes its directory delivers.
pub open spec fn entry_contribution(e: DirEntry, path: Seq<Seq<char>>, i: int) -> Seq<u8> {
    if e.name@ == path[i] {
        streamed(e.node, path, i + 1)
    } else {
        Seq::empty()
    }
}

/// Law: the per-entry decisions deliver exactly the model's bytes. A drained
/// entry contributes nothing — its payload is read but never forwarded — a
/// streamed entry contributes precisely its file's contents, and a descended
/// entry contributes whatever the walk below it delivers.
pub proof fn lemma_entry_action(e: DirEntry, path: Seq<Seq<char>>, i: int)
    requires
        0 <= i < path.len(),
    ensures
        entry_action_model(kind_of(e.node), e.name@, path, i) == EntryAction::Drain
            ==> entry_contribution(e, path, i) == Seq::<u8>::empty(),
        entry_action_model(kind_of(e.node), e.name@, path, i) == EntryAction::Stream ==> (e.node
            matches ArchiveNode::File { contents, .. } && entry_contribution(e, path, i)
            == contents@),
        entry_action_model(kind_of(e.node), e.name@, path, i) == EntryAction::Descend ==> (e.node
            matches ArchiveNode::Directory { entries } && entry_contribution(e, path, i)
            == dir_streamed(entries@, path, i + 1)),
{
}

/// Walk the tree for an optional intra-archive path, as the request hands it
/// over: no path means the object's root is itself the requested file.
pub fn search_nar_target(node: &ArchiveNode, file_path: &Option<String>) -> (r: Vec<u8>)
    ensures
        r@ == streamed(*node, target_segments(file_path.deep_view()), 0),
{
    let segs: Vec<String> = match file_path {
        None => {
            let v: Vec<String> = Vec::new();
            proof {
                assert(v.deep_view() =~= Seq::<Seq<char>>::empty());
            }
            v
        },
        Some(p) => split_segments(p.as_str()),
    };
    search_nar(node, &segs, 0)
}

} // verus!
