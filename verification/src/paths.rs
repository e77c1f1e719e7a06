//! Path handling over byte strings with `/` as the separator: file names,
//! parent-directory labels, root stripping, extension tests and rewriting,
//! and joining. These mirror how the pipeline derives labels and output
//! locations from input paths.

use vstd::prelude::*;
use crate::bytes::{find_last, last_byte, lower_bytes, to_lower, sub_bytes, append_bytes};

verus! {

/// The path separator byte, `b'/'`.
pub const SEP: u8 = 47;

/// The byte after the last separator: the path's final component (the whole
/// path when no separator occurs).
pub open spec fn file_name_spec(p: Seq<u8>) -> Seq<u8> {
    match find_last(p, 47) {
        Some(i) => p.subrange(i + 1, p.len() as int),
        None => p,
    }
}

/// Everything before the last separator (empty when no separator occurs).
pub open spec fn parent_spec(p: Seq<u8>) -> Seq<u8> {
    match find_last(p, 47) {
        Some(i) => p.take(i),
        None => Seq::empty(),
    }
}

/// The label of a file: the name of its immediate parent directory, empty
/// when the path has no parent component.
pub open spec fn label_of_spec(p: Seq<u8>) -> Seq<u8> {
    file_name_spec(parent_spec(p))
}

/// Strip a root directory prefix: `Some(rest)` when `p` is `root`, a
/// separator, then `rest` (everything when `root` is empty), else `None`.
pub open spec fn strip_root_spec(p: Seq<u8>, root: Seq<u8>) -> Option<Seq<u8>> {
    if root.len() == 0 {
        Some(p)
    } else if p.len() > root.len() && p.take(root.len() as int) == root && p[root.len() as int]
        == 47 {
        Some(p.subrange(root.len() as int + 1, p.len() as int))
    } else {
        None
    }
}

/// Index, within a file name, of the dot that starts its extension: the last
/// dot, provided it is not the name's first byte (so dotfiles have no
/// extension).
pub open spec fn ext_split(name: Seq<u8>) -> Option<int> {
    match find_last(name, 46) {
        Some(j) => if j > 0 {
            Some(j)
        } else {
            None
        },
        None => None,
    }
}

/// The extension of a path's final component, if it has one.
pub open spec fn ext_of_spec(p: Seq<u8>) -> Option<Seq<u8>> {
    let name = file_name_spec(p);
    match ext_split(name) {
        Some(j) => Some(name.subrange(j + 1, name.len() as int)),
        None => None,
    }
}

/// `true` iff `e`, lower-cased, is one of the allowed image extensions
/// `png`, `jpg`, `jpeg`.
pub open spec fn is_allowed_ext(e: Seq<u8>) -> bool {
    let l = lower_bytes(e);
    (l =~= seq![112u8, 110u8, 103u8]) || (l =~= seq![106u8, 112u8, 103u8]) || (l =~= seq![
        106u8,
        112u8,
        101u8,
        103u8,
    ])
}

/// `true` iff the file at `p` is eligible for processing: it has an
/// extension and that extension, case-insensitively, is on the allow-list.
pub open spec fn eligible_spec(p: Seq<u8>) -> bool {
    match ext_of_spec(p) {
        Some(e) => is_allowed_ext(e),
        None => false,
    }
}

/// Rewrite the extension of the final component to `png`: replace the bytes
/// after the extension dot, or append `.png` when there is no extension.
pub open spec fn with_png_ext_spec(p: Seq<u8>) -> Seq<u8> {
    let name = file_name_spec(p);
    match ext_split(name) {
        Some(j) => p.take(p.len() - name.len() + j + 1) + seq![112u8, 110u8, 103u8],
        None => p + seq![46u8, 112u8, 110u8, 103u8],
    }
}

/// Join a directory and a relative path with a single separator.
pub open spec fn join_spec(dir: Seq<u8>, rel: Seq<u8>) -> Seq<u8> {
    if dir.len() == 0 {
        rel
    } else if dir.last() == 47 {
        dir + rel
    } else {
        dir + seq![47u8] + rel
    }
}

/// The final component is a suffix of the path.
pub proof fn lemma_file_name_suffix(p: Seq<u8>)
    ensures
        file_name_spec(p).len() <= p.len(),
        file_name_spec(p) =~= p.subrange(p.len() - file_name_spec(p).len(), p.len() as int),
{
    crate::bytes::lemma_find_last(p, 47);
    match find_last(p, 47) {
        Some(i) => {
            assert(file_name_spec(p) == p.subrange(i + 1, p.len() as int));
        },
        None => {
            assert(file_name_spec(p) =~= p.subrange(0, p.len() as int));
        },
    }
}

/// The path's final component.
pub fn file_name(p: &[u8]) -> (r: Vec<u8>)
    ensures
        r@ == file_name_spec(p@),
{
    let n = p.len();
    match last_byte(p, SEP) {
        Some(i) => sub_bytes(p, i + 1, n),
        None => sub_bytes(p, 0, n),
    }
}

/// The path's parent: everything before the last separator.
pub fn parent_path(p: &[u8]) -> (r: Vec<u8>)
    ensures
        r@ == parent_spec(p@),
{
    match last_byte(p, SEP) {
        Some(i) => sub_bytes(p, 0, i),
        None => {
            let r: Vec<u8> = Vec::new();
            proof {
                assert(r@ =~= parent_spec(p@));
            }
            r
        },
    }
}

/// The label of the file at `p`: its parent directory's own name.
pub fn label_of(p: &[u8]) -> (r: Vec<u8>)
    ensures
        r@ == label_of_spec(p@),
{
    match last_byte(p, SEP) {
        Some(i) => {
            let par = sub_bytes(p, 0, i);
            file_name(par.as_slice())
        },
        None => Vec::new(),
    }
}

/// Strip the root directory prefix from `p`.
pub fn strip_root(p: &[u8], root: &[u8]) -> (r: Option<Vec<u8>>)
    ensures
        match r {
            Some(v) => strip_root_spec(p@, root@) == Some(v@),
            None => strip_root_spec(p@, root@) is None,
        },
{
    if root.len() == 0 {
        return Some(sub_bytes(p, 0, p.len()));
    }
    if p.len() <= root.len() {
        return None;
    }
    let head = sub_bytes(p, 0, root.len());
    if !crate::bytes::bytes_eq(head.as_slice(), root) {
        return None;
    }
    if p[root.len()] != SEP {
        return None;
    }
    Some(sub_bytes(p, root.len() + 1, p.len()))
}

/// Index of the extension dot within the final component of `p`, as an
/// absolute index into `p`.
fn abs_ext_dot(p: &[u8]) -> (r: Option<usize>)
    ensures
        match r {
            Some(k) => {
                let name = file_name_spec(p@);
                ext_split(name) == Some(k - (p@.len() - name.len())) && p@.len() - name.len() <= k
                    < p@.len()
            },
            None => ext_split(file_name_spec(p@)) is None,
        },
{
    let n = p.len();
    let name_start: usize = match last_byte(p, SEP) {
        Some(i) => i + 1,
        None => 0,
    };
    let name = sub_bytes(p, name_start, n);
    proof {
        assert(name@ == file_name_spec(p@));
    }
    match last_byte(name.as_slice(), 46) {
        Some(j) => if j > 0 {
            Some(name_start + j)
        } else {
            None
        },
        None => None,
    }
}

/// Whether the file at `p` has an allowed image extension, compared
/// case-insensitively.
pub fn eligible(p: &[u8]) -> (r: bool)
    ensures
        r == eligible_spec(p@),
{
    match abs_ext_dot(p) {
        Some(k) => {
            let n = p.len();
            let ext = sub_bytes(p, k + 1, n);
            proof {
                let name = file_name_spec(p@);
                let off = p@.len() - name.len();
                lemma_file_name_suffix(p@);
                assert(forall|t: int|
                    0 <= t < name.len() ==> #[trigger] name[t] == p@[off + t]);
                assert(ext@ =~= name.subrange(
                    ext_split(name)->Some_0 + 1,
                    name.len() as int,
                ));
            }
            let low = to_lower(ext.as_slice());
            let ok = (low.len() == 3 && low[0] == 112 && low[1] == 110 && low[2] == 103) || (
            low.len() == 3 && low[0] == 106 && low[1] == 112 && low[2] == 103) || (low.len() == 4
                && low[0] == 106 && low[1] == 112 && low[2] == 101 && low[3] == 103);
            proof {
                if ok {
                    assert(is_allowed_ext(ext@));
                } else {
                    assert(!is_allowed_ext(ext@));
                }
            }
            ok
        },
        None => false,
    }
}

/// Rewrite the final component's extension to `png`.
pub fn with_png_ext(p: &[u8]) -> (r: Vec<u8>)
    ensures
        r@ == with_png_ext_spec(p@),
{
    match abs_ext_dot(p) {
        Some(k) => {
            let n = p.len();
            assert(k < n);
            let mut out = sub_bytes(p, 0, k + 1);
            out.push(112);
            out.push(110);
            out.push(103);
            proof {
                assert(out@ =~= with_png_ext_spec(p@));
            }
            out
        },
        None => {
            let mut out = sub_bytes(p, 0, p.len());
            out.push(46);
            out.push(112);
            out.push(110);
            out.push(103);
            proof {
                assert(out@ =~= with_png_ext_spec(p@));
            }
            out
        },
    }
}

/// Join a directory path and a relative path.
pub fn join_path(dir: &[u8], rel: &[u8]) -> (r: Vec<u8>)
    ensures
        r@ == join_spec(dir@, rel@),
{
    let mut out = sub_bytes(dir, 0, dir.len());
    if dir.len() > 0 && dir[dir.len() - 1] != SEP {
        out.push(SEP);
    }
    append_bytes(&mut out, rel);
    proof {
        assert(out@ =~= join_spec(dir@, rel@));
    }
    out
}

} // verus!
