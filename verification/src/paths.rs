use vstd::prelude::*;
use crate::format::ExportFormat;

verus! {

/// The byte this library treats as the path separator.
pub const SEPARATOR: u8 = 47;

/// The byte that begins a file extension.
pub const DOT: u8 = 46;

/// Index of the first byte of the final path component: one past the
/// last separator, or zero when the path holds none.
pub open spec fn file_name_start(p: Seq<u8>) -> int
    decreases p.len(),
{
    if p.len() == 0 {
        0
    } else if p[p.len() - 1] == SEPARATOR {
        p.len() as int
    } else {
        file_name_start(p.drop_last())
    }
}

/// The index of the last dot strictly after `lo`, if any.
pub open spec fn last_dot_after(p: Seq<u8>, lo: int) -> Option<int>
    decreases p.len(),
{
    if p.len() == 0 || p.len() <= lo + 1 {
        None::<int>
    } else if p[p.len() - 1] == DOT {
        Some(p.len() - 1)
    } else {
        last_dot_after(p.drop_last(), lo)
    }
}

/// The extension of the final path component: the bytes after its last
/// dot, provided that dot is not the component's first byte (a name
/// that starts with a dot and holds no other dot has no extension).
pub open spec fn extension_of(p: Seq<u8>) -> Option<Seq<u8>> {
    match last_dot_after(p, file_name_start(p)) {
        Some(i) => Some(p.subrange(i + 1, p.len() as int)),
        None => None::<Seq<u8>>,
    }
}

/// The path with its extension replaced by `ext`; when the path has no
/// extension, a dot and `ext` are appended.
pub open spec fn with_extension_spec(p: Seq<u8>, ext: Seq<u8>) -> Seq<u8> {
    match last_dot_after(p, file_name_start(p)) {
        Some(i) => p.subrange(0, i + 1) + ext,
        None => p + seq![DOT] + ext,
    }
}

/// The source-document extension, as bytes ("psd").
pub open spec fn document_extension() -> Seq<u8> {
    seq![112u8, 115u8, 100u8]
}

/// Whether the path names a source document by its extension.
pub open spec fn is_document_path(p: Seq<u8>) -> bool {
    extension_of(p) == Some(document_extension())
}

proof fn lemma_file_name_start_range(p: Seq<u8>)
    ensures
        0 <= file_name_start(p) <= p.len(),
    decreases p.len(),
{
    if p.len() == 0 {
    } else if p[p.len() - 1] == SEPARATOR {
    } else {
        lemma_file_name_start_range(p.drop_last());
    }
}

/// Dropping a separator-free suffix does not move the file-name start.
proof fn lemma_file_name_start_skip(p: Seq<u8>, i: int)
    requires
        0 <= i <= p.len(),
        forall|k: int| i <= k < p.len() ==> p[k] != SEPARATOR,
    ensures
        file_name_start(p) == file_name_start(p.subrange(0, i)),
    decreases p.len(),
{
    if p.len() == i {
        assert(p.subrange(0, i) =~= p);
    } else {
        assert(p[p.len() - 1] != SEPARATOR);
        assert(p.drop_last() =~= p.subrange(0, p.len() - 1));
        lemma_file_name_start_skip(p.drop_last(), i);
        assert(p.drop_last().subrange(0, i) =~= p.subrange(0, i));
    }
}

/// Dropping a dot-free suffix does not change the last dot.
proof fn lemma_last_dot_skip(p: Seq<u8>, lo: int, i: int)
    requires
        0 <= i <= p.len(),
        forall|k: int| i <= k < p.len() ==> p[k] != DOT,
    ensures
        last_dot_after(p, lo) == last_dot_after(p.subrange(0, i), lo),
    decreases p.len(),
{
    if p.len() == i {
        assert(p.subrange(0, i) =~= p);
    } else if p.len() <= lo + 1 {
        assert(p.subrange(0, i).len() <= lo + 1);
    } else {
        assert(p[p.len() - 1] != DOT);
        assert(p.drop_last() =~= p.subrange(0, p.len() - 1));
        lemma_last_dot_skip(p.drop_last(), lo, i);
        assert(p.drop_last().subrange(0, i) =~= p.subrange(0, i));
    }
}

proof fn lemma_last_dot_bounds(p: Seq<u8>, lo: int)
    requires
        -1 <= lo,
    ensures
        last_dot_after(p, lo) matches Some(i) ==> lo < i < p.len() && p[i] == DOT,
    decreases p.len(),
{
    if p.len() <= lo + 1 {
    } else if p[p.len() - 1] == DOT {
    } else {
        lemma_last_dot_bounds(p.drop_last(), lo);
    }
}

/// The index of the dot that begins the extension of `path`, if any.
fn extension_dot_index(path: &Vec<u8>) -> (r: Option<usize>)
    ensures
        match r {
            Some(j) => last_dot_after(path@, file_name_start(path@)) == Some(j as int) && j
                < path@.len(),
            None => last_dot_after(path@, file_name_start(path@)) is None,
        },
{
    let n = path.len();
    let mut i: usize = n;
    while i > 0
        invariant
            i <= n,
            n == path@.len(),
            forall|k: int| i <= k < n ==> path@[k] != SEPARATOR && path@[k] != DOT,
        decreases i,
    {
        let c = path[i - 1];
        if c == SEPARATOR {
            proof {
                lemma_file_name_start_skip(path@, i as int);
                assert(path@.subrange(0, i as int)[i - 1] == SEPARATOR);
                assert(file_name_start(path@) == i);
                lemma_last_dot_skip(path@, i as int, i as int);
                assert(path@.subrange(0, i as int).len() <= i + 1);
            }
            return None;
        }
        if c == DOT {
            if i >= 2 && path[i - 2] != SEPARATOR {
                proof {
                    lemma_file_name_start_skip(path@, (i - 1) as int);
                    let q = path@.subrange(0, (i - 1) as int);
                    assert(q[i - 2] != SEPARATOR);
                    assert(q.drop_last() =~= path@.subrange(0, (i - 2) as int));
                    lemma_file_name_start_range(path@.subrange(0, (i - 2) as int));
                    let fns = file_name_start(path@);
                    assert(fns <= i - 2);
                    lemma_last_dot_skip(path@, fns, i as int);
                    assert(path@.subrange(0, i as int)[i - 1] == DOT);
                    assert(path@.subrange(0, i as int).len() > fns + 1);
                }
                return Some(i - 1);
            } else {
                proof {
                    lemma_file_name_start_skip(path@, (i - 1) as int);
                    if i >= 2 {
                        assert(path@.subrange(0, (i - 1) as int)[i - 2] == SEPARATOR);
                    }
                    assert(file_name_start(path@) == i - 1);
                    lemma_last_dot_skip(path@, (i - 1) as int, i as int);
                    assert(path@.subrange(0, i as int).len() <= i);
                }
                return None;
            }
        }
        i = i - 1;
    }
    proof {
        lemma_file_name_start_skip(path@, 0);
        lemma_last_dot_skip(path@, 0, 0);
    }
    None
}

/// Whether the path's extension equals the source-document extension,
/// byte for byte.
pub fn has_document_extension(path: &Vec<u8>) -> (r: bool)
    ensures
        r == is_document_path(path@),
{
    proof {
        lemma_file_name_start_range(path@);
        lemma_last_dot_bounds(path@, file_name_start(path@));
    }
    match extension_dot_index(path) {
        None => false,
        Some(j) => {
            let n = path.len();
            if n - (j + 1) != 3 {
                assert(extension_of(path@)->Some_0.len() != 3);
                false
            } else {
                let r = path[j + 1] == 112 && path[j + 2] == 115 && path[j + 3] == 100;
                proof {
                    let ext = path@.subrange(j + 1, n as int);
                    if r {
                        assert(ext =~= document_extension());
                    } else {
                        assert(ext[0] == path@[j + 1] && ext[1] == path@[j + 2] && ext[2]
                            == path@[j + 3]);
                    }
                }
                r
            }
        },
    }
}

/// The path with its extension replaced by `ext`.
pub fn with_extension(path: &Vec<u8>, ext: &Vec<u8>) -> (r: Vec<u8>)
    ensures
        r@ == with_extension_spec(path@, ext@),
{
    proof {
        lemma_file_name_start_range(path@);
        lemma_last_dot_bounds(path@, file_name_start(path@));
    }
    let n = path.len();
    let dot = extension_dot_index(path);
    let keep: usize = match dot {
        Some(j) => j + 1,
        None => n,
    };
    let mut out: Vec<u8> = Vec::new();
    let mut k: usize = 0;
    while k < keep
        invariant
            k <= keep,
            keep <= path@.len(),
            out@ == path@.subrange(0, k as int),
        decreases keep - k,
    {
        out.push(path[k]);
        proof {
            assert(out@ =~= path@.subrange(0, k + 1));
        }
        k = k + 1;
    }
    if keep == path.len() && dot.is_none() {
        out.push(DOT);
    }
    let ghost head = out@;
    let mut e: usize = 0;
    while e < ext.len()
        invariant
            e <= ext@.len(),
            out@ == head + ext@.subrange(0, e as int),
        decreases ext@.len() - e,
    {
        out.push(ext[e]);
        proof {
            assert(out@ =~= head + ext@.subrange(0, e + 1));
        }
        e = e + 1;
    }
    proof {
        assert(ext@.subrange(0, ext@.len() as int) =~= ext@);
        assert(out@ =~= with_extension_spec(path@, ext@));
    }
    out
}

/// The output path for a document: the document path with its extension
/// replaced by the format's extension.
pub fn output_path_for(path: &Vec<u8>, format: ExportFormat) -> (r: Vec<u8>)
    ensures
        r@ == with_extension_spec(path@, format.extension_bytes_spec()),
{
    let ext = format.extension_bytes();
    with_extension(path, &ext)
}

/// Byte-for-byte equality of two paths.
pub fn bytes_eq(a: &Vec<u8>, b: &Vec<u8>) -> (r: bool)
    ensures
        r == (a@ == b@),
{
    if a.len() != b.len() {
        return false;
    }
    let mut i: usize = 0;
    while i < a.len()
        invariant
            i <= a@.len(),
            a@.len() == b@.len(),
            forall|k: int| 0 <= k < i ==> a@[k] == b@[k],
        decreases a@.len() - i,
    {
        if a[i] != b[i] {
            return false;
        }
        i = i + 1;
    }
    proof {
        assert(a@ =~= b@);
    }
    true
}

} // verus!
