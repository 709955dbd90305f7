//! Path mapping: a source file's path, given as bytes with `/` separators, is
//! re-rooted from the source root into the output root and its extension is
//! replaced by the target codec's extension. A path that is not strictly under
//! the source root is rejected, never silently mapped.

use vstd::prelude::*;

verus! {

/// Byte values of the path characters the mapping scheme reads.
pub const SLASH: u8 = 47;

pub const DOT: u8 = 46;

pub const UNDERSCORE: u8 = 95;

pub const UPPER_A: u8 = 65;

pub const UPPER_Z: u8 = 90;

pub const CASE_GAP: u8 = 32;

pub const LOWER_E: u8 = 101;

pub const LOWER_G: u8 = 103;

pub const LOWER_J: u8 = 106;

pub const LOWER_N: u8 = 110;

pub const LOWER_P: u8 = 112;

/// A discovered file turned out not to lie under the declared source root.
#[derive(Clone, Copy, Debug, PartialEq, Eq, Structural)]
pub struct PathEscapeError;

/// ASCII lowercasing of one byte.
pub open spec fn lower_byte(b: u8) -> u8 {
    if UPPER_A <= b && b <= UPPER_Z {
        (b + CASE_GAP) as u8
    } else {
        b
    }
}

/// ASCII lowercasing of a byte string.
pub open spec fn lower_bytes(s: Seq<u8>) -> Seq<u8> {
    s.map_values(|b: u8| lower_byte(b))
}

/// `path` lies strictly under the directory `root`: it is `root`, then a
/// separator, then at least one byte of relative path.
pub open spec fn is_strictly_under(path: Seq<u8>, root: Seq<u8>) -> bool {
    &&& path.len() >= root.len() + 2
    &&& path.subrange(0, root.len() as int) == root
    &&& path[root.len() as int] == SLASH
}

/// The path relative to the root, without the leading separator.
pub open spec fn rel_of(path: Seq<u8>, root: Seq<u8>) -> Seq<u8> {
    path.subrange((root.len() + 1) as int, path.len() as int)
}

/// Length of `path` up to its extension: the extension separator is the last
/// `.` of the final component, provided it is not that component's first byte.
/// A path whose final component has no such `.` is its own stem.
pub open spec fn stem_len(path: Seq<u8>) -> int
    decreases path.len(),
{
    if path.len() <= 1 {
        path.len() as int
    } else if path.last() == SLASH {
        path.len() as int
    } else if path.last() == DOT && path[path.len() - 2] != SLASH {
        path.len() - 1
    } else if stem_len(path.drop_last()) == path.len() - 1 {
        path.len() as int
    } else {
        stem_len(path.drop_last())
    }
}

/// The path up to (and without) its extension separator.
pub open spec fn stem_of(path: Seq<u8>) -> Seq<u8> {
    path.take(stem_len(path))
}

/// The extension of a path, without its separator; empty if there is none.
pub open spec fn extension_of(path: Seq<u8>) -> Seq<u8> {
    if stem_len(path) < path.len() {
        path.subrange(stem_len(path) + 1, path.len() as int)
    } else {
        Seq::empty()
    }
}

/// The stem never runs past the path.
pub proof fn lemma_stem_len_bounds(path: Seq<u8>)
    ensures
        0 <= stem_len(path) <= path.len(),
    decreases path.len(),
{
    if path.len() > 1 {
        lemma_stem_len_bounds(path.drop_last());
    }
}

/// Where a source path lands: the output root, the separator, the relative
/// stem, and the lowercased target extension.
pub open spec fn mapped_path(path: Seq<u8>, root: Seq<u8>, out_root: Seq<u8>, ext: Seq<u8>) -> Seq<u8> {
    out_root + seq![SLASH] + stem_of(rel_of(path, root)) + seq![DOT] + lower_bytes(ext)
}

/// The output tree sits beside the source root, named after it with the
/// lowercased codec name appended.
pub open spec fn output_root_of(source_root: Seq<u8>, format: Seq<u8>) -> Seq<u8> {
    source_root + seq![UNDERSCORE] + lower_bytes(format)
}

/// Copies a byte string.
pub fn copy_bytes(source: &Vec<u8>) -> (copy: Vec<u8>)
    ensures
        copy@ == source@,
{
    let mut copy: Vec<u8> = Vec::new();
    let mut i: usize = 0;
    while i < source.len()
        invariant
            i <= source@.len(),
            copy@ == source@.take(i as int),
        decreases source@.len() - i,
    {
        copy.push(source[i]);
        assert(copy@ =~= source@.take(i + 1));
        i = i + 1;
    }
    assert(copy@ =~= source@);
    copy
}

/// Appends the first `n` bytes of `src` to `dst`.
fn append_prefix(dst: &mut Vec<u8>, src: &Vec<u8>, n: usize)
    requires
        n <= src@.len(),
    ensures
        final(dst)@ == old(dst)@ + src@.take(n as int),
{
    let mut i: usize = 0;
    while i < n
        invariant
            i <= n <= src@.len(),
            dst@ == old(dst)@ + src@.take(i as int),
        decreases n - i,
    {
        dst.push(src[i]);
        assert(dst@ =~= old(dst)@ + src@.take(i + 1));
        i = i + 1;
    }
}

/// Appends all of `src` to `dst`.
fn append_bytes(dst: &mut Vec<u8>, src: &Vec<u8>)
    ensures
        final(dst)@ == old(dst)@ + src@,
{
    let n = src.len();
    append_prefix(dst, src, n);
    assert(src@.take(src@.len() as int) =~= src@);
}

/// ASCII-lowercases a byte string.
pub fn ascii_lowercase(s: &Vec<u8>) -> (low: Vec<u8>)
    ensures
        low@ == lower_bytes(s@),
{
    let mut low: Vec<u8> = Vec::new();
    let mut i: usize = 0;
    while i < s.len()
        invariant
            i <= s@.len(),
            low@.len() == i,
            forall|j: int| 0 <= j < i ==> low@[j] == lower_byte(s@[j]),
        decreases s@.len() - i,
    {
        let b = s[i];
        if b >= UPPER_A && b <= UPPER_Z {
            low.push(b + CASE_GAP);
        } else {
            low.push(b);
        }
        i = i + 1;
    }
    assert(low@ =~= lower_bytes(s@));
    low
}

/// Finds the stem length of a byte path by scanning its tail.
fn find_stem_len(path: &Vec<u8>) -> (n: usize)
    ensures
        n == stem_len(path@),
        n <= path@.len(),
{
    proof {
        lemma_stem_len_bounds(path@);
    }
    let len = path.len();
    let mut i: usize = len;
    assert(path@.take(len as int) =~= path@);
    while i > 1
        invariant
            i <= len,
            len == path@.len(),
            stem_len(path@) == if stem_len(path@.take(i as int)) == i {
                path@.len() as int
            } else {
                stem_len(path@.take(i as int))
            },
        decreases i,
    {
        let ghost part = path@.take(i as int);
        proof {
            assert(part.len() == i);
            assert(part.last() == path@[i - 1]);
            assert(part[i - 2] == path@[i - 2]);
        }
        if path[i - 1] == SLASH {
            assert(stem_len(part) == i);
            return len;
        }
        if path[i - 1] == DOT && path[i - 2] != SLASH {
            assert(stem_len(part) == i - 1);
            return i - 1;
        }
        proof {
            assert(part.drop_last() =~= path@.take(i - 1));
            lemma_stem_len_bounds(path@.take(i - 1));
        }
        i = i - 1;
    }
    assert(stem_len(path@.take(i as int)) == i);
    len
}

/// Maps one source path to its output path: the path relative to `source_root`
/// is re-rooted under `output_root` and its extension is replaced by the
/// lowercased `target_ext`. Exactly the paths strictly under the source root
/// are mapped; any other path is a `PathEscapeError`.
pub fn map_output_path(
    source: &Vec<u8>,
    source_root: &Vec<u8>,
    output_root: &Vec<u8>,
    target_ext: &Vec<u8>,
) -> (mapped: Result<Vec<u8>, PathEscapeError>)
    ensures
        mapped is Ok <==> is_strictly_under(source@, source_root@),
        mapped matches Ok(out) ==> out@ == mapped_path(
            source@,
            source_root@,
            output_root@,
            target_ext@,
        ),
{
    let root_len = source_root.len();
    if source.len() < root_len || source.len() - root_len < 2 {
        return Err(PathEscapeError);
    }
    let mut i: usize = 0;
    while i < root_len
        invariant
            i <= root_len,
            root_len == source_root@.len(),
            source@.len() >= root_len + 2,
            forall|j: int| 0 <= j < i ==> source@[j] == source_root@[j],
        decreases root_len - i,
    {
        if source[i] != source_root[i] {
            proof {
                assert(source@.subrange(0, root_len as int)[i as int] != source_root@[i as int]);
            }
            return Err(PathEscapeError);
        }
        i = i + 1;
    }
    if source[root_len] != SLASH {
        return Err(PathEscapeError);
    }
    proof {
        assert(source@.subrange(0, root_len as int) =~= source_root@);
        assert(is_strictly_under(source@, source_root@));
    }

    let mut rel: Vec<u8> = Vec::new();
    let mut j: usize = root_len + 1;
    while j < source.len()
        invariant
            root_len + 1 <= j <= source@.len(),
            root_len == source_root@.len(),
            rel@ == source@.subrange(root_len + 1, j as int),
        decreases source@.len() - j,
    {
        rel.push(source[j]);
        assert(rel@ =~= source@.subrange(root_len + 1, j + 1));
        j = j + 1;
    }
    assert(rel@ =~= rel_of(source@, source_root@));

    let stem = find_stem_len(&rel);
    let low = ascii_lowercase(target_ext);
    let mut out: Vec<u8> = Vec::new();
    append_bytes(&mut out, output_root);
    out.push(SLASH);
    assert(out@ =~= output_root@ + seq![SLASH]);
    append_prefix(&mut out, &rel, stem);
    out.push(DOT);
    assert(out@ =~= output_root@ + seq![SLASH] + stem_of(rel@) + seq![DOT]);
    append_bytes(&mut out, &low);
    assert(out@ =~= mapped_path(source@, source_root@, output_root@, target_ext@));
    Ok(out)
}

/// Derives the output root's path from the source root: the source root's own
/// path with `_` and the lowercased codec name appended, beside the source
/// tree. A root that is empty or ends in a separator has no usable name.
pub fn derive_output_root(source_root: &Vec<u8>, format: &Vec<u8>) -> (out: Option<Vec<u8>>)
    ensures
        out is Some <==> source_root@.len() > 0 && source_root@.last() != SLASH,
        out matches Some(root) ==> root@ == output_root_of(source_root@, format@),
{
    if source_root.len() == 0 {
        return None;
    }
    if source_root[source_root.len() - 1] == SLASH {
        return None;
    }
    let mut out: Vec<u8> = Vec::new();
    append_bytes(&mut out, source_root);
    out.push(UNDERSCORE);
    assert(out@ =~= source_root@ + seq![UNDERSCORE]);
    let low = ascii_lowercase(format);
    append_bytes(&mut out, &low);
    assert(out@ =~= output_root_of(source_root@, format@));
    Some(out)
}

/// Whether a path carries one of the supported source-image extensions, in any
/// letter case.
pub open spec fn is_supported_image_spec(path: Seq<u8>) -> bool {
    ||| lower_bytes(extension_of(path)) == seq![LOWER_J, LOWER_P, LOWER_G]
    ||| lower_bytes(extension_of(path)) == seq![LOWER_J, LOWER_P, LOWER_E, LOWER_G]
    ||| lower_bytes(extension_of(path)) == seq![LOWER_P, LOWER_N, LOWER_G]
}

/// Decides whether a discovered file is an eligible source image by its
/// extension, compared without regard to letter case.
pub fn is_supported_image(path: &Vec<u8>) -> (eligible: bool)
    ensures
        eligible == is_supported_image_spec(path@),
{
    let len = path.len();
    let stem = find_stem_len(path);
    if stem >= len {
        proof {
            assert(extension_of(path@) =~= Seq::<u8>::empty());
            assert(lower_bytes(extension_of(path@)).len() == 0);
        }
        return false;
    }
    let mut ext: Vec<u8> = Vec::new();
    let mut j: usize = stem + 1;
    while j < len
        invariant
            stem + 1 <= j <= len,
            len == path@.len(),
            ext@ == path@.subrange(stem + 1, j as int),
        decreases len - j,
    {
        ext.push(path[j]);
        assert(ext@ =~= path@.subrange(stem + 1, j + 1));
        j = j + 1;
    }
    assert(ext@ =~= extension_of(path@));
    let low = ascii_lowercase(&ext);

    if low.len() == 3 && low[0] == LOWER_J && low[1] == LOWER_P && low[2] == LOWER_G {
        assert(low@ =~= seq![LOWER_J, LOWER_P, LOWER_G]);
        return true;
    }
    if low.len() == 4 && low[0] == LOWER_J && low[1] == LOWER_P && low[2] == LOWER_E && low[3] == LOWER_G {
        assert(low@ =~= seq![LOWER_J, LOWER_P, LOWER_E, LOWER_G]);
        return true;
    }
    if low.len() == 3 && low[0] == LOWER_P && low[1] == LOWER_N && low[2] == LOWER_G {
        assert(low@ =~= seq![LOWER_P, LOWER_N, LOWER_G]);
        return true;
    }
    proof {
        if low@ == seq![LOWER_J, LOWER_P, LOWER_G] || low@ == seq![LOWER_P, LOWER_N, LOWER_G] {
            assert(low@.len() == 3);
        }
        if low@ == seq![LOWER_J, LOWER_P, LOWER_E, LOWER_G] {
            assert(low@.len() == 4);
        }
    }
    false
}

/// The mapping never collides within one run: two source paths under the same
/// root whose relative stems differ land on different output paths, so no two
/// distinct jobs ever write the same destination.
pub proof fn lemma_path_mapper_injective(
    p1: Seq<u8>,
    p2: Seq<u8>,
    root: Seq<u8>,
    out_root: Seq<u8>,
    ext: Seq<u8>,
)
    requires
        is_strictly_under(p1, root),
        is_strictly_under(p2, root),
        stem_of(rel_of(p1, root)) != stem_of(rel_of(p2, root)),
    ensures
        mapped_path(p1, root, out_root, ext) != mapped_path(p2, root, out_root, ext),
{
    let s1 = stem_of(rel_of(p1, root));
    let s2 = stem_of(rel_of(p2, root));
    let m1 = mapped_path(p1, root, out_root, ext);
    let m2 = mapped_path(p2, root, out_root, ext);
    if m1 == m2 {
        assert(m1.len() == out_root.len() + 1 + s1.len() + 1 + lower_bytes(ext).len());
        assert(m2.len() == out_root.len() + 1 + s2.len() + 1 + lower_bytes(ext).len());
        assert(s1.len() == s2.len());
        assert forall|i: int| 0 <= i < s1.len() implies s1[i] == s2[i] by {
            assert(m1[out_root.len() + 1 + i] == s1[i]);
            assert(m2[out_root.len() + 1 + i] == s2[i]);
        }
        assert(s1 =~= s2);
    }
}

/// The mapping is a pure function of its inputs: re-running a batch over
/// identical roots, sources and extension reproduces byte-identical output
/// paths.
pub proof fn lemma_path_mapper_deterministic(
    out1: Seq<u8>,
    out2: Seq<u8>,
    path: Seq<u8>,
    root: Seq<u8>,
    out_root: Seq<u8>,
    ext: Seq<u8>,
)
    requires
        out1 == mapped_path(path, root, out_root, ext),
        out2 == mapped_path(path, root, out_root, ext),
    ensures
        out1 == out2,
{
}

} // verus!
