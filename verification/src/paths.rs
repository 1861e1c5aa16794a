use vstd::prelude::*;
use vstd::slice::slice_subrange;
use vstd::utf8::{decode_utf8, valid_utf8};

verus! {

/// The path separator.
pub open spec fn separator() -> u8 {
    0x2f
}

/// The index of the last separator of `p`, or -1 when there is none.
pub open spec fn last_separator(p: Seq<u8>) -> int
    decreases p.len(),
{
    if p.len() == 0 {
        -1
    } else if p.last() == separator() {
        p.len() - 1
    } else {
        last_separator(p.drop_last())
    }
}

/// The single-dot component, which names the directory itself.
pub open spec fn is_cur_dir(piece: Seq<u8>) -> bool {
    piece == seq![0x2eu8]
}

/// The double-dot component, which names the parent directory.
pub open spec fn is_parent_dir(piece: Seq<u8>) -> bool {
    piece == seq![0x2eu8, 0x2eu8]
}

/// The last component of a Unix path, as `Path::file_name` gives it:
/// trailing separators and `.` components are skipped; a path that ends in
/// `..`, or has no other component, has none.
pub open spec fn path_file_name(p: Seq<u8>) -> Option<Seq<u8>>
    decreases p.len(),
{
    if p.len() == 0 {
        None
    } else if p.last() == separator() {
        path_file_name(p.drop_last())
    } else {
        let start = last_separator(p) + 1;
        proof {
            lemma_last_separator_bounds(p);
        }
        let piece = p.subrange(start, p.len() as int);
        if is_cur_dir(piece) {
            path_file_name(p.subrange(0, start))
        } else if is_parent_dir(piece) {
            None
        } else {
            Some(piece)
        }
    }
}

pub proof fn lemma_last_separator_bounds(p: Seq<u8>)
    ensures
        -1 <= last_separator(p) < p.len(),
        p.len() > 0 && p.last() != separator() ==> last_separator(p) < p.len() - 1,
    decreases p.len(),
{
    if p.len() > 0 {
        lemma_last_separator_bounds(p.drop_last());
    }
}

proof fn lemma_last_separator(p: Seq<u8>, s: int)
    requires
        0 <= s <= p.len(),
        s == 0 || p[s - 1] == separator(),
        forall|k: int| s <= k < p.len() ==> p[k] != separator(),
    ensures
        last_separator(p) == s - 1,
    decreases p.len(),
{
    if p.len() > s {
        assert(p.drop_last().len() == p.len() - 1);
        lemma_last_separator(p.drop_last(), s);
    } else if s > 0 {
    }
}

/// Where the file name of a path lies, as a byte range of the path.
pub fn path_file_name_range(p: &[u8]) -> (res: Option<(usize, usize)>)
    ensures
        match res {
            Some((s, e)) => s <= e <= p@.len() && path_file_name(p@) == Some(
                p@.subrange(s as int, e as int),
            ),
            None => path_file_name(p@) is None,
        },
{
    let mut end: usize = p.len();
    assert(p@.subrange(0, end as int) =~= p@);
    loop
        invariant
            end <= p@.len(),
            path_file_name(p@.subrange(0, end as int)) == path_file_name(p@),
        decreases end,
    {
        let ghost q = p@.subrange(0, end as int);
        if end == 0 {
            return None;
        }
        if p[end - 1] == 0x2f {
            assert(q.drop_last() =~= p@.subrange(0, end - 1));
            end = end - 1;
        } else {
            let mut s: usize = end;
            while s > 0 && p[s - 1] != 0x2f
                invariant
                    s <= end <= p@.len(),
                    forall|k: int| s <= k < end ==> p@[k] != separator(),
                decreases s,
            {
                s = s - 1;
            }
            proof {
                lemma_last_separator(q, s as int);
            }
            let is_dot = end - s == 1 && p[s] == 0x2e;
            let is_dot_dot = end - s == 2 && p[s] == 0x2e && p[s + 1] == 0x2e;
            let ghost piece = q.subrange(s as int, end as int);
            assert(piece =~= p@.subrange(s as int, end as int));
            if is_dot {
                assert(piece =~= seq![0x2eu8]);
                assert(q.subrange(0, s as int) =~= p@.subrange(0, s as int));
                end = s;
            } else {
                assert(!is_cur_dir(piece)) by {
                    if is_cur_dir(piece) {
                        assert(piece.len() == 1 && piece[0] == 0x2e);
                    }
                }
                if is_dot_dot {
                    assert(piece =~= seq![0x2eu8, 0x2eu8]);
                    return None;
                }
                assert(!is_parent_dir(piece)) by {
                    if is_parent_dir(piece) {
                        assert(piece.len() == 2 && piece[0] == 0x2e && piece[1] == 0x2e);
                    }
                }
                return Some((s, end));
            }
        }
    }
}

/// The characters that `String::from_utf8_lossy` decodes bytes into.
pub uninterp spec fn utf8_lossy_chars(bytes: Seq<u8>) -> Seq<char>;

/// Decodes bytes with `String::from_utf8_lossy`. Trusted: the result is
/// named `utf8_lossy_chars`; as std documents, valid UTF-8 decodes to the
/// characters it encodes (invalid sequences become U+FFFD, which is not
/// stated here).
#[verifier::external_body]
fn utf8_lossy(bytes: &[u8]) -> (s: String)
    ensures
        s@ == utf8_lossy_chars(bytes@),
        valid_utf8(bytes@) ==> s@ == decode_utf8(bytes@),
{
    String::from_utf8_lossy(bytes).into_owned()
}

/// The file name of a loaded module from the path the loader reports: the
/// empty string for an empty path, else the path's last component decoded
/// lossily as UTF-8. A non-empty path must have a file name.
pub fn get_module_file_name(path: &[u8]) -> (name: String)
    requires
        path@.len() == 0 || path_file_name(path@) is Some,
    ensures
        path@.len() == 0 ==> name@ == Seq::<char>::empty(),
        path@.len() > 0 ==> name@ == utf8_lossy_chars(path_file_name(path@).unwrap()),
        path@.len() > 0 && valid_utf8(path_file_name(path@).unwrap()) ==> name@ == decode_utf8(
            path_file_name(path@).unwrap(),
        ),
{
    if path.len() == 0 {
        return String::new();
    }
    match path_file_name_range(path) {
        Some((s, e)) => utf8_lossy(slice_subrange(path, s, e)),
        None => String::new(),
    }
}

} // verus!
