use vstd::prelude::*;
use crate::ascii::{eq_ignore_case, str_eq_ignore_case};
use crate::errors::RenameError;
use crate::paths::{file_name_start, lemma_file_name_start_bounds, spec_file_name};

verus! {

/// The two container formats a file can be dispatched to.
#[derive(Clone, Copy, Debug, PartialEq, Eq, Structural)]
pub enum ContainerKind {
    Matroska,
    Mp4,
}

/// The index of the last `'.'` of a file name, or `-1` when there is none.
pub open spec fn last_dot(f: Seq<char>) -> int
    decreases f.len(),
{
    if f.len() == 0 {
        -1int
    } else if f[f.len() - 1] == '.' {
        f.len() - 1
    } else {
        last_dot(f.drop_last())
    }
}

proof fn lemma_last_dot_bounds(f: Seq<char>)
    ensures
        -1 <= last_dot(f) < f.len(),
    decreases f.len(),
{
    if f.len() == 0 {
    } else if f[f.len() - 1] == '.' {
    } else {
        lemma_last_dot_bounds(f.drop_last());
    }
}

/// The extension of a path: what follows the last `'.'` of the file name,
/// provided that dot is neither absent nor the file name's first character.
pub open spec fn spec_extension(p: Seq<char>) -> Option<Seq<char>> {
    let f = spec_file_name(p);
    if last_dot(f) > 0 {
        Some(f.subrange(last_dot(f) + 1, f.len() as int))
    } else {
        None
    }
}

/// The dispatch table: `mkv` names Matroska; `mov`, `mp4` and `m4v` name
/// ISO-BMFF.  The match is case-insensitive and looks at nothing but the
/// extension.
pub open spec fn spec_container_kind(p: Seq<char>) -> Option<ContainerKind> {
    match spec_extension(p) {
        Option::None => None,
        Option::Some(e) => if eq_ignore_case(e, "mkv"@) {
            Some(ContainerKind::Matroska)
        } else if eq_ignore_case(e, "mov"@) || eq_ignore_case(e, "mp4"@) || eq_ignore_case(
            e,
            "m4v"@,
        ) {
            Some(ContainerKind::Mp4)
        } else {
            None
        },
    }
}

/// The extension of the path's file name, if any.
fn extension_of(path: &str) -> (r: Option<&str>)
    ensures
        spec_extension(path@) matches Some(e) ==> r matches Some(s) && s@ == e,
        spec_extension(path@) is None ==> r is None,
{
    let len: usize = path.unicode_len();
    let k = crate::paths::file_name_start_index(path);
    let ghost f = spec_file_name(path@);
    proof {
        lemma_file_name_start_bounds(path@);
        assert(f.subrange(0, (len - k) as int) =~= f);
    }
    let mut i: usize = len;
    while i > k
        invariant
            k <= i <= len,
            k == file_name_start(path@),
            len == path@.len(),
            f == spec_file_name(path@),
            last_dot(f) == last_dot(f.subrange(0, i - k)),
        decreases i,
    {
        proof {
            let q = f.subrange(0, i - k);
            assert(q[q.len() - 1] == path@[i - 1]);
            assert(q.drop_last() =~= f.subrange(0, i - 1 - k));
        }
        if path.get_char(i - 1) == '.' {
            proof {
                assert(last_dot(f) == i - 1 - k);
            }
            if i - 1 > k {
                proof {
                    assert(f.subrange(last_dot(f) + 1, f.len() as int) =~= path@.subrange(
                        i as int,
                        len as int,
                    ));
                }
                return Some(path.substring_char(i, len));
            } else {
                return None;
            }
        }
        i = i - 1;
    }
    proof {
        assert(f.subrange(0, 0).len() == 0);
    }
    None
}

/// Choose the container format from the file's extension alone; any other
/// extension, or none, is an unrecognized container type.
pub fn container_kind(path: &str) -> (r: Result<ContainerKind, RenameError>)
    ensures
        spec_container_kind(path@) matches Some(k) ==> r == Ok::<ContainerKind, RenameError>(k),
        spec_container_kind(path@) is None ==> r == Err::<ContainerKind, RenameError>(
            RenameError::UnrecognizedContainerType,
        ),
{
    match extension_of(path) {
        Option::None => Err(RenameError::UnrecognizedContainerType),
        Option::Some(e) => {
            if str_eq_ignore_case(e, "mkv") {
                Ok(ContainerKind::Matroska)
            } else if str_eq_ignore_case(e, "mov") || str_eq_ignore_case(e, "mp4")
                || str_eq_ignore_case(e, "m4v") {
                Ok(ContainerKind::Mp4)
            } else {
                Err(RenameError::UnrecognizedContainerType)
            }
        },
    }
}

} // verus!
