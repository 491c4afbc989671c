use vstd::prelude::*;
use crate::decimal::{append_dec_i64, dec_int, lemma_dec_nat_digits};

verus! {

/// The index just past the last `'/'` of `p`; `0` when `p` holds none.
/// Everything from this index on is the path's file-name component.
pub open spec fn file_name_start(p: Seq<char>) -> int
    decreases p.len(),
{
    if p.len() == 0 {
        0
    } else if p[p.len() - 1] == '/' {
        p.len() as int
    } else {
        file_name_start(p.drop_last())
    }
}

pub proof fn lemma_file_name_start_bounds(p: Seq<char>)
    ensures
        0 <= file_name_start(p) <= p.len(),
    decreases p.len(),
{
    if p.len() == 0 {
    } else if p[p.len() - 1] == '/' {
    } else {
        lemma_file_name_start_bounds(p.drop_last());
    }
}

/// The directory part of a path: everything up to and including the last `'/'`.
pub open spec fn spec_directory(p: Seq<char>) -> Seq<char> {
    p.subrange(0, file_name_start(p))
}

/// The file-name part of a path: everything after the last `'/'`.
pub open spec fn spec_file_name(p: Seq<char>) -> Seq<char> {
    p.subrange(file_name_start(p), p.len() as int)
}

/// No `'/'` occurs at or after `file_name_start`.
proof fn lemma_no_slash_in_file_name(p: Seq<char>)
    ensures
        forall|i: int| file_name_start(p) <= i < p.len() ==> p[i] != '/',
    decreases p.len(),
{
    if p.len() == 0 {
    } else if p[p.len() - 1] == '/' {
    } else {
        lemma_no_slash_in_file_name(p.drop_last());
        lemma_file_name_start_bounds(p.drop_last());
        assert forall|i: int| file_name_start(p) <= i < p.len() implies p[i] != '/' by {
            if i < p.len() - 1 {
                assert(p.drop_last()[i] == p[i]);
            }
        }
    }
}

/// When `p` ends in a character run free of `'/'`, the file name starts
/// where it started before the run was appended.
proof fn lemma_file_name_start_append(p: Seq<char>, s: Seq<char>)
    requires
        forall|i: int| 0 <= i < s.len() ==> s[i] != '/',
    ensures
        file_name_start(p + s) == file_name_start(p),
    decreases s.len(),
{
    if s.len() == 0 {
        assert(p + s =~= p);
    } else {
        assert((p + s)[(p + s).len() - 1] == s[s.len() - 1]);
        assert((p + s).drop_last() =~= p + s.drop_last());
        lemma_file_name_start_append(p, s.drop_last());
    }
}

/// A nonempty directory part ends with `'/'`.
proof fn lemma_slash_before_file_name(p: Seq<char>)
    ensures
        file_name_start(p) > 0 ==> p[file_name_start(p) - 1] == '/',
    decreases p.len(),
{
    if p.len() == 0 {
    } else if p[p.len() - 1] == '/' {
    } else {
        lemma_slash_before_file_name(p.drop_last());
        if file_name_start(p) > 0 {
            lemma_file_name_start_bounds(p.drop_last());
            assert(p.drop_last()[file_name_start(p) - 1] == p[file_name_start(p) - 1]);
        }
    }
}

/// The renamed path: same directory, and the file name prefixed with the
/// decimal timestamp and one space.
pub open spec fn spec_new_path(p: Seq<char>, ts: int) -> Seq<char> {
    spec_directory(p) + dec_int(ts) + seq![' '] + spec_file_name(p)
}

/// Locate the first character of the path's file-name component.
pub(crate) fn file_name_start_index(path: &str) -> (i: usize)
    ensures
        i == file_name_start(path@),
{
    let len: usize = path.unicode_len();
    let mut i: usize = len;
    proof {
        assert(path@.subrange(0, len as int) =~= path@);
    }
    while i > 0
        invariant
            i <= len,
            len == path@.len(),
            file_name_start(path@) == file_name_start(path@.subrange(0, i as int)),
        decreases i,
    {
        if path.get_char(i - 1) == '/' {
            proof {
                let q = path@.subrange(0, i as int);
                assert(q[q.len() - 1] == '/');
            }
            return i;
        }
        proof {
            let q = path@.subrange(0, i as int);
            assert(q[q.len() - 1] != '/');
            assert(q.drop_last() =~= path@.subrange(0, i - 1));
        }
        i = i - 1;
    }
    proof {
        assert(path@.subrange(0, 0).len() == 0);
    }
    0
}

/// Compute the renamed path: the decimal unix-second count, one space, then
/// the original file name, all in the original directory.  Identical inputs
/// always give the identical path.
pub fn generate_new_path(path: &str, ts: i64) -> (r: String)
    requires
        spec_file_name(path@).len() > 0,
    ensures
        r@ == spec_new_path(path@, ts as int),
{
    proof {
        lemma_file_name_start_bounds(path@);
    }
    let k = file_name_start_index(path);
    let len: usize = path.unicode_len();
    let mut out = String::from_str(path.substring_char(0, k));
    append_dec_i64(&mut out, ts);
    proof {
        reveal_strlit(" ");
        assert(" "@ =~= seq![' ']);
    }
    out.append(" ");
    out.append(path.substring_char(k, len));
    proof {
        assert(out@ =~= spec_new_path(path@, ts as int));
    }
    out
}

/// Path naming keeps the directory and only rewrites the file name: the
/// renamed path's directory equals the original's, and its file name is the
/// decimal timestamp, one space, and the original file name.  Together with
/// `spec_new_path` being a function of its inputs, this pins renaming down
/// deterministically.
pub proof fn lemma_new_path_same_directory(p: Seq<char>, ts: int)
    ensures
        spec_directory(spec_new_path(p, ts)) == spec_directory(p),
        spec_file_name(spec_new_path(p, ts)) == dec_int(ts) + seq![' '] + spec_file_name(p),
{
    let dir = spec_directory(p);
    let body = dec_int(ts) + seq![' '] + spec_file_name(p);
    let n = spec_new_path(p, ts);
    lemma_file_name_start_bounds(p);
    lemma_no_slash_in_file_name(p);
    if ts < 0 {
        lemma_dec_nat_digits((-ts) as nat);
    } else {
        lemma_dec_nat_digits(ts as nat);
    }
    assert(forall|i: int| 0 <= i < dec_int(ts).len() ==> dec_int(ts)[i] != '/');
    assert forall|i: int| 0 <= i < body.len() implies body[i] != '/' by {
        if i < dec_int(ts).len() {
            assert(body[i] == dec_int(ts)[i]);
        } else if i == dec_int(ts).len() {
            assert(body[i] == ' ');
        } else {
            assert(body[i] == spec_file_name(p)[i - dec_int(ts).len() - 1]);
            assert(spec_file_name(p)[i - dec_int(ts).len() - 1]
                == p[file_name_start(p) + i - dec_int(ts).len() - 1]);
        }
    }
    assert(n =~= dir + body);
    lemma_file_name_start_append(dir, body);
    lemma_slash_before_file_name(p);
    if file_name_start(p) > 0 {
        assert(dir[dir.len() - 1] == '/');
    }
    assert(file_name_start(dir) == dir.len());
    assert(file_name_start(n) == dir.len());
    assert(spec_directory(n) =~= dir);
    assert(spec_file_name(n) =~= body);
}

/// What one file's rename comes to: the target path, and whether the
/// filesystem rename is to be performed at all.
pub struct RenamePlan {
    pub new_path: String,
    pub perform_rename: bool,
}

/// Plan the rename of one file.  The rename is performed exactly when
/// dry-run is off; under dry-run only the report line is produced.
pub fn plan_rename(path: &str, ts: i64, dry_run: bool) -> (plan: RenamePlan)
    requires
        spec_file_name(path@).len() > 0,
    ensures
        plan.new_path@ == spec_new_path(path@, ts as int),
        plan.perform_rename == !dry_run,
{
    RenamePlan { new_path: generate_new_path(path, ts), perform_rename: !dry_run }
}

} // verus!
