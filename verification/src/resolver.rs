//! Search-path resolution: splitting the colon-separated search-path
//! variable, building candidate paths, and picking the first candidate
//! that exists and is executable. Probing the filesystem is the
//! caller's task; the selection logic here is verified against the
//! probe results it is handed.

use vstd::prelude::*;
use vstd::string::*;

verus! {

/// Accumulator of colon splitting: the segment being read and the
/// segments already emitted.
pub ghost struct ColonAcc {
    pub cur: Seq<char>,
    pub segs: Seq<Seq<char>>,
}

/// One step of colon splitting: a colon always ends the current
/// segment, so adjacent colons yield empty segments.
pub open spec fn colon_step(acc: ColonAcc, c: char) -> ColonAcc {
    if c == ':' {
        ColonAcc { cur: Seq::empty(), segs: acc.segs.push(acc.cur) }
    } else {
        ColonAcc { cur: acc.cur.push(c), segs: acc.segs }
    }
}

pub open spec fn colon_run(s: Seq<char>) -> ColonAcc
    decreases s.len(),
{
    if s.len() == 0 {
        ColonAcc { cur: Seq::empty(), segs: Seq::empty() }
    } else {
        colon_step(colon_run(s.drop_last()), s.last())
    }
}

/// The colon-separated segments of `s`, in order, empty ones included;
/// an empty input has one empty segment.
pub open spec fn split_colon(s: Seq<char>) -> Seq<Seq<char>> {
    colon_run(s).segs.push(colon_run(s).cur)
}

/// Splits a search-path variable into its directory entries, left to
/// right.
pub fn split_search_path(path_var: &str) -> (entries: Vec<String>)
    ensures
        entries.deep_view() == split_colon(path_var@),
{
    let n = path_var.unicode_len();
    let mut cur = String::new();
    let mut segs: Vec<String> = Vec::new();
    let mut i: usize = 0;
    while i < n
        invariant
            n == path_var@.len(),
            i <= n,
            colon_run(path_var@.take(i as int)).cur == cur@,
            colon_run(path_var@.take(i as int)).segs == segs.deep_view(),
        decreases n - i,
    {
        let c = path_var.get_char(i);
        proof {
            assert(path_var@.take(i as int + 1).drop_last() =~= path_var@.take(i as int));
            assert(path_var@.take(i as int + 1).last() == c);
        }
        let ghost prev = colon_run(path_var@.take(i as int));
        if c == ':' {
            let ghost old_dv = segs.deep_view();
            segs.push(cur);
            cur = String::new();
            proof {
                assert(segs.deep_view() =~= old_dv.push(prev.cur));
            }
        } else {
            crate::text::push_char(&mut cur, c);
        }
        i += 1;
    }
    proof {
        assert(path_var@.take(n as int) =~= path_var@);
    }
    let ghost old_dv = segs.deep_view();
    segs.push(cur);
    proof {
        assert(segs.deep_view() =~= old_dv.push(colon_run(path_var@).cur));
    }
    segs
}

/// The candidate path for command `name` under directory `dir`.
pub open spec fn candidate_spec(dir: Seq<char>, name: Seq<char>) -> Seq<char> {
    dir + seq!['/'] + name
}

/// Builds the candidate path `dir` + `/` + `name`.
pub fn candidate_path(dir: &str, name: &str) -> (r: String)
    ensures
        r@ == candidate_spec(dir@, name@),
{
    let mut r = String::from_str(dir);
    crate::text::push_char(&mut r, '/');
    r.append(name);
    proof {
        assert(dir@.push('/') + name@ =~= candidate_spec(dir@, name@));
    }
    r
}

/// Whether the candidate at position `i` qualifies: it exists as a
/// file and has at least one executable permission bit set.
pub open spec fn qualifies(is_file: Seq<bool>, is_exec: Seq<bool>, i: int) -> bool {
    is_file[i] && is_exec[i]
}

/// The position of the first candidate that exists and is executable:
/// entries earlier on the search path win, and a file that is present
/// but not executable is skipped.
pub fn first_executable(is_file: &Vec<bool>, is_exec: &Vec<bool>) -> (r: Option<usize>)
    requires
        is_file.len() == is_exec.len(),
    ensures
        r matches Some(i) ==> i < is_file.len() && qualifies(is_file@, is_exec@, i as int)
            && forall|j: int| 0 <= j < i ==> !qualifies(is_file@, is_exec@, j),
        r is None ==> forall|j: int|
            0 <= j < is_file.len() ==> !qualifies(is_file@, is_exec@, j),
{
    let mut i: usize = 0;
    while i < is_file.len()
        invariant
            is_file.len() == is_exec.len(),
            i <= is_file.len(),
            forall|j: int| 0 <= j < i ==> !qualifies(is_file@, is_exec@, j),
        decreases is_file.len() - i,
    {
        if is_file[i] && is_exec[i] {
            return Some(i);
        }
        i += 1;
    }
    None
}

/// Resolves command `name` against the search-path directories `dirs`,
/// whose probe results are given positionally: `is_file[i]` and
/// `is_exec[i]` describe the candidate `dirs[i]/name`. Returns the
/// candidate path of the first qualifying entry, or nothing when no
/// entry qualifies.
pub fn resolve_executable(name: &str, dirs: &Vec<String>, is_file: &Vec<bool>, is_exec: &Vec<bool>)
    -> (r: Option<String>)
    requires
        dirs.len() == is_file.len(),
        dirs.len() == is_exec.len(),
    ensures
        r matches Some(p) ==> exists|i: int|
            {
                &&& 0 <= i < dirs.len()
                &&& qualifies(is_file@, is_exec@, i)
                &&& (forall|j: int| 0 <= j < i ==> !qualifies(is_file@, is_exec@, j))
                &&& p@ == candidate_spec(dirs.deep_view()[i], name@)
            },
        r is None ==> forall|j: int| 0 <= j < dirs.len() ==> !qualifies(is_file@, is_exec@, j),
{
    match first_executable(is_file, is_exec) {
        Some(i) => {
            let p = candidate_path(dirs[i].as_str(), name);
            Some(p)
        },
        None => None,
    }
}

} // verus!
