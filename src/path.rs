use vstd::prelude::*;
use vstd::string::*;

use crate::error::PathError;
use crate::text::same_text;

verus! {

/// Index of the last `/` in `p`, or -1 when `p` holds none.
pub open spec fn last_sep(p: Seq<char>) -> int
    decreases p.len(),
{
    if p.len() == 0 {
        -1
    } else if p.last() == '/' {
        p.len() - 1
    } else {
        last_sep(p.drop_last())
    }
}

/// The final component of `p`: what follows its last `/`.
pub open spec fn name_of(p: Seq<char>) -> Seq<char> {
    p.subrange(last_sep(p) + 1, p.len() as int)
}

/// The directory that holds `p`: what precedes its last `/`, the root
/// directory `/` itself for a path directly under it, and the empty path
/// for a path without any `/`.
pub open spec fn parent_of(p: Seq<char>) -> Seq<char> {
    let i = last_sep(p);
    if i < 0 {
        Seq::empty()
    } else if i == 0 {
        seq!['/']
    } else {
        p.subrange(0, i)
    }
}

/// `p` without trailing separators and trailing `.` components, the way
/// `Path::components` reads a path; the root `/` and a lone `.` stay.
pub open spec fn trim_end(p: Seq<char>) -> Seq<char>
    decreases p.len(),
{
    if p.len() > 1 && (p.last() == '/' || (p.last() == '.' && p[p.len() - 2] == '/')) {
        trim_end(p.drop_last())
    } else {
        p
    }
}

/// The last component of `p`, as `Path::file_name` reads it before it
/// rules out `.` and `..`.
pub open spec fn file_name_of(p: Seq<char>) -> Seq<char> {
    name_of(trim_end(p))
}

/// The directory that holds the last component of `p`, as `Path::parent`
/// gives it.
pub open spec fn dir_of(p: Seq<char>) -> Seq<char> {
    trim_end(parent_of(trim_end(p)))
}

/// `p` names a file: its last component is neither empty nor `.` nor `..`.
pub open spec fn has_name(p: Seq<char>) -> bool {
    let n = file_name_of(p);
    n.len() > 0 && n != seq!['.'] && n != seq!['.', '.']
}

/// `p` with one leading separator removed, if it has one.
pub open spec fn strip_leading_sep(p: Seq<char>) -> Seq<char> {
    if p.len() > 0 && p[0] == '/' {
        p.drop_first()
    } else {
        p
    }
}

/// `b` appended to directory `a`, with one separator between them.
pub open spec fn join(a: Seq<char>, b: Seq<char>) -> Seq<char> {
    if a.len() == 0 {
        b
    } else if a.last() == '/' {
        a + b
    } else {
        a + seq!['/'] + b
    }
}

/// The subtree of the repository that holds files of the root directory.
pub open spec fn root_subtree() -> Seq<char> {
    seq!['r', 'o', 'o', 't']
}

/// Where the file at `p` is kept inside the repository at `root`, when
/// `home` is the user's home directory; `None` when `p` names no file.
/// Directories are compared component by component, so trailing
/// separators do not matter.
pub open spec fn repository_path(p: Seq<char>, home: Seq<char>, root: Seq<char>) -> Option<
    Seq<char>,
> {
    if !has_name(p) {
        None
    } else if dir_of(p) == seq!['/'] {
        Some(join(join(root, root_subtree()), file_name_of(p)))
    } else if dir_of(p) == trim_end(home) {
        Some(join(root, file_name_of(p)))
    } else {
        Some(join(join(root, strip_leading_sep(dir_of(p))), file_name_of(p)))
    }
}

/// The subtree of the repository that holds encrypted files.
pub open spec fn secrets_subtree() -> Seq<char> {
    seq!['s', 'e', 'c', 'r', 'e', 't', 's']
}

/// The root under which secret files are mirrored, inside the repository
/// at `dotfiles_directory`.
pub fn secrets_root(dotfiles_directory: &str) -> (r: String)
    ensures
        r@ == join(dotfiles_directory@, secrets_subtree()),
{
    proof {
        reveal_strlit("secrets");
    }
    assert("secrets"@ =~= secrets_subtree());
    join_path(dotfiles_directory, "secrets")
}

/// A normalized absolute path: no empty component (no `//`), no `.`
/// component, and no trailing separator.
pub open spec fn is_clean_absolute(p: Seq<char>) -> bool {
    &&& p.len() > 0
    &&& p[0] == '/'
    &&& forall|i: int| 0 < i < p.len() ==> !(#[trigger] p[i] == '/' && p[i - 1] == '/')
    &&& forall|i: int|
        1 <= i < p.len() && #[trigger] p[i] == '.' && p[i - 1] == '/' ==> i + 1 < p.len() && p[i
            + 1] != '/'
    &&& p.len() > 1 ==> p.last() != '/'
}

/// `trim_end` leaves nothing more to trim.
pub proof fn lemma_trim_end_stable(p: Seq<char>)
    ensures
        trim_end(trim_end(p)) == trim_end(p),
        trim_end(p).len() <= p.len(),
        p.len() > 0 ==> trim_end(p).len() > 0,
        trim_end(p) == p.subrange(0, trim_end(p).len() as int),
    decreases p.len(),
{
    if p.len() > 1 && (p.last() == '/' || (p.last() == '.' && p[p.len() - 2] == '/')) {
        let q = p.drop_last();
        lemma_trim_end_stable(q);
        assert(q.subrange(0, trim_end(q).len() as int) =~= p.subrange(
            0,
            trim_end(q).len() as int,
        ));
    } else {
        assert(p.subrange(0, p.len() as int) =~= p);
    }
}

/// A normalized absolute path, and its parent, are left as they are by
/// `trim_end`.
pub proof fn lemma_clean_trim(p: Seq<char>)
    requires
        is_clean_absolute(p),
    ensures
        trim_end(p) == p,
        trim_end(parent_of(p)) == parent_of(p),
        dir_of(p) == parent_of(p),
        file_name_of(p) == name_of(p),
{
    if p.len() > 1 && p.last() == '.' && p[p.len() - 2] == '/' {
        assert(p[p.len() - 1] == '.');
    }
    lemma_last_sep_facts(p);
    let i = last_sep(p);
    if i >= 2 {
        let q = parent_of(p);
        assert(q == p.subrange(0, i));
        assert(q.last() == p[i - 1]);
        assert(p[i] == '/');
        if p[i - 1] == '.' && p[i - 2] == '/' {
            assert(p[i - 1] == '.');
        }
    }
}

pub proof fn lemma_last_sep_at(p: Seq<char>, k: int)
    requires
        -1 <= k < p.len(),
        k >= 0 ==> p[k] == '/',
        forall|j: int| k < j < p.len() ==> p[j] != '/',
    ensures
        last_sep(p) == k,
    decreases p.len(),
{
    if p.len() > 0 && p.last() != '/' {
        lemma_last_sep_at(p.drop_last(), k);
    }
}

pub proof fn lemma_last_sep_facts(p: Seq<char>)
    ensures
        -1 <= last_sep(p) < p.len(),
        last_sep(p) >= 0 ==> p[last_sep(p)] == '/',
        forall|j: int| last_sep(p) < j < p.len() ==> p[j] != '/',
    decreases p.len(),
{
    if p.len() > 0 && p.last() != '/' {
        let q = p.drop_last();
        lemma_last_sep_facts(q);
        assert forall|j: int| last_sep(p) < j < p.len() implies p[j] != '/' by {
            if j < q.len() {
                assert(p[j] == q[j]);
            }
        }
    }
}

/// Index of the last separator of `p`.
fn find_last_sep(p: &str) -> (r: Option<usize>)
    ensures
        match r {
            Some(i) => i as int == last_sep(p@),
            None => last_sep(p@) == -1,
        },
{
    let n = p.unicode_len();
    let mut i: usize = n;
    while i > 0
        invariant
            i <= n,
            n == p@.len(),
            forall|j: int| i <= j < n ==> p@[j] != '/',
        decreases i,
    {
        if p.get_char(i - 1) == '/' {
            proof {
                lemma_last_sep_at(p@, i - 1);
            }
            return Some(i - 1);
        }
        i = i - 1;
    }
    proof {
        lemma_last_sep_at(p@, -1);
    }
    None
}

/// Appends `b` to directory `a`.
pub fn join_path(a: &str, b: &str) -> (r: String)
    ensures
        r@ == join(a@, b@),
{
    let n = a.unicode_len();
    if n == 0 {
        String::from_str(b)
    } else if a.get_char(n - 1) == '/' {
        String::from_str(a).concat(b)
    } else {
        proof {
            reveal_strlit("/");
        }
        String::from_str(a).concat("/").concat(b)
    }
}

/// The length of `trim_end` of `p`.
pub(crate) fn trimmed_len(p: &str) -> (k: usize)
    ensures
        k <= p@.len(),
        p@.subrange(0, k as int) == trim_end(p@),
{
    let n = p.unicode_len();
    let mut k: usize = n;
    assert(p@.subrange(0, n as int) =~= p@);
    while k > 1 && (p.get_char(k - 1) == '/' || (p.get_char(k - 1) == '.' && p.get_char(k - 2)
        == '/'))
        invariant
            k <= n,
            n == p@.len(),
            trim_end(p@) == trim_end(p@.subrange(0, k as int)),
        decreases k,
    {
        let ghost t = p@.subrange(0, k as int);
        assert(t.last() == p@[k - 1]);
        assert(t[t.len() - 2] == p@[k - 2]);
        assert(t.drop_last() =~= p@.subrange(0, k - 1));
        k = k - 1;
    }
    let ghost t = p@.subrange(0, k as int);
    if k > 1 {
        assert(t.last() == p@[k - 1]);
        assert(t[t.len() - 2] == p@[k - 2]);
    }
    k
}

/// The directory and the last component of `p`, as `Path::parent` and
/// `Path::file_name` read them.
pub(crate) fn split_path(p: &str) -> (r: (String, String))
    ensures
        r.0@ == dir_of(p@),
        r.1@ == file_name_of(p@),
{
    let k = trimmed_len(p);
    let t = p.substring_char(0, k);
    let sep = find_last_sep(t);
    proof {
        lemma_last_sep_facts(t@);
        reveal_strlit("");
        reveal_strlit("/");
    }
    let start: usize = match sep {
        Some(i) => i + 1,
        None => 0,
    };
    let name = t.substring_char(start, k);
    assert(name@ =~= name_of(t@));
    let parent: &str = match sep {
        None => "",
        Some(0) => "/",
        Some(i) => t.substring_char(0, i),
    };
    assert(parent@ =~= parent_of(t@));
    let pk = trimmed_len(parent);
    (String::from_str(parent.substring_char(0, pk)), String::from_str(name))
}

/// Whether a final component names a file.
fn is_file_name(n: &str) -> (r: bool)
    ensures
        r == (n@.len() > 0 && n@ != seq!['.'] && n@ != seq!['.', '.']),
{
    let k = n.unicode_len();
    if k == 0 {
        return false;
    }
    if k == 1 && n.get_char(0) == '.' {
        assert(n@ =~= seq!['.']);
        return false;
    }
    if k == 2 && n.get_char(0) == '.' && n.get_char(1) == '.' {
        assert(n@ =~= seq!['.', '.']);
        return false;
    }
    assert(n@ == seq!['.'] ==> n@[0] == '.' && k == 1);
    assert(n@ == seq!['.', '.'] ==> n@[0] == '.' && n@[1] == '.' && k == 2);
    true
}

/// Whether the final component of `p` names a file.
pub fn names_file(p: &str) -> (r: bool)
    ensures
        r == has_name(p@),
{
    let (_, name) = split_path(p);
    is_file_name(name.as_str())
}

/// Maps the absolute location of a tracked file to its location inside the
/// repository at `dotfiles_directory`: a file of the root directory goes
/// to the `root` subtree, a file directly under `home` to the top of the
/// repository, and any other file to its own directory mirrored under the
/// repository.
pub fn relative_path(path: &str, home: &str, dotfiles_directory: &str) -> (r: Result<String, PathError>)
    ensures
        match repository_path(path@, home@, dotfiles_directory@) {
            Some(q) => r matches Ok(s) && s@ == q,
            None => r matches Err(PathError::FailedRetrievingFileMetadata(e)) && e@ == path@,
        },
{
    let (dir, name) = split_path(path);
    if !is_file_name(name.as_str()) {
        return Err(PathError::FailedRetrievingFileMetadata(String::from_str(path)));
    }
    proof {
        reveal_strlit("/");
        reveal_strlit("root");
    }
    assert("/"@ =~= seq!['/']);
    let hk = trimmed_len(home);
    let home_dir = home.substring_char(0, hk);
    if same_text(dir.as_str(), "/") {
        let base = join_path(dotfiles_directory, "root");
        assert("root"@ =~= root_subtree());
        Ok(join_path(base.as_str(), name.as_str()))
    } else if same_text(dir.as_str(), home_dir) {
        Ok(join_path(dotfiles_directory, name.as_str()))
    } else {
        let k = dir.as_str().unicode_len();
        let inner: &str = if k > 0 && dir.as_str().get_char(0) == '/' {
            dir.as_str().substring_char(1, k)
        } else {
            dir.as_str()
        };
        assert(inner@ =~= strip_leading_sep(dir@));
        let base = join_path(dotfiles_directory, inner);
        Ok(join_path(base.as_str(), name.as_str()))
    }
}

/// `x` holds no separator.
pub open spec fn no_sep(x: Seq<char>) -> bool {
    forall|j: int| 0 <= j < x.len() ==> x[j] != '/'
}

/// A single file name: not empty, not `.` or `..`, and without separator.
pub open spec fn is_file_name_seq(x: Seq<char>) -> bool {
    x.len() > 0 && x != seq!['.'] && x != seq!['.', '.'] && no_sep(x)
}

/// What `join` puts in front of its second argument.
pub open spec fn dir_prefix(a: Seq<char>) -> Seq<char> {
    if a.len() == 0 {
        a
    } else if a.last() == '/' {
        a
    } else {
        a + seq!['/']
    }
}

/// What the mapping puts after the repository root.
pub open spec fn mapped_tail(p: Seq<char>, home: Seq<char>) -> Seq<char> {
    if parent_of(p) == seq!['/'] {
        root_subtree() + seq!['/'] + name_of(p)
    } else if parent_of(p) == trim_end(home) {
        name_of(p)
    } else {
        strip_leading_sep(parent_of(p)) + seq!['/'] + name_of(p)
    }
}

pub proof fn lemma_split_last(a: Seq<char>, b: Seq<char>)
    requires
        no_sep(b),
    ensures
        last_sep(a + seq!['/'] + b) == a.len(),
        name_of(a + seq!['/'] + b) == b,
        (a + seq!['/'] + b).subrange(0, a.len() as int) == a,
{
    let p = a + seq!['/'] + b;
    assert(p[a.len() as int] == '/');
    assert forall|j: int| a.len() < j < p.len() implies p[j] != '/' by {
        assert(p[j] == b[j - a.len() - 1]);
    }
    lemma_last_sep_at(p, a.len() as int);
    assert(name_of(p) =~= b);
    assert(p.subrange(0, a.len() as int) =~= a);
}

pub proof fn lemma_name_no_sep(p: Seq<char>)
    ensures
        no_sep(name_of(p)),
{
    lemma_last_sep_facts(p);
    let n = name_of(p);
    assert forall|j: int| 0 <= j < n.len() implies n[j] != '/' by {
        assert(n[j] == p[last_sep(p) + 1 + j]);
    }
}

proof fn lemma_rebuild(p: Seq<char>)
    requires
        last_sep(p) >= 0,
    ensures
        p == p.subrange(0, last_sep(p)) + seq!['/'] + name_of(p),
{
    lemma_last_sep_facts(p);
    assert(p =~= p.subrange(0, last_sep(p)) + seq!['/'] + name_of(p));
}

pub proof fn lemma_join_prefix(a: Seq<char>, b: Seq<char>)
    ensures
        join(a, b) == dir_prefix(a) + b,
{
    assert(join(a, b) =~= dir_prefix(a) + b);
}

/// For a clean absolute path the mapping is the root's prefix followed by
/// `mapped_tail`.
proof fn lemma_repository_path_shape(p: Seq<char>, home: Seq<char>, root: Seq<char>)
    requires
        is_clean_absolute(p),
        has_name(p),
    ensures
        repository_path(p, home, root) == Some(dir_prefix(root) + mapped_tail(p, home)),
{
    lemma_clean_trim(p);
    lemma_last_sep_facts(p);
    let i = last_sep(p);
    let pre = dir_prefix(root);
    let name = name_of(p);
    if parent_of(p) == seq!['/'] {
        let base = join(root, root_subtree());
        lemma_join_prefix(root, root_subtree());
        assert(base.last() == 't');
        lemma_join_prefix(base, name);
        assert(join(base, name) =~= pre + (root_subtree() + seq!['/'] + name));
    } else if parent_of(p) == trim_end(home) {
        lemma_join_prefix(root, name);
    } else {
        // the path is not directly under `/`, so its last separator is
        // preceded by a non-empty parent that does not end in `/`
        assert(i >= 0) by {
            if i < 0 {
                assert(p[0] == '/');
            }
        }
        assert(i != 0);
        if i == 1 {
            assert(p[1] == '/' && p[0] == '/');
        }
        assert(i >= 2);
        let parent = parent_of(p);
        assert(parent == p.subrange(0, i));
        let s = strip_leading_sep(parent);
        assert(s =~= p.subrange(1, i));
        assert(s.last() == p[i - 1]);
        assert(p[i] == '/');
        assert(p[i - 1] != '/');
        let base = join(root, s);
        lemma_join_prefix(root, s);
        lemma_join_prefix(base, name);
        assert(join(base, name) =~= pre + (s + seq!['/'] + name));
    }
}

/// What precedes the last separator of `mapped_tail` for a file that is
/// not directly under home.
pub open spec fn dir_part(p: Seq<char>) -> Seq<char> {
    if parent_of(p) == seq!['/'] {
        root_subtree()
    } else {
        strip_leading_sep(parent_of(p))
    }
}

/// A file is directly under home, in the sense of the mapping.
pub open spec fn under_home(p: Seq<char>, home: Seq<char>) -> bool {
    parent_of(p) != seq!['/'] && parent_of(p) == trim_end(home)
}

proof fn lemma_tail_facts(p: Seq<char>, home: Seq<char>)
    requires
        is_clean_absolute(p),
        has_name(p),
    ensures
        under_home(p, home) ==> mapped_tail(p, home) == name_of(p) && last_sep(
            mapped_tail(p, home),
        ) == -1,
        !under_home(p, home) ==> last_sep(mapped_tail(p, home)) == dir_part(p).len() && name_of(
            mapped_tail(p, home),
        ) == name_of(p) && mapped_tail(p, home).subrange(0, dir_part(p).len() as int) == dir_part(
            p,
        ),
{
    lemma_name_no_sep(p);
    if under_home(p, home) {
        lemma_last_sep_at(name_of(p), -1);
    } else {
        lemma_split_last(dir_part(p), name_of(p));
    }
}

proof fn lemma_path_rebuilt(p: Seq<char>)
    requires
        is_clean_absolute(p),
    ensures
        parent_of(p) == seq!['/'] ==> p == seq!['/'] + name_of(p),
        parent_of(p) != seq!['/'] ==> p == parent_of(p) + seq!['/'] + name_of(p) && parent_of(p)
            == seq!['/'] + strip_leading_sep(parent_of(p)),
{
    lemma_last_sep_facts(p);
    let i = last_sep(p);
    assert(i >= 0) by {
        if i < 0 {
            assert(p[0] == '/');
        }
    }
    lemma_rebuild(p);
    if parent_of(p) == seq!['/'] {
        if i > 0 {
            assert(p.subrange(0, i)[0] == '/');
            assert(p.subrange(0, i).len() == 1);
            assert(p[1] == '/' && p[0] == '/');
        }
        assert(p.subrange(0, 0) =~= Seq::<char>::empty());
        assert(p =~= seq!['/'] + name_of(p));
    } else {
        assert(i > 0);
        assert(parent_of(p) == p.subrange(0, i));
        assert(parent_of(p) =~= seq!['/'] + strip_leading_sep(parent_of(p)));
    }
}

/// Distinct normalized absolute paths are kept at distinct places in the
/// repository. The one collision that the layout itself makes is left
/// out: `/x` and `/root/x`, when `/root` is not the home directory.
pub proof fn lemma_repository_path_injective(
    pa: Seq<char>,
    pb: Seq<char>,
    home: Seq<char>,
    root: Seq<char>,
)
    requires
        is_clean_absolute(pa),
        is_clean_absolute(pb),
        repository_path(pa, home, root) is Some,
        repository_path(pa, home, root) == repository_path(pb, home, root),
        !(parent_of(pa) == seq!['/'] && parent_of(pb) == seq!['/'] + root_subtree()
            && !under_home(pb, home) && name_of(pa) == name_of(pb)),
        !(parent_of(pb) == seq!['/'] && parent_of(pa) == seq!['/'] + root_subtree()
            && !under_home(pa, home) && name_of(pa) == name_of(pb)),
    ensures
        pa == pb,
{
    let pre = dir_prefix(root);
    lemma_repository_path_shape(pa, home, root);
    lemma_repository_path_shape(pb, home, root);
    let t1 = mapped_tail(pa, home);
    let t2 = mapped_tail(pb, home);
    assert(t1 =~= (pre + t1).subrange(pre.len() as int, (pre + t1).len() as int));
    assert(t2 =~= (pre + t2).subrange(pre.len() as int, (pre + t2).len() as int));
    assert(t1 == t2);
    lemma_tail_facts(pa, home);
    lemma_tail_facts(pb, home);
    lemma_path_rebuilt(pa);
    lemma_path_rebuilt(pb);
    assert(under_home(pa, home) == under_home(pb, home));
    assert(name_of(pa) == name_of(pb));
    if !under_home(pa, home) {
        assert(dir_part(pa) == dir_part(pb));
        if parent_of(pa) == seq!['/'] && parent_of(pb) != seq!['/'] {
            assert(parent_of(pb) =~= seq!['/'] + root_subtree());
        }
        if parent_of(pb) == seq!['/'] && parent_of(pa) != seq!['/'] {
            assert(parent_of(pa) =~= seq!['/'] + root_subtree());
        }
    }
}

/// What follows the repository root in a path inside the repository.
pub open spec fn repository_tail(q: Seq<char>, root: Seq<char>) -> Seq<char> {
    q.subrange(dir_prefix(root).len() as int, q.len() as int)
}

/// The path that a repository tail stands for: a single name lies directly
/// under home, `root/x` is `/x`, and anything else is its mirrored path.
pub open spec fn unmapped(t: Seq<char>, home: Seq<char>) -> Seq<char> {
    if last_sep(t) < 0 {
        join(trim_end(home), t)
    } else if t.subrange(0, last_sep(t)) == root_subtree() {
        seq!['/'] + name_of(t)
    } else {
        seq!['/'] + t
    }
}

/// Mapping back recovers the path: stripping the repository root from where
/// a normalized absolute path is kept, and undoing the root-level and
/// home-level placement, gives the path again. Left out is the one place
/// where the layout collides, a file directly under `/root` when that is
/// not the home directory.
pub proof fn lemma_repository_path_round_trip(p: Seq<char>, home: Seq<char>, root: Seq<char>)
    requires
        is_clean_absolute(p),
        has_name(p),
        !(parent_of(p) == seq!['/'] + root_subtree() && !under_home(p, home)),
    ensures
        repository_path(p, home, root) is Some,
        unmapped(repository_tail(repository_path(p, home, root).unwrap(), root), home) == p,
{
    let pre = dir_prefix(root);
    lemma_repository_path_shape(p, home, root);
    let t = mapped_tail(p, home);
    assert(repository_tail(pre + t, root) =~= t);
    lemma_tail_facts(p, home);
    lemma_path_rebuilt(p);
    lemma_clean_trim(p);
    let parent = parent_of(p);
    if under_home(p, home) {
        assert(parent.len() >= 2) by {
            if parent.len() == 1 {
                assert(parent[0] == '/');
                assert(parent =~= seq!['/']);
            }
            if parent.len() == 0 {
                lemma_last_sep_facts(p);
            }
        }
        assert(parent.last() != '/') by {
            lemma_trim_end_stable(parent.drop_last());
            if parent.last() == '/' {
                assert(trim_end(parent) == trim_end(parent.drop_last()));
            }
        }
        assert(join(trim_end(home), t) =~= p);
    } else if parent == seq!['/'] {
        assert(t.subrange(0, 4) =~= root_subtree());
    } else {
        let d = strip_leading_sep(parent);
        assert(t.subrange(0, d.len() as int) == d);
        assert(d != root_subtree()) by {
            if d == root_subtree() {
                assert(parent =~= seq!['/'] + root_subtree());
            }
        }
        assert(seq!['/'] + t =~= parent + seq!['/'] + name_of(p));
    }
}

/// A name without separator, joined to a directory that `trim_end` leaves
/// alone, is the last component of the result, and that directory its
/// parent.
pub proof fn lemma_join_name(d: Seq<char>, n: Seq<char>)
    requires
        trim_end(d) == d,
        no_sep(n),
        n.len() > 0,
        n.last() != '/' && n.last() != '.',
    ensures
        file_name_of(join(d, n)) == n,
        dir_of(join(d, n)) == d,
{
    let q = join(d, n);
    assert(q.last() == n.last());
    assert(trim_end(q) == q);
    if d.len() == 0 {
        lemma_last_sep_at(n, -1);
        assert(name_of(n) =~= n);
    } else if d.last() == '/' {
        if d.len() > 1 {
            lemma_trim_end_stable(d.drop_last());
            assert(trim_end(d) == trim_end(d.drop_last()));
        }
        assert(d =~= seq!['/']);
        lemma_split_last(Seq::empty(), n);
        assert(Seq::<char>::empty() + seq!['/'] + n =~= q);
    } else {
        lemma_split_last(d, n);
        assert(trim_end(d) == d);
    }
}

proof fn lemma_append_name(a: Seq<char>, x: Seq<char>)
    requires
        is_file_name_seq(x),
    ensures
        trim_end(a + seq!['/'] + x) == a + seq!['/'] + x,
        file_name_of(a + seq!['/'] + x) == x,
        has_name(a + seq!['/'] + x),
        parent_of(a + seq!['/'] + x) == if a.len() == 0 {
            seq!['/']
        } else {
            a
        },
{
    let p = a + seq!['/'] + x;
    assert(p.last() == x.last());
    assert(x.last() == x[x.len() - 1]);
    if x.last() == '.' {
        if x.len() == 1 {
            assert(x =~= seq!['.']);
        } else {
            assert(p[p.len() - 2] == x[x.len() - 2]);
        }
    }
    lemma_split_last(a, x);
    if a.len() > 0 {
        assert(p.subrange(0, a.len() as int) == a);
    }
}

/// A file directly under the home directory is kept at the top of the
/// repository, under its own name, however the home directory is written.
pub proof fn lemma_home_file_at_top(home: Seq<char>, x: Seq<char>, root: Seq<char>)
    requires
        trim_end(home).len() > 0,
        trim_end(home) != seq!['/'],
        is_file_name_seq(x),
    ensures
        repository_path(trim_end(home) + seq!['/'] + x, home, root) == Some(join(root, x)),
{
    lemma_append_name(trim_end(home), x);
    lemma_trim_end_stable(home);
}

/// A file of the root directory, `/x`, is kept at `root/root/x`.
pub proof fn lemma_root_file_in_subtree(x: Seq<char>, home: Seq<char>, root: Seq<char>)
    requires
        is_file_name_seq(x),
    ensures
        repository_path(seq!['/'] + x, home, root) == Some(
            join(join(root, root_subtree()), x),
        ),
{
    lemma_append_name(Seq::empty(), x);
    assert(Seq::<char>::empty() + seq!['/'] + x =~= seq!['/'] + x);
    assert(trim_end(seq!['/']) == seq!['/']);
}

/// Any other file, `/d/x` with `/d` neither `/` nor the home directory, is
/// kept at `root/d/x`: its whole directory is mirrored in the repository.
pub proof fn lemma_nested_file_mirrored(d: Seq<char>, x: Seq<char>, home: Seq<char>, root: Seq<char>)
    requires
        d.len() > 0,
        is_clean_absolute(seq!['/'] + d),
        seq!['/'] + d != trim_end(home),
        is_file_name_seq(x),
    ensures
        repository_path(seq!['/'] + d + seq!['/'] + x, home, root) == Some(
            join(join(root, d), x),
        ),
{
    let parent = seq!['/'] + d;
    lemma_append_name(parent, x);
    lemma_clean_trim(parent);
    assert(parent != seq!['/']) by {
        assert(parent.len() > 1);
    }
    assert(strip_leading_sep(parent) =~= d);
}

} // verus!
