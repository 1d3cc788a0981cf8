//! The on-disk addressing scheme of the repository cache:
//! `<root>/models--<org>--<name>/refs/<revision>` holds a snapshot hash, and
//! `<root>/models--<org>--<name>/snapshots/<hash>/build/<variant>` holds the
//! build output. Paths are `/`-separated strings.

use crate::error::CompliantError;
use crate::text::{push_char, trim_str, trimmed_of, views};
use vstd::prelude::*;
use vstd::string::*;

verus! {

/// The prefix of a model repository's directory name.
pub open spec fn models_prefix() -> Seq<char> {
    seq!['m', 'o', 'd', 'e', 'l', 's', '-', '-']
}

/// `s` with each `/` written as `--`.
pub open spec fn slashes_to_dashes(s: Seq<char>) -> Seq<char>
    decreases s.len(),
{
    if s.len() == 0 {
        s
    } else if s[0] == '/' {
        seq!['-', '-'] + slashes_to_dashes(s.skip(1))
    } else {
        seq![s[0]] + slashes_to_dashes(s.skip(1))
    }
}

/// `s` with each `--`, taken from left to right without overlap, written as `/`.
pub open spec fn dashes_to_slashes(s: Seq<char>) -> Seq<char>
    decreases s.len(),
{
    if s.len() < 2 {
        s
    } else if s[0] == '-' && s[1] == '-' {
        seq!['/'] + dashes_to_slashes(s.skip(2))
    } else {
        seq![s[0]] + dashes_to_slashes(s.skip(1))
    }
}

/// The cache directory name of a model repository.
pub open spec fn folder_name_of(repo_id: Seq<char>) -> Seq<char> {
    models_prefix() + slashes_to_dashes(repo_id)
}

/// The repository id that a cache directory name stands for: the name
/// without its `models--` prefix, if it has one, with `--` read as `/`.
pub open spec fn repo_id_of(dir_name: Seq<char>) -> Seq<char> {
    if dir_name.len() >= 8 && dir_name.take(8) == models_prefix() {
        dashes_to_slashes(dir_name.skip(8))
    } else {
        dashes_to_slashes(dir_name)
    }
}

/// The index just after the last `c` of `s`, or 0 where there is none.
pub open spec fn after_last(s: Seq<char>, c: char) -> nat
    decreases s.len(),
{
    if s.len() == 0 {
        0
    } else if s.last() == c {
        s.len()
    } else {
        after_last(s.drop_last(), c)
    }
}

/// The final component of a path: trailing `/` and `.` components are
/// passed over, and a path that ends in `..` or has no component has none.
pub open spec fn file_name_of(s: Seq<char>) -> Option<Seq<char>>
    decreases s.len(),
{
    if s.len() == 0 {
        None
    } else if s.last() == '/' {
        file_name_of(s.drop_last())
    } else {
        let k = after_last(s, '/');
        let seg = s.subrange(k as int, s.len() as int);
        if seg == seq!['.'] {
            if k < s.len() {
                file_name_of(s.subrange(0, k as int))
            } else {
                None
            }
        } else if seg == seq!['.', '.'] {
            None
        } else {
            Some(seg)
        }
    }
}

/// `b` appended to the path `a`: an absolute `b` replaces `a`, and a `/` is
/// put between the two where `a` is not empty and does not end in one.
pub open spec fn join_path(a: Seq<char>, b: Seq<char>) -> Seq<char> {
    if b.len() > 0 && b[0] == '/' {
        b
    } else if a.len() == 0 {
        b
    } else if a.last() == '/' {
        a + b
    } else {
        a + seq!['/'] + b
    }
}

proof fn lemma_after_last_bound(s: Seq<char>, c: char)
    ensures
        after_last(s, c) <= s.len(),
        after_last(s, c) > 0 ==> s[after_last(s, c) - 1] == c,
        forall|i: int| after_last(s, c) <= i < s.len() ==> s[i] != c,
    decreases s.len(),
{
    if s.len() > 0 && s.last() != c {
        let t = s.drop_last();
        lemma_after_last_bound(t, c);
        assert forall|i: int| after_last(s, c) <= i < s.len() implies s[i] != c by {
            if i < t.len() {
                assert(t[i] == s[i]);
            }
        }
    }
}

/// The cache directory name of a model repository: `models--` followed by
/// the id with each `/` written as `--`.
pub fn folder_name(repo_id: &str) -> (r: String)
    ensures
        r@ == folder_name_of(repo_id@),
{
    let prefix = "models--";
    proof {
        reveal_strlit("models--");
        assert(prefix@ =~= models_prefix());
    }
    let mut r = String::from_str(prefix);
    let n = repo_id.unicode_len();
    let mut i: usize = 0;
    proof {
        assert(repo_id@.skip(0) =~= repo_id@);
    }
    while i < n
        invariant
            n == repo_id@.len(),
            i <= n,
            r@ + slashes_to_dashes(repo_id@.skip(i as int)) == folder_name_of(repo_id@),
        decreases n - i,
    {
        let c = repo_id.get_char(i);
        let ghost rest = repo_id@.skip(i as int);
        let ghost r0 = r@;
        proof {
            assert(rest.skip(1) =~= repo_id@.skip(i + 1));
            assert(rest[0] == c);
        }
        if c == '/' {
            push_char(&mut r, '-');
            push_char(&mut r, '-');
            proof {
                assert(r@ + slashes_to_dashes(repo_id@.skip(i + 1)) =~= r0 + slashes_to_dashes(
                    rest,
                ));
            }
        } else {
            push_char(&mut r, c);
            proof {
                assert(r@ + slashes_to_dashes(repo_id@.skip(i + 1)) =~= r0 + slashes_to_dashes(
                    rest,
                ));
            }
        }
        i = i + 1;
    }
    proof {
        assert(repo_id@.skip(n as int) =~= Seq::<char>::empty());
        assert(r@ + Seq::<char>::empty() =~= r@);
    }
    r
}

/// The directory of a repository under the cache root.
pub fn get_repo_path(repo_id: &str, base_dir: &str) -> (r: String)
    ensures
        r@ == join_path(base_dir@, folder_name_of(repo_id@)),
{
    let folder = folder_name(repo_id);
    join(base_dir, folder.as_str())
}

/// `b` appended to the path `a` (see `join_path`).
pub fn join(a: &str, b: &str) -> (r: String)
    ensures
        r@ == join_path(a@, b@),
{
    let na = a.unicode_len();
    let nb = b.unicode_len();
    if nb > 0 && b.get_char(0) == '/' {
        String::from_str(b)
    } else if na == 0 {
        String::from_str(b)
    } else if a.get_char(na - 1) == '/' {
        let mut r = String::from_str(a);
        r.append(b);
        r
    } else {
        let mut r = String::from_str(a);
        push_char(&mut r, '/');
        r.append(b);
        r
    }
}

/// The final component of a `/`-separated path, as `Path::file_name`
/// finds it.
pub fn file_name(path: &str) -> (r: Option<String>)
    ensures
        r is None <==> file_name_of(path@) is None,
        r matches Some(x) ==> file_name_of(path@) == Some(x@),
{
    let n = path.unicode_len();
    let mut end: usize = n;
    proof {
        assert(path@.take(n as int) =~= path@);
    }
    loop
        invariant
            n == path@.len(),
            end <= n,
            file_name_of(path@.take(end as int)) == file_name_of(path@),
        decreases end,
    {
        if end == 0 {
            return None;
        }
        let ghost t = path@.take(end as int);
        proof {
            assert(t.drop_last() =~= path@.take(end - 1));
            assert(t.last() == path@[end - 1]);
        }
        let c = path.get_char(end - 1);
        if c == '/' {
            end = end - 1;
        } else {
            let mut k: usize = end;
            loop
                invariant
                    n == path@.len(),
                    0 < end <= n,
                    k <= end,
                    t == path@.take(end as int),
                    after_last(path@.take(k as int), '/') == after_last(t, '/'),
                    forall|i: int| k <= i < end ==> path@[i] != '/',
                ensures
                    k <= end,
                    after_last(path@.take(k as int), '/') == after_last(t, '/'),
                    k == 0 || path@[k - 1] == '/',
                decreases k,
            {
                if k == 0 {
                    break;
                }
                if path.get_char(k - 1) == '/' {
                    proof {
                        assert(path@.take(k as int).last() == '/');
                    }
                    break;
                }
                proof {
                    assert(path@.take(k as int).drop_last() =~= path@.take(k - 1));
                    assert(path@.take(k as int).last() == path@[k - 1]);
                }
                k = k - 1;
            }
            proof {
                if k == 0 {
                    assert(path@.take(0) =~= Seq::<char>::empty());
                } else {
                    assert(path@.take(k as int).last() == path@[k - 1]);
                }
                assert(after_last(t, '/') == k);
                assert(t.subrange(k as int, end as int) =~= path@.subrange(k as int, end as int));
                assert(t.subrange(0, k as int) =~= path@.take(k as int));
            }
            let seg = path.substring_char(k, end);
            let len = end - k;
            if len == 1 && path.get_char(k) == '.' {
                proof {
                    assert(seg@ =~= seq!['.']);
                }
                end = k;
            } else if len == 2 && path.get_char(k) == '.' && path.get_char(k + 1) == '.' {
                proof {
                    assert(seg@ =~= seq!['.', '.']);
                }
                return None;
            } else {
                proof {
                    if seg@ == seq!['.'] {
                        assert(seg@[0] == path@[k as int]);
                    }
                    if seg@ == seq!['.', '.'] {
                        assert(seg@[0] == path@[k as int]);
                        assert(seg@[1] == path@[k + 1]);
                    }
                }
                return Some(String::from_str(seg));
            }
        }
    }
}

fn has_models_prefix(name: &str) -> (r: bool)
    ensures
        r == (name@.len() >= 8 && name@.take(8) == models_prefix()),
{
    let n = name.unicode_len();
    if n < 8 {
        return false;
    }
    let prefix = "models--";
    proof {
        reveal_strlit("models--");
        assert(prefix@ =~= models_prefix());
    }
    let mut j: usize = 0;
    while j < 8
        invariant
            n == name@.len(),
            n >= 8,
            prefix@ == models_prefix(),
            j <= 8,
            forall|i: int| 0 <= i < j ==> name@[i] == models_prefix()[i],
        decreases 8 - j,
    {
        if name.get_char(j) != prefix.get_char(j) {
            proof {
                assert(name@.take(8)[j as int] != models_prefix()[j as int]);
            }
            return false;
        }
        j = j + 1;
    }
    proof {
        assert(name@.take(8) =~= models_prefix());
    }
    true
}

/// The repository id that a cache directory name stands for: the
/// `models--` prefix, if present, is dropped and each `--` becomes `/`.
pub fn repo_id_from_name(name: &str) -> (r: String)
    ensures
        r@ == repo_id_of(name@),
{
    let n = name.unicode_len();
    let start: usize = if has_models_prefix(name) {
        8
    } else {
        0
    };
    let mut r = String::new();
    let mut i: usize = start;
    proof {
        assert(r@ + dashes_to_slashes(name@.skip(start as int)) =~= dashes_to_slashes(
            name@.skip(start as int),
        ));
    }
    while i < n
        invariant
            n == name@.len(),
            start <= i <= n,
            r@ + dashes_to_slashes(name@.skip(i as int)) == dashes_to_slashes(
                name@.skip(start as int),
            ),
        decreases n - i,
    {
        let ghost rest = name@.skip(i as int);
        let ghost r0 = r@;
        let c = name.get_char(i);
        proof {
            assert(rest[0] == c);
            assert(rest.skip(1) =~= name@.skip(i + 1));
        }
        if i + 1 < n && c == '-' && name.get_char(i + 1) == '-' {
            push_char(&mut r, '/');
            proof {
                assert(rest[1] == '-');
                assert(rest.skip(2) =~= name@.skip(i + 2));
                assert(r@ + dashes_to_slashes(name@.skip(i + 2)) =~= r0 + dashes_to_slashes(rest));
            }
            i = i + 2;
        } else {
            push_char(&mut r, c);
            proof {
                if rest.len() < 2 {
                    assert(name@.skip(i + 1) =~= Seq::<char>::empty());
                    assert(rest =~= seq![c]);
                } else {
                    assert(rest[1] == name@[i + 1]);
                }
                assert(r@ + dashes_to_slashes(name@.skip(i + 1)) =~= r0 + dashes_to_slashes(rest));
            }
            i = i + 1;
        }
    }
    proof {
        assert(name@.skip(n as int) =~= Seq::<char>::empty());
        assert(r@ + Seq::<char>::empty() =~= r@);
        assert(name@.skip(0) =~= name@);
    }
    r
}

/// The `org/name` repository id of a cache directory, from the directory's
/// final path component; a path without one is refused.
pub fn get_repo_id_from_path(path: &str) -> (r: Result<String, CompliantError>)
    ensures
        r is Err <==> file_name_of(path@) is None,
        r matches Err(e) ==> e matches CompliantError::Other(m) && m@ == "Invalid path: "@
            + path@,
        r matches Ok(id) ==> id@ == repo_id_of(file_name_of(path@)->Some_0),
{
    match file_name(path) {
        None => {
            let mut m = String::from_str("Invalid path: ");
            m.append(path);
            Err(CompliantError::Other(m))
        },
        Some(dir_name) => Ok(repo_id_from_name(dir_name.as_str())),
    }
}

/// No two neighbouring characters of `s` are both `-`.
pub open spec fn no_double_dash(s: Seq<char>) -> bool {
    forall|i: int| 0 <= i < s.len() - 1 ==> !(#[trigger] s[i] == '-' && s[i + 1] == '-')
}

/// `s` holds no `/`.
pub open spec fn slash_free(s: Seq<char>) -> bool {
    forall|i: int| 0 <= i < s.len() ==> s[i] != '/'
}

/// No `-` is followed by another `-` or by a `/`.
spec fn separable(x: Seq<char>) -> bool {
    forall|i: int|
        0 <= i < x.len() - 1 ==> !(#[trigger] x[i] == '-' && (x[i + 1] == '-' || x[i + 1] == '/'))
}

proof fn lemma_slashes_to_dashes_head(y: Seq<char>)
    ensures
        slashes_to_dashes(y).len() >= y.len(),
        slash_free(slashes_to_dashes(y)),
        y.len() > 0 ==> slashes_to_dashes(y)[0] == (if y[0] == '/' {
            '-'
        } else {
            y[0]
        }),
    decreases y.len(),
{
    if y.len() > 0 {
        lemma_slashes_to_dashes_head(y.skip(1));
        let r = slashes_to_dashes(y.skip(1));
        let head = if y[0] == '/' {
            seq!['-', '-']
        } else {
            seq![y[0]]
        };
        assert(slashes_to_dashes(y) == head + r);
        assert forall|i: int| 0 <= i < (head + r).len() implies (head + r)[i] != '/' by {
            if i >= head.len() {
                assert((head + r)[i] == r[i - head.len()]);
            }
        }
    }
}

proof fn lemma_dashes_undo_slashes(x: Seq<char>)
    requires
        separable(x),
    ensures
        dashes_to_slashes(slashes_to_dashes(x)) == x,
    decreases x.len(),
{
    if x.len() > 0 {
        let x1 = x.skip(1);
        assert(separable(x1)) by {
            assert forall|i: int| 0 <= i < x1.len() - 1 implies !(#[trigger] x1[i] == '-' && (x1[i
                + 1] == '-' || x1[i + 1] == '/')) by {
                assert(x1[i] == x[i + 1] && x1[i + 1] == x[i + 2]);
            }
        }
        lemma_dashes_undo_slashes(x1);
        lemma_slashes_to_dashes_head(x1);
        let r = slashes_to_dashes(x1);
        if x[0] == '/' {
            let sx = seq!['-', '-'] + r;
            assert(sx.skip(2) =~= r);
            assert(dashes_to_slashes(sx) == seq!['/'] + dashes_to_slashes(r));
            assert(seq!['/'] + x1 =~= x);
        } else {
            let sx = seq![x[0]] + r;
            if r.len() == 0 {
                assert(x1.len() == 0);
                assert(sx =~= x);
            } else {
                assert(sx[1] == r[0]);
                if x[0] == '-' {
                    assert(x[1] == x1[0]);
                    assert(r[0] != '-');
                }
                assert(sx.skip(1) =~= r);
                assert(dashes_to_slashes(sx) == seq![x[0]] + dashes_to_slashes(r));
                assert(seq![x[0]] + x1 =~= x);
            }
        }
    }
}

proof fn lemma_file_name_of_plain(s: Seq<char>)
    requires
        s.len() > 2,
        slash_free(s),
    ensures
        file_name_of(s) == Some(s),
{
    lemma_after_last_bound(s, '/');
    let k = after_last(s, '/');
    if k > 0 {
        assert(s[k - 1] == '/');
    }
    assert(k == 0);
    assert(s.subrange(0, s.len() as int) =~= s);
}

proof fn lemma_after_last_plain_suffix(p: Seq<char>, f: Seq<char>)
    requires
        p.len() == 0 || p.last() == '/',
        slash_free(f),
    ensures
        after_last(p + f, '/') == p.len(),
    decreases f.len(),
{
    if f.len() == 0 {
        assert(p + f =~= p);
    } else {
        assert((p + f).drop_last() =~= p + f.drop_last());
        assert((p + f).last() == f.last());
        lemma_after_last_plain_suffix(p, f.drop_last());
    }
}

/// A plain name joined onto any directory is that path's final component.
proof fn lemma_file_name_of_join(base: Seq<char>, f: Seq<char>)
    requires
        f.len() > 2,
        slash_free(f),
    ensures
        file_name_of(join_path(base, f)) == Some(f),
{
    let p = if base.len() == 0 {
        base
    } else if base.last() == '/' {
        base
    } else {
        base + seq!['/']
    };
    assert(f[0] != '/');
    assert(join_path(base, f) =~= p + f);
    lemma_after_last_plain_suffix(p, f);
    let s = p + f;
    assert(s.last() == f.last());
    assert(s.subrange(p.len() as int, s.len() as int) =~= f);
}

/// The directory name of a repository `org/name` leads back to `org/name`:
/// it is the final component of its own path, and of its path under any
/// cache root, and reading it as a repository id gives `org/name` again.
/// Neither part may hold `/` or `--`, and the organisation may not end in
/// `-`.
pub proof fn lemma_folder_name_inverse(org: Seq<char>, name: Seq<char>, root: Seq<char>)
    requires
        slash_free(org),
        slash_free(name),
        no_double_dash(org),
        no_double_dash(name),
        org.len() > 0 ==> org.last() != '-',
    ensures
        file_name_of(folder_name_of(org + seq!['/'] + name)) == Some(
            folder_name_of(org + seq!['/'] + name),
        ),
        file_name_of(join_path(root, folder_name_of(org + seq!['/'] + name))) == Some(
            folder_name_of(org + seq!['/'] + name),
        ),
        repo_id_of(folder_name_of(org + seq!['/'] + name)) == org + seq!['/'] + name,
{
    let x = org + seq!['/'] + name;
    let n = org.len() as int;
    assert(x[n] == '/');
    assert forall|i: int| 0 <= i < x.len() - 1 implies !(#[trigger] x[i] == '-' && (x[i + 1]
        == '-' || x[i + 1] == '/')) by {
        if i + 1 < n {
            assert(x[i] == org[i] && x[i + 1] == org[i + 1]);
        } else if i + 1 == n {
            assert(x[i] == org[i]);
        } else if i == n {
            assert(x[i + 1] == name[0]);
        } else {
            assert(x[i] == name[i - n - 1] && x[i + 1] == name[i - n]);
        }
    }
    lemma_dashes_undo_slashes(x);
    lemma_slashes_to_dashes_head(x);
    let f = folder_name_of(x);
    let d = slashes_to_dashes(x);
    assert(f.take(8) =~= models_prefix());
    assert(f.skip(8) =~= d);
    assert forall|i: int| 0 <= i < f.len() implies f[i] != '/' by {
        if i >= 8 {
            assert(f[i] == d[i - 8]);
        }
    }
    lemma_file_name_of_plain(f);
    lemma_file_name_of_join(root, f);
}

/// Why a cache entry cannot be trusted yet.
#[derive(Debug, Clone, Copy, PartialEq, Eq, Structural)]
pub enum NotReady {
    /// The reference pointer file is absent.
    RefMissing,
    /// The snapshot that the reference names is absent.
    SnapshotMissing,
    /// The snapshot has no `build` directory.
    BuildMissing,
}

/// A fully present chain from a reference to a build directory.
#[derive(Debug, Clone)]
pub struct CacheEntry {
    pub ref_path: String,
    pub resolved_hash: String,
    pub snapshot_dir: String,
    pub build_dir: String,
}

/// The reference file of `revision` in a repository directory.
pub open spec fn ref_path_of(repo: Seq<char>, revision: Seq<char>) -> Seq<char> {
    join_path(join_path(repo, "refs"@), revision)
}

/// The snapshot directory of `hash` in a repository directory.
pub open spec fn snapshot_path_of(repo: Seq<char>, hash: Seq<char>) -> Seq<char> {
    join_path(join_path(repo, "snapshots"@), hash)
}

/// The build directory of a snapshot.
pub open spec fn build_path_of(snapshot: Seq<char>) -> Seq<char> {
    join_path(snapshot, "build"@)
}

impl CacheEntry {
    /// The entry's paths are those of `revision` and `hash` in `repo`.
    pub open spec fn addresses(&self, repo: Seq<char>, revision: Seq<char>, hash: Seq<char>) -> bool {
        &&& self.ref_path@ == ref_path_of(repo, revision)
        &&& self.resolved_hash@ == hash
        &&& self.snapshot_dir@ == snapshot_path_of(repo, hash)
        &&& self.build_dir@ == build_path_of(snapshot_path_of(repo, hash))
    }
}

/// The reference file of `revision` in the repository directory `repo_path`.
pub fn ref_file_path(repo_path: &str, revision: &str) -> (r: String)
    ensures
        r@ == ref_path_of(repo_path@, revision@),
{
    let refs = join(repo_path, "refs");
    join(refs.as_str(), revision)
}

/// The snapshot directory that a reference file's contents name: the
/// contents are trimmed, and the hash is looked up under `snapshots`.
pub fn snapshot_dir_path(repo_path: &str, ref_contents: &str) -> (r: String)
    ensures
        r@ == snapshot_path_of(repo_path@, trimmed_of(ref_contents@)),
{
    let hash = trim_str(ref_contents);
    let snapshots = join(repo_path, "snapshots");
    join(snapshots.as_str(), hash)
}

/// The `build` directory of a snapshot directory.
pub fn build_dir_path(snapshot_dir: &str) -> (r: String)
    ensures
        r@ == build_path_of(snapshot_dir@),
{
    join(snapshot_dir, "build")
}

/// The cache entry of a snapshot `hash`, given whether its snapshot
/// directory and that directory's `build` child exist: any missing link
/// leaves the whole entry not ready.
pub fn cache_entry_for_hash(
    repo_path: &str,
    revision: &str,
    hash: &str,
    snapshot_exists: bool,
    build_exists: bool,
) -> (r: Result<CacheEntry, NotReady>)
    ensures
        !snapshot_exists ==> r == Err::<CacheEntry, NotReady>(NotReady::SnapshotMissing),
        snapshot_exists && !build_exists ==> r == Err::<CacheEntry, NotReady>(
            NotReady::BuildMissing,
        ),
        r is Ok <==> snapshot_exists && build_exists,
        r matches Ok(e) ==> e.addresses(repo_path@, revision@, hash@),
{
    if !snapshot_exists {
        return Err(NotReady::SnapshotMissing);
    }
    if !build_exists {
        return Err(NotReady::BuildMissing);
    }
    let ref_path = ref_file_path(repo_path, revision);
    let snapshots = join(repo_path, "snapshots");
    let snapshot_dir = join(snapshots.as_str(), hash);
    let build_dir = build_dir_path(snapshot_dir.as_str());
    Ok(CacheEntry { ref_path, resolved_hash: String::from_str(hash), snapshot_dir, build_dir })
}

/// Resolves the cache entry of `revision` in a repository directory from
/// what was found on disk: the reference file's contents, if the file
/// exists, and whether the snapshot directory that `snapshot_dir_path`
/// gives for those contents, and its `build` directory, exist.
pub fn resolve(
    repo_path: &str,
    revision: &str,
    ref_contents: Option<&str>,
    snapshot_exists: bool,
    build_exists: bool,
) -> (r: Result<CacheEntry, NotReady>)
    ensures
        ref_contents is None <==> r == Err::<CacheEntry, NotReady>(NotReady::RefMissing),
        ref_contents is Some && !snapshot_exists ==> r == Err::<CacheEntry, NotReady>(
            NotReady::SnapshotMissing,
        ),
        ref_contents is Some && snapshot_exists && !build_exists ==> r == Err::<
            CacheEntry,
            NotReady,
        >(NotReady::BuildMissing),
        r is Ok <==> ref_contents is Some && snapshot_exists && build_exists,
        r matches Ok(e) ==> e.addresses(
            repo_path@,
            revision@,
            trimmed_of(ref_contents->Some_0@),
        ),
{
    match ref_contents {
        None => Err(NotReady::RefMissing),
        Some(contents) => {
            let hash = trim_str(contents);
            cache_entry_for_hash(repo_path, revision, hash, snapshot_exists, build_exists)
        },
    }
}

/// Whether the cache has to be synchronised: always when `force` is set,
/// and otherwise exactly when the entry is not ready.
pub fn needs_sync(entry: &Result<CacheEntry, NotReady>, force: bool) -> (r: bool)
    ensures
        r == (force || entry is Err),
{
    force || entry.is_err()
}

/// Whether a repository counts as cached with build variants: its entry is
/// ready and its build directory holds at least one subdirectory.
pub fn has_build_variants(entry: &Result<CacheEntry, NotReady>, variant_dirs: &Vec<String>) -> (r:
    bool)
    ensures
        r == (entry is Ok && variant_dirs@.len() > 0),
{
    entry.is_ok() && variant_dirs.len() > 0
}


/// The extension of a file name, as `Path::extension` finds it: what
/// follows the last `.`, where that `.` is not the name's first character.
pub open spec fn extension_of_name(name: Seq<char>) -> Option<Seq<char>> {
    let k = after_last(name, '.');
    if k <= 1 {
        None
    } else {
        Some(name.skip(k as int))
    }
}

/// The extension of a path's final component.
pub open spec fn extension_of(path: Seq<char>) -> Option<Seq<char>> {
    match file_name_of(path) {
        None => None,
        Some(name) => extension_of_name(name),
    }
}

/// The extension of dynamic libraries on the target platform.
pub open spec fn shared_object_extension() -> Seq<char> {
    seq!['s', 'o']
}

/// Whether a path names a shared object: its extension is `so`.
pub fn is_shared_object(path: &str) -> (r: bool)
    ensures
        r == (extension_of(path@) == Some(shared_object_extension())),
{
    let name = match file_name(path) {
        None => {
            return false;
        },
        Some(n) => n,
    };
    let s = name.as_str();
    let n = s.unicode_len();
    let mut k: usize = n;
    proof {
        assert(s@.take(n as int) =~= s@);
    }
    loop
        invariant
            n == s@.len(),
            k <= n,
            after_last(s@.take(k as int), '.') == after_last(s@, '.'),
        ensures
            k <= n,
            after_last(s@.take(k as int), '.') == after_last(s@, '.'),
            k == 0 || s@[k - 1] == '.',
        decreases k,
    {
        if k == 0 {
            break;
        }
        if s.get_char(k - 1) == '.' {
            break;
        }
        proof {
            assert(s@.take(k as int).drop_last() =~= s@.take(k - 1));
            assert(s@.take(k as int).last() == s@[k - 1]);
        }
        k = k - 1;
    }
    proof {
        assert(s@.take(n as int) =~= s@);
        if k == 0 {
            assert(s@.take(0) =~= Seq::<char>::empty());
        } else {
            assert(s@.take(k as int).last() == s@[k - 1]);
        }
        assert(after_last(s@, '.') == k);
    }
    if k <= 1 {
        return false;
    }
    if n - k == 2 && s.get_char(k) == 's' && s.get_char(k + 1) == 'o' {
        proof {
            assert(s@.skip(k as int) =~= shared_object_extension());
        }
        true
    } else {
        proof {
            if s@.skip(k as int) == shared_object_extension() {
                assert(s@.skip(k as int).len() == 2);
                assert(s@.skip(k as int)[0] == s@[k as int]);
                assert(s@.skip(k as int)[1] == s@[k + 1]);
            }
        }
        false
    }
}

/// The shared objects among `paths`, in order.
pub open spec fn shared_objects_of(paths: Seq<String>) -> Seq<Seq<char>>
    decreases paths.len(),
{
    if paths.len() == 0 {
        Seq::empty()
    } else {
        let p = shared_objects_of(paths.drop_last());
        if extension_of(paths.last()@) == Some(shared_object_extension()) {
            p.push(paths.last()@)
        } else {
            p
        }
    }
}

/// The shared objects among the files found under a variant directory,
/// in the order they were found.
pub fn select_shared_objects(paths: &Vec<String>) -> (r: Vec<String>)
    ensures
        views(r@) == shared_objects_of(paths@),
{
    let mut out: Vec<String> = Vec::new();
    let mut i: usize = 0;
    proof {
        assert(paths@.take(0) =~= Seq::<String>::empty());
        assert(views(out@) =~= Seq::<Seq<char>>::empty());
    }
    while i < paths.len()
        invariant
            i <= paths@.len(),
            views(out@) == shared_objects_of(paths@.take(i as int)),
        decreases paths@.len() - i,
    {
        proof {
            assert(paths@.take(i + 1).drop_last() =~= paths@.take(i as int));
            assert(paths@.take(i + 1).last() == paths@[i as int]);
        }
        if is_shared_object(paths[i].as_str()) {
            let ghost before = views(out@);
            let p = paths[i].clone();
            out.push(p);
            proof {
                assert(views(out@) =~= before.push(paths@[i as int]@));
            }
        }
        i = i + 1;
    }
    proof {
        assert(paths@.take(paths@.len() as int) =~= paths@);
    }
    out
}

} // verus!
