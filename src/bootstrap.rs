//! The module search path of the embedded runtime that hosts the agent
//! client: the isolated dependency directory and the project's own
//! directories go first, ahead of anything already there.
use vstd::prelude::*;

verus! {

/// The directories the runtime must resolve modules from.
pub struct EnvironmentDirs {
    /// The project's source directory.
    pub project_dir: String,
    /// The parent of `project_dir`.
    pub project_root: String,
    /// The isolated dependency environment.
    pub venv_dir: String,
    /// Where the packages of `venv_dir` are installed.
    pub site_packages: String,
}

/// The runtime environment cannot be prepared.
#[derive(Debug)]
pub struct EnvironmentError {
    pub message: String,
}

pub type SearchPath = Seq<Seq<char>>;

pub open spec fn path_view(v: Seq<String>) -> SearchPath {
    Seq::new(v.len(), |i: int| v[i]@)
}

impl EnvironmentDirs {
    /// The entries that lead the search path, highest precedence first.
    pub open spec fn front(&self) -> SearchPath {
        seq![self.project_root@, self.project_dir@, self.site_packages@]
    }
}

/// The entries of `c` that are not in `f`, in their order.
pub open spec fn without(c: SearchPath, f: SearchPath) -> SearchPath
    decreases c.len(),
{
    if c.len() == 0 {
        Seq::empty()
    } else if f.contains(c.last()) {
        without(c.drop_last(), f)
    } else {
        without(c.drop_last(), f).push(c.last())
    }
}

/// The search path after set-up.
pub open spec fn bootstrapped_path(c: SearchPath, f: SearchPath) -> SearchPath {
    f + without(c, f)
}

pub open spec fn missing_environment_message(venv: Seq<char>) -> Seq<char> {
    "dependency environment not found at "@ + venv
}

/// Computes the runtime's search path from the current one. Fails when the
/// dependency environment is not there.
pub fn initialize_python(current: &Vec<String>, dirs: &EnvironmentDirs, venv_found: bool) -> (r: Result<
    Vec<String>,
    EnvironmentError,
>)
    ensures
        venv_found ==> r is Ok && path_view(r->Ok_0@) == bootstrapped_path(path_view(current@), dirs.front()),
        !venv_found ==> r is Err && r->Err_0.message@ == missing_environment_message(dirs.venv_dir@),
{
    if !venv_found {
        let mut message = String::from_str("dependency environment not found at ");
        message.append(dirs.venv_dir.as_str());
        return Err(EnvironmentError { message });
    }
    let ghost c = path_view(current@);
    let ghost f = dirs.front();
    let mut out: Vec<String> = Vec::new();
    out.push(dirs.project_root.clone());
    out.push(dirs.project_dir.clone());
    out.push(dirs.site_packages.clone());
    assert(path_view(out@) =~= f + without(c.take(0), f));
    let mut i: usize = 0;
    while i < current.len()
        invariant
            i <= current.len(),
            c == path_view(current@),
            f == dirs.front(),
            path_view(out@) == f + without(c.take(i as int), f),
        decreases current.len() - i,
    {
        let p = &current[i];
        let taken = *p == dirs.project_root || *p == dirs.project_dir || *p == dirs.site_packages;
        proof {
            let t = c.take(i as int + 1);
            assert(t.drop_last() =~= c.take(i as int));
            assert(t.last() == p@);
            assert(taken == f.contains(p@)) by {
                if f.contains(p@) {
                    let k = choose|k: int| 0 <= k < f.len() && f[k] == p@;
                    assert(k == 0 || k == 1 || k == 2);
                } else {
                    assert(f[0] != p@ && f[1] != p@ && f[2] != p@);
                }
            }
        }
        let ghost before = path_view(out@);
        if !taken {
            out.push(p.clone());
            assert(without(c.take(i as int + 1), f) == without(c.take(i as int), f).push(p@));
            assert(path_view(out@) =~= before.push(p@));
            assert(path_view(out@) =~= f + without(c.take(i as int + 1), f));
        } else {
            assert(without(c.take(i as int + 1), f) == without(c.take(i as int), f));
        }
        i = i + 1;
    }
    assert(c.take(i as int) =~= c);
    Ok(out)
}

proof fn lemma_without_excludes(c: SearchPath, f: SearchPath)
    ensures
        forall|i: int| 0 <= i < without(c, f).len() ==> !f.contains(#[trigger] without(c, f)[i]),
        forall|x: Seq<char>| c.contains(x) && !f.contains(x) ==> without(c, f).contains(x),
        forall|x: Seq<char>| without(c, f).contains(x) ==> c.contains(x),
    decreases c.len(),
{
    if c.len() > 0 {
        let p = c.drop_last();
        lemma_without_excludes(p, f);
        assert forall|x: Seq<char>| c.contains(x) && !f.contains(x) implies without(c, f).contains(x) by {
            let k = choose|k: int| 0 <= k < c.len() && c[k] == x;
            if k < c.len() - 1 {
                assert(p[k] == x);
                let w = without(p, f);
                let j = choose|j: int| 0 <= j < w.len() && w[j] == x;
                if !f.contains(c.last()) {
                    assert(without(c, f)[j] == x);
                }
            } else {
                assert(without(c, f).last() == x);
            }
        }
        assert forall|x: Seq<char>| without(c, f).contains(x) implies c.contains(x) by {
            let w = without(p, f);
            let j = choose|j: int| 0 <= j < without(c, f).len() && without(c, f)[j] == x;
            if j < w.len() {
                assert(w[j] == x);
                assert(w.contains(x));
                assert(p.contains(x));
                let k = choose|k: int| 0 <= k < p.len() && p[k] == x;
                assert(c[k] == x);
            } else {
                assert(c[c.len() - 1] == x);
            }
        }
    }
}

proof fn lemma_without_of_clean(x: SearchPath, f: SearchPath)
    requires
        forall|i: int| 0 <= i < x.len() ==> !f.contains(#[trigger] x[i]),
    ensures
        without(x, f) == x,
    decreases x.len(),
{
    if x.len() > 0 {
        lemma_without_of_clean(x.drop_last(), f);
        assert(x.drop_last().push(x.last()) =~= x);
    }
}

proof fn lemma_without_skips_front(x: SearchPath, f: SearchPath, k: int)
    requires
        0 <= k <= f.len(),
    ensures
        without(f.take(k) + x, f) == without(x, f),
    decreases x.len(), k,
{
    if x.len() == 0 {
        if k > 0 {
            let s = f.take(k) + x;
            assert(s.drop_last() =~= f.take(k - 1) + x);
            assert(f.contains(s.last())) by {
                assert(f[k - 1] == s.last());
            }
            lemma_without_skips_front(x, f, k - 1);
        } else {
            assert(f.take(0) + x =~= x);
        }
    } else {
        let s = f.take(k) + x;
        assert(s.drop_last() =~= f.take(k) + x.drop_last());
        assert(s.last() == x.last());
        lemma_without_skips_front(x.drop_last(), f, k);
    }
}

/// Setting the search path up twice gives the same path as once.
pub proof fn lemma_bootstrap_idempotent(c: SearchPath, f: SearchPath)
    ensures
        bootstrapped_path(bootstrapped_path(c, f), f) == bootstrapped_path(c, f),
{
    let w = without(c, f);
    lemma_without_excludes(c, f);
    lemma_without_skips_front(w, f, f.len() as int);
    assert(f.take(f.len() as int) =~= f);
    lemma_without_of_clean(w, f);
}

/// After set-up the leading entries come first, in their order, and every
/// entry that was already on the path is still on it.
pub proof fn lemma_bootstrap_precedence(c: SearchPath, f: SearchPath)
    ensures
        bootstrapped_path(c, f).take(f.len() as int) == f,
        forall|x: Seq<char>| c.contains(x) ==> bootstrapped_path(c, f).contains(x),
{
    let b = bootstrapped_path(c, f);
    assert(b.take(f.len() as int) =~= f);
    lemma_without_excludes(c, f);
    assert forall|x: Seq<char>| c.contains(x) implies b.contains(x) by {
        if f.contains(x) {
            let k = choose|k: int| 0 <= k < f.len() && f[k] == x;
            assert(b[k] == x);
        } else {
            let w = without(c, f);
            let j = choose|j: int| 0 <= j < w.len() && w[j] == x;
            assert(b[f.len() + j] == x);
        }
    }
}

} // verus!
