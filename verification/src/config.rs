use vstd::prelude::*;

use crate::installer::views_of_strings;

verus! {

// ---------------------------------------------------------------------------
// The run's configuration: the configuration root and the manifest paths
// found under its packages directory. Walking the filesystem is the caller's
// job; deciding which discovered paths are manifests is decided here.
// ---------------------------------------------------------------------------
/// Whether a path names a manifest: it ends in the `.lua` extension and the
/// character before the extension exists and is no path separator, so the
/// file's stem is non-empty. A hidden file such as `.lua` itself has no
/// extension and is no manifest.
pub open spec fn is_manifest_path_spec(s: Seq<char>) -> bool {
    &&& s.len() >= 5
    &&& s.subrange(s.len() - 4, s.len() as int) == ".lua"@
    &&& s[s.len() - 5] != '/'
}

/// Decides whether one discovered path names a manifest.
pub fn is_manifest_path(p: &str) -> (r: bool)
    ensures
        r == is_manifest_path_spec(p@),
{
    let n = p.unicode_len();
    if n < 5 {
        return false;
    }
    let c0 = p.get_char(n - 4);
    let c1 = p.get_char(n - 3);
    let c2 = p.get_char(n - 2);
    let c3 = p.get_char(n - 1);
    let c4 = p.get_char(n - 5);
    let r = c0 == '.' && c1 == 'l' && c2 == 'u' && c3 == 'a' && c4 != '/';
    proof {
        reveal_strlit(".lua");
        let sub = p@.subrange(n - 4, n as int);
        assert(sub.len() == 4);
        assert(sub[0] == c0 && sub[1] == c1 && sub[2] == c2 && sub[3] == c3);
        if c0 == '.' && c1 == 'l' && c2 == 'u' && c3 == 'a' {
            assert(sub =~= ".lua"@);
        } else {
            assert(sub == ".lua"@ ==> (c0 == '.' && c1 == 'l' && c2 == 'u' && c3 == 'a'));
        }
    }
    r
}

/// The manifest paths among the discovered paths, in discovery order.
pub open spec fn manifest_paths_of(ps: Seq<Seq<char>>) -> Seq<Seq<char>>
    decreases ps.len(),
{
    if ps.len() == 0 {
        Seq::<Seq<char>>::empty()
    } else {
        manifest_paths_of(ps.drop_last()) + (if is_manifest_path_spec(ps.last()) {
            seq![ps.last()]
        } else {
            Seq::<Seq<char>>::empty()
        })
    }
}

/// Law: a path that is no manifest never appears among the kept paths — so
/// it can never reach the loader or the declared set — and every manifest
/// path found is kept. Skipping a stray file is never an error.
pub proof fn lemma_manifest_paths_exact(ps: Seq<Seq<char>>)
    ensures
        forall|i: int|
            0 <= i < manifest_paths_of(ps).len() ==> is_manifest_path_spec(
                #[trigger] manifest_paths_of(ps)[i],
            ),
        forall|i: int|
            0 <= i < ps.len() && is_manifest_path_spec(#[trigger] ps[i]) ==> manifest_paths_of(
                ps,
            ).contains(ps[i]),
    decreases ps.len(),
{
    if ps.len() > 0 {
        lemma_manifest_paths_exact(ps.drop_last());
        let prefix = manifest_paths_of(ps.drop_last());
        assert forall|i: int|
            0 <= i < ps.len() && is_manifest_path_spec(#[trigger] ps[i]) implies manifest_paths_of(
            ps,
        ).contains(ps[i]) by {
            if i < ps.len() - 1 {
                assert(ps.drop_last()[i] == ps[i]);
                let k = choose|k: int| 0 <= k < prefix.len() && prefix[k] == ps[i];
                assert(manifest_paths_of(ps)[k] == ps[i]);
            } else {
                assert(manifest_paths_of(ps)[prefix.len() as int] == ps[i]);
            }
        }
    }
}

/// Keeps exactly the discovered paths that name manifests, in order.
pub fn filter_manifest_paths(paths: &Vec<String>) -> (r: Vec<String>)
    ensures
        views_of_strings(r@) == manifest_paths_of(views_of_strings(paths@)),
{
    let mut r: Vec<String> = Vec::new();
    let mut i: usize = 0;
    while i < paths.len()
        invariant
            0 <= i <= paths.len(),
            views_of_strings(r@) == manifest_paths_of(views_of_strings(paths@).take(i as int)),
        decreases paths.len() - i,
    {
        let ghost before = r@;
        if is_manifest_path(paths[i].as_str()) {
            r.push(paths[i].clone());
        }
        proof {
            let vs = views_of_strings(paths@);
            assert(vs.take(i + 1).drop_last() =~= vs.take(i as int));
            assert(vs.take(i + 1).last() == vs[i as int]);
            assert(vs[i as int] == paths@[i as int]@);
            if is_manifest_path_spec(paths@[i as int]@) {
                assert(views_of_strings(r@) =~= views_of_strings(before).push(paths@[i as int]@));
            }
            assert(views_of_strings(r@) =~= manifest_paths_of(vs.take(i + 1)));
        }
        i += 1;
    }
    proof {
        let vs = views_of_strings(paths@);
        assert(vs.take(vs.len() as int) =~= vs);
    }
    r
}

/// The run's configuration: the configuration root and the manifest paths
/// under its packages directory, in discovery order.
pub struct Config {
    pub packages: Vec<String>,
    pub config_dir: String,
}

impl Config {
    /// Assembles the configuration from the configuration root and every
    /// path the caller discovered in the packages directory: exactly the
    /// manifest paths are kept, in discovery order. A stray file is skipped
    /// — the caller may warn — and never a reason to fail.
    pub fn new(config_dir: String, discovered: Vec<String>) -> (r: Config)
        ensures
            r.config_dir == config_dir,
            views_of_strings(r.packages@) == manifest_paths_of(views_of_strings(discovered@)),
    {
        Config { packages: filter_manifest_paths(&discovered), config_dir }
    }
}

} // verus!
