//! Executable-version resolution: computing the preferred executable
//! path from the configuration, and falling back to the most recently
//! created installed version when the preferred one is missing.

use vstd::prelude::*;

use crate::models::GlobalConfig;
use crate::text::{joined_path, path_join};

verus! {

/// Three-way lexicographic comparison of character sequences by code
/// point: negative when `a` sorts before `b`, zero when equal, positive
/// when `a` sorts after `b`.
pub open spec fn lex3(a: Seq<char>, b: Seq<char>) -> int
    decreases a.len(),
{
    if a.len() == 0 && b.len() == 0 {
        0
    } else if a.len() == 0 {
        -1
    } else if b.len() == 0 {
        1
    } else if (a[0] as u32) < (b[0] as u32) {
        -1
    } else if (a[0] as u32) > (b[0] as u32) {
        1
    } else {
        lex3(a.skip(1), b.skip(1))
    }
}

/// Lexicographic comparison flips under swapping its arguments.
proof fn lemma_lex3_antisym(a: Seq<char>, b: Seq<char>)
    ensures
        lex3(a, b) == -lex3(b, a),
    decreases a.len(),
{
    if a.len() > 0 && b.len() > 0 && (a[0] as u32) == (b[0] as u32) {
        lemma_lex3_antisym(a.skip(1), b.skip(1));
    }
}

/// Lexicographic comparison is transitive, strictly so when either
/// link is strict.
proof fn lemma_lex3_trans(a: Seq<char>, b: Seq<char>, c: Seq<char>)
    requires
        lex3(a, b) <= 0,
        lex3(b, c) <= 0,
    ensures
        lex3(a, c) <= 0,
        lex3(a, b) < 0 || lex3(b, c) < 0 ==> lex3(a, c) < 0,
    decreases a.len(),
{
    if a.len() > 0 && b.len() > 0 && c.len() > 0 && (a[0] as u32) == (b[0] as u32) && (b[0] as u32)
        == (c[0] as u32) {
        lemma_lex3_trans(a.skip(1), b.skip(1), c.skip(1));
    }
}

/// Decides whether `a` sorts strictly before `b` lexicographically.
fn lex_less(a: &str, b: &str) -> (r: bool)
    ensures
        r == (lex3(a@, b@) < 0),
{
    let na = a.unicode_len();
    let nb = b.unicode_len();
    proof {
        assert(a@.skip(0) =~= a@);
        assert(b@.skip(0) =~= b@);
    }
    let mut k: usize = 0;
    while k < na && k < nb
        invariant
            k <= na,
            k <= nb,
            na == a@.len(),
            nb == b@.len(),
            lex3(a@, b@) == lex3(a@.skip(k as int), b@.skip(k as int)),
        decreases na - k,
    {
        let ca = a.get_char(k);
        let cb = b.get_char(k);
        proof {
            assert(a@.skip(k as int)[0] == a@[k as int]);
            assert(b@.skip(k as int)[0] == b@[k as int]);
        }
        let ua = ca as u32;
        let ub = cb as u32;
        if ua < ub {
            return true;
        }
        if ua > ub {
            return false;
        }
        proof {
            assert(a@.skip(k as int).skip(1) =~= a@.skip(k + 1));
            assert(b@.skip(k as int).skip(1) =~= b@.skip(k + 1));
        }
        k += 1;
    }
    proof {
        assert(a@.skip(k as int).len() == na - k);
        assert(b@.skip(k as int).len() == nb - k);
    }
    na < nb
}

/// One installed version found under the versions directory: its
/// directory name, its full directory path, and its creation time (in
/// nanoseconds since some fixed epoch) when the filesystem reports one.
#[derive(Clone, Debug)]
pub struct VersionCandidate {
    pub name: String,
    pub path: String,
    pub created: Option<u64>,
}

/// Whether candidate `a` strictly outranks candidate `b`: more recently
/// created first, a known creation time before an unknown one, and
/// among two unknowns the lexicographically greater name first.
pub open spec fn precedes(a: VersionCandidate, b: VersionCandidate) -> bool {
    match (a.created, b.created) {
        (Some(ta), Some(tb)) => ta > tb,
        (Some(_), None) => true,
        (None, Some(_)) => false,
        (None, None) => lex3(b.name@, a.name@) < 0,
    }
}

/// A sequence does not sort strictly before itself.
proof fn lemma_lex3_refl(a: Seq<char>)
    ensures
        lex3(a, a) == 0,
    decreases a.len(),
{
    if a.len() > 0 {
        lemma_lex3_refl(a.skip(1));
    }
}

/// No candidate strictly outranks itself.
proof fn lemma_precedes_irrefl(x: VersionCandidate)
    ensures
        !precedes(x, x),
{
    if x.created is None {
        lemma_lex3_refl(x.name@);
    }
}

/// Outranking is transitive.
proof fn lemma_precedes_trans(a: VersionCandidate, b: VersionCandidate, c: VersionCandidate)
    requires
        precedes(a, b),
        precedes(b, c),
    ensures
        precedes(a, c),
{
    if a.created is None && b.created is None && c.created is None {
        lemma_lex3_antisym(b.name@, a.name@);
        lemma_lex3_antisym(c.name@, b.name@);
        lemma_lex3_trans(c.name@, b.name@, a.name@);
    }
}

/// Outranking something that a third candidate does not outrank carries
/// over to that third candidate.
proof fn lemma_precedes_mixed(a: VersionCandidate, b: VersionCandidate, c: VersionCandidate)
    requires
        precedes(a, b),
        !precedes(c, b),
    ensures
        precedes(a, c),
{
    if a.created is None && b.created is None && c.created is None {
        lemma_lex3_antisym(b.name@, c.name@);
        lemma_lex3_trans(c.name@, b.name@, a.name@);
    }
}

/// Decides whether candidate `a` strictly outranks candidate `b`.
fn candidate_precedes(a: &VersionCandidate, b: &VersionCandidate) -> (r: bool)
    ensures
        r == precedes(*a, *b),
{
    match (&a.created, &b.created) {
        (Some(ta), Some(tb)) => *ta > *tb,
        (Some(_), None) => true,
        (None, Some(_)) => false,
        (None, None) => lex_less(b.name.as_str(), a.name.as_str()),
    }
}

/// Whether position `b` holds the selected candidate: no candidate
/// outranks it, and it strictly outranks every candidate before it (so
/// among equally ranked candidates the earliest is selected).
pub open spec fn is_selected(c: Seq<VersionCandidate>, b: int) -> bool {
    &&& 0 <= b < c.len()
    &&& forall|j: int| 0 <= j < c.len() ==> !precedes(#[trigger] c[j], c[b])
    &&& forall|j: int| 0 <= j < b ==> precedes(c[b], #[trigger] c[j])
}

/// Picks the best-ranked candidate: the most recently created, with the
/// tie-breaks of `precedes`, and the earliest listed among exact ties.
pub fn pick_best(candidates: &Vec<VersionCandidate>) -> (r: Option<usize>)
    ensures
        r is Some <==> candidates@.len() > 0,
        r matches Some(b) ==> is_selected(candidates@, b as int),
{
    if candidates.len() == 0 {
        return None;
    }
    let ghost c = candidates@;
    proof {
        lemma_precedes_irrefl(c[0]);
    }
    let mut best: usize = 0;
    let mut k: usize = 1;
    while k < candidates.len()
        invariant
            c == candidates@,
            best < k <= c.len(),
            forall|j: int| 0 <= j < k ==> !precedes(#[trigger] c[j], c[best as int]),
            forall|j: int| 0 <= j < best ==> precedes(c[best as int], #[trigger] c[j]),
        decreases candidates.len() - k,
    {
        if candidate_precedes(&candidates[k], &candidates[best]) {
            proof {
                assert forall|j: int| 0 <= j < k + 1 implies !precedes(
                    #[trigger] c[j],
                    c[k as int],
                ) by {
                    if precedes(c[j], c[k as int]) {
                        if j == k {
                            lemma_precedes_irrefl(c[k as int]);
                        } else {
                            lemma_precedes_trans(c[j], c[k as int], c[best as int]);
                        }
                    }
                }
                assert forall|j: int| 0 <= j < k implies precedes(
                    c[k as int],
                    #[trigger] c[j],
                ) by {
                    lemma_precedes_mixed(c[k as int], c[best as int], c[j]);
                }
            }
            best = k;
        }
        k += 1;
    }
    Some(best)
}


/// The preferred executable path under a configuration: the named
/// version's directory under `<executable_folder>/versions` when an
/// active version name is set, else the active folder when one is set,
/// else the executable folder itself, with the executable's file name
/// appended.
pub open spec fn preferred_path_spec(cfg: GlobalConfig, exe_name: Seq<char>) -> Seq<char> {
    match cfg.active_executable_version {
        Some(v) => joined_path(
            joined_path(joined_path(cfg.executable_folder@, "versions"@), v@),
            exe_name,
        ),
        None => match cfg.active_executable_folder {
            Some(f) => joined_path(f@, exe_name),
            None => joined_path(cfg.executable_folder@, exe_name),
        },
    }
}

/// Computes the preferred executable path for a configuration.
pub fn preferred_executable_path(cfg: &GlobalConfig, exe_name: &str) -> (p: String)
    ensures
        p@ == preferred_path_spec(*cfg, exe_name@),
{
    match &cfg.active_executable_version {
        Some(v) => {
            let base = path_join(cfg.executable_folder.as_str(), "versions");
            let versioned = path_join(base.as_str(), v.as_str());
            path_join(versioned.as_str(), exe_name)
        },
        None => {
            match &cfg.active_executable_folder {
                Some(f) => path_join(f.as_str(), exe_name),
                None => path_join(cfg.executable_folder.as_str(), exe_name),
            }
        },
    }
}

/// The outcome of resolving which executable a launch should run.
pub enum Resolution {
    /// The preferred path exists on disk; run it.
    UsePreferred { path: String },
    /// The preferred path is missing but an installed version was
    /// found; run its executable. The configuration was updated to make
    /// it the active version, and the caller should persist that change
    /// (best-effort: a persistence failure is logged, not fatal).
    UseFallback { path: String, version_name: String, folder: String },
    /// Nothing is installed; the caller reports the preferred path as
    /// missing and fails the launch.
    Missing { path: String },
}

/// Resolves the executable to run.
///
/// `preferred_exists` reports whether the preferred path (as computed
/// by `preferred_executable_path`) exists on disk; `candidates` lists
/// the installed versions found under `<executable_folder>/versions`
/// that contain the executable. When the preferred path exists it is
/// returned as is, without consulting the candidates, and the
/// configuration is left untouched. Otherwise the best-ranked candidate
/// (see `is_selected`) is adopted: both active-version fields of the
/// configuration are updated to it. With no candidate, the preferred
/// path is returned unchanged as missing.
pub fn resolve_executable(
    cfg: &mut GlobalConfig,
    exe_name: &str,
    preferred_exists: bool,
    candidates: &Vec<VersionCandidate>,
) -> (r: Resolution)
    ensures
        preferred_exists ==> ({
            &&& *final(cfg) == *old(cfg)
            &&& (r matches Resolution::UsePreferred { path } && path@ == preferred_path_spec(
                *old(cfg),
                exe_name@,
            ))
        }),
        !preferred_exists && candidates@.len() == 0 ==> ({
            &&& *final(cfg) == *old(cfg)
            &&& (r matches Resolution::Missing { path } && path@ == preferred_path_spec(
                *old(cfg),
                exe_name@,
            ))
        }),
        !preferred_exists && candidates@.len() > 0 ==> ({
            &&& (r matches Resolution::UseFallback { path, version_name, folder } && (exists|
                b: int,
            |
                {
                    &&& is_selected(candidates@, b)
                    &&& folder@ == candidates@[b].path@
                    &&& version_name@ == candidates@[b].name@
                    &&& path@ == joined_path(candidates@[b].path@, exe_name@)
                }) && final(cfg).active_executable_folder == Some(folder)
                && final(cfg).active_executable_version == Some(version_name))
            &&& final(cfg).executable_folder == old(cfg).executable_folder
            &&& final(cfg).models_directory == old(cfg).models_directory
            &&& final(cfg).theme_color == old(cfg).theme_color
        }),
{
    let preferred = preferred_executable_path(cfg, exe_name);
    if preferred_exists {
        return Resolution::UsePreferred { path: preferred };
    }
    match pick_best(candidates) {
        Some(b) => {
            let folder = candidates[b].path.clone();
            let version_name = candidates[b].name.clone();
            let path = path_join(folder.as_str(), exe_name);
            cfg.active_executable_folder = Some(folder.clone());
            cfg.active_executable_version = Some(version_name.clone());
            Resolution::UseFallback { path, version_name, folder }
        },
        None => Resolution::Missing { path: preferred },
    }
}

} // verus!
