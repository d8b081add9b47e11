//! The resolver: computes the effective settings of every declared backup
//! path by checking the path's own fields first, then the effective profile,
//! and otherwise leaving the field absent. Resolution is total: it never
//! fails, whatever the document holds; all strictness lives in the validator.

use crate::model::BackupPath;
use crate::model::BackupPathView;
use crate::model::Config;
use crate::model::ConfigView;
use crate::model::Profile;
use crate::model::ProfileView;
use crate::model::ResolvedBackupPath;
use crate::model::ResolvedBackupPathView;
use crate::model::spec_lookup;
use vstd::prelude::*;

verus! {

/// The first of two optional values that is present, if any.
pub open spec fn opt_or<A>(a: Option<A>, b: Option<A>) -> Option<A> {
    if a is Some {
        a
    } else {
        b
    }
}

/// The profile a backup path resolves under: its own reference if one is
/// named (a dangling name yields no profile), else the global default profile
/// if one is named, else none.
pub open spec fn spec_effective_profile(c: ConfigView, bp: BackupPathView) -> Option<ProfileView> {
    match bp.profile {
        Some(n) => spec_lookup(c.profiles, n),
        None => match c.global.default_profile {
            Some(d) => spec_lookup(c.profiles, d),
            None => None,
        },
    }
}

/// The four optional fields of the effective profile, or all absent when
/// there is none.
pub open spec fn profile_fields(ep: Option<ProfileView>) -> ProfileView {
    match ep {
        Some(p) => p,
        None => (ProfileView { encrypt: None, backup_method: None, backup_to: None, interval: None }),
    }
}

/// The effective settings of one declared path: each field is the path's own
/// value when present, else the effective profile's value, else absent.
/// List-valued fields are replaced wholesale, never merged.
pub open spec fn spec_resolve_one(c: ConfigView, bp: BackupPathView) -> ResolvedBackupPathView {
    let p = profile_fields(spec_effective_profile(c, bp));
    ResolvedBackupPathView {
        path: bp.path,
        encrypt: opt_or(bp.encrypt, p.encrypt),
        backup_method: opt_or(bp.backup_method, p.backup_method),
        backup_to: opt_or(bp.backup_to, p.backup_to),
        interval: opt_or(bp.interval, p.interval),
    }
}

fn clone_string(s: &String) -> (r: String)
    ensures
        r@ == s@,
{
    s.clone()
}

fn clone_opt_string(v: &Option<String>) -> (r: Option<String>)
    ensures
        r.deep_view() == v.deep_view(),
{
    match v {
        Some(s) => Some(s.clone()),
        None => None,
    }
}

fn clone_methods(v: &Vec<String>) -> (r: Vec<String>)
    ensures
        r.deep_view() == v.deep_view(),
{
    let mut r: Vec<String> = Vec::new();
    let mut i: usize = 0;
    while i < v.len()
        invariant
            0 <= i <= v@.len(),
            r@.len() == i,
            forall|j: int| 0 <= j < i ==> #[trigger] r@[j]@ == v@[j]@,
        decreases v@.len() - i,
    {
        r.push(v[i].clone());
        i += 1;
    }
    proof {
        assert(r.deep_view() =~~= v.deep_view());
    }
    r
}

impl Config {
    /// The profile this document binds to `name`, if any.
    pub fn find_profile(&self, name: &String) -> (r: Option<&Profile>)
        ensures
            match r {
                Some(p) => spec_lookup(self@.profiles, name@) == Some(p@),
                None => spec_lookup(self@.profiles, name@) is None,
            },
    {
        proof {
            assert(self@.profiles.skip(0) =~= self@.profiles);
        }
        let mut i: usize = 0;
        while i < self.profiles.len()
            invariant
                0 <= i <= self.profiles@.len(),
                self@.profiles.len() == self.profiles@.len(),
                spec_lookup(self@.profiles, name@) == spec_lookup(
                    self@.profiles.skip(i as int),
                    name@,
                ),
            decreases self.profiles@.len() - i,
        {
            let entry = &self.profiles[i];
            proof {
                assert(self@.profiles.skip(i as int)[0] == self@.profiles[i as int]);
            }
            if entry.0 == *name {
                return Some(&entry.1);
            }
            proof {
                assert(self@.profiles.skip(i as int).drop_first() =~= self@.profiles.skip(
                    i as int + 1,
                ));
            }
            i += 1;
        }
        proof {
            assert(self@.profiles.skip(i as int).len() == 0);
        }
        None
    }

    /// The effective profile of `bp` in this document. An explicit reference
    /// wins; the global default applies only when no explicit reference is
    /// given; a dangling name yields no profile rather than an error here.
    pub fn effective_profile(&self, bp: &BackupPath) -> (r: Option<&Profile>)
        ensures
            match r {
                Some(p) => spec_effective_profile(self@, bp@) == Some(p@),
                None => spec_effective_profile(self@, bp@) is None,
            },
    {
        match &bp.profile {
            Some(n) => self.find_profile(n),
            None => match &self.global.default_profile {
                Some(d) => self.find_profile(d),
                None => None,
            },
        }
    }

    /// The effective settings of every declared path, one entry per path, in
    /// declaration order. Total: succeeds on every document.
    pub fn resolve_backup_paths(&self) -> (r: Vec<ResolvedBackupPath>)
        ensures
            r@.len() == self@.backup_paths.len(),
            forall|i: int|
                0 <= i < r@.len() ==> #[trigger] r@[i]@ == spec_resolve_one(
                    self@,
                    self@.backup_paths[i],
                ),
    {
        let mut out: Vec<ResolvedBackupPath> = Vec::new();
        let mut idx: usize = 0;
        while idx < self.backup_paths.len()
            invariant
                0 <= idx <= self.backup_paths@.len(),
                self@.backup_paths.len() == self.backup_paths@.len(),
                out@.len() == idx,
                forall|i: int|
                    0 <= i < idx ==> #[trigger] out@[i]@ == spec_resolve_one(
                        self@,
                        self@.backup_paths[i],
                    ),
            decreases self.backup_paths@.len() - idx,
        {
            let bp = &self.backup_paths[idx];
            let prof = self.effective_profile(bp);
            let encrypt = match bp.encrypt {
                Some(b) => Some(b),
                None => match prof {
                    Some(p) => p.encrypt,
                    None => None,
                },
            };
            let backup_method = match &bp.backup_method {
                Some(v) => Some(clone_methods(v)),
                None => match prof {
                    Some(p) => match &p.backup_method {
                        Some(v) => Some(clone_methods(v)),
                        None => None,
                    },
                    None => None,
                },
            };
            let backup_to = match &bp.backup_to {
                Some(s) => Some(clone_string(s)),
                None => match prof {
                    Some(p) => clone_opt_string(&p.backup_to),
                    None => None,
                },
            };
            let interval = match &bp.interval {
                Some(s) => Some(clone_string(s)),
                None => match prof {
                    Some(p) => clone_opt_string(&p.interval),
                    None => None,
                },
            };
            let resolved = ResolvedBackupPath {
                path: clone_string(&bp.path),
                encrypt,
                backup_method,
                backup_to,
                interval,
            };
            proof {
                assert(self@.backup_paths[idx as int] == bp@);
                assert(resolved@ == spec_resolve_one(self@, self@.backup_paths[idx as int]));
            }
            out.push(resolved);
            idx += 1;
        }
        out
    }
}

/// The declared locations of the resolved entries, in order, for handing to a
/// filesystem watcher.
pub fn extract_paths(configs: &Vec<ResolvedBackupPath>) -> (r: Vec<String>)
    ensures
        r@.len() == configs@.len(),
        forall|i: int| 0 <= i < configs@.len() ==> #[trigger] r@[i]@ == configs@[i].path@,
{
    let mut paths: Vec<String> = Vec::new();
    let mut i: usize = 0;
    while i < configs.len()
        invariant
            0 <= i <= configs@.len(),
            paths@.len() == i,
            forall|j: int| 0 <= j < i ==> #[trigger] paths@[j]@ == configs@[j].path@,
        decreases configs@.len() - i,
    {
        paths.push(clone_string(&configs[i].path));
        i += 1;
    }
    paths
}

/// Law: an explicit path-level value always takes precedence over the
/// effective profile's value for that field, whatever the profiles declare.
pub proof fn lemma_explicit_override_wins(c: ConfigView, bp: BackupPathView)
    ensures
        bp.encrypt is Some ==> spec_resolve_one(c, bp).encrypt == bp.encrypt,
        bp.backup_method is Some ==> spec_resolve_one(c, bp).backup_method == bp.backup_method,
        bp.backup_to is Some ==> spec_resolve_one(c, bp).backup_to == bp.backup_to,
        bp.interval is Some ==> spec_resolve_one(c, bp).interval == bp.interval,
{
}

/// Law: a path with no profile reference, in a document with no default
/// profile, resolves to exactly its own declared fields; every unset field
/// stays absent.
pub proof fn lemma_resolve_without_profile(c: ConfigView, bp: BackupPathView)
    requires
        bp.profile is None,
        c.global.default_profile is None,
    ensures
        spec_effective_profile(c, bp) is None,
        spec_resolve_one(c, bp) == (ResolvedBackupPathView {
            path: bp.path,
            encrypt: bp.encrypt,
            backup_method: bp.backup_method,
            backup_to: bp.backup_to,
            interval: bp.interval,
        }),
{
}

} // verus!
