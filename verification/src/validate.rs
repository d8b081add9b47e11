//! The validator: an exhaustive semantic check of a whole document. Every
//! applicable rule is inspected and every violation recorded before the
//! verdict is returned; nothing short-circuits on the first bad entry.
//!
//! Filesystem existence is the one fact the rules need that the document
//! cannot supply. [`Config::validate_with`] takes those answers as plain
//! values and is exact about its result; [`Config::validate`] obtains them
//! from the filesystem and is specified for every answer the disk may give.

use crate::model::BackupPathView;
use crate::model::Config;
use crate::model::ConfigError;
use crate::model::ConfigView;
use crate::model::spec_lookup;
use crate::resolve::spec_resolve_one;
use crate::text::count_char;
use crate::text::contains_digit;
use crate::text::eq_ignore_case;
use crate::text::has_digit;
use crate::text::has_prefix;
use crate::text::join_lines;
use crate::text::lemma_count_char_add;
use crate::text::lemma_count_char_zero;
use crate::text::lemma_join_line_count;
use crate::text::spec_join;
use crate::text::str_eq_ignore_case;
use crate::text::str_has_prefix;
use crate::text::views_of;
use vstd::prelude::*;
use vstd::string::StrSliceExecFns;
use vstd::string::StringExecFns;

verus! {

/// One semantic rule violation, identified by the entity and field at fault.
pub enum ViolationView {
    DefaultProfileNotFound { name: Seq<char> },
    PathMissing { path: Seq<char> },
    ProfileNotFound { name: Seq<char> },
    MethodUnknown { method: Seq<char> },
    IntervalMalformed { interval: Seq<char> },
    DestinationMissing { dest: Seq<char> },
    DestinationMalformed { dest: Seq<char> },
    MethodUnresolved { path: Seq<char> },
    DestinationUnresolved { path: Seq<char> },
}

/// The one-line human-readable message of a violation.
pub open spec fn msg_of(v: ViolationView) -> Seq<char> {
    match v {
        ViolationView::DefaultProfileNotFound { name } => "Default profile '"@ + name
            + "' not found"@,
        ViolationView::PathMissing { path } => "Path does not exist: "@ + path,
        ViolationView::ProfileNotFound { name } => "Referenced profile not found: "@ + name,
        ViolationView::MethodUnknown { method } => "Invalid backup method: "@ + method,
        ViolationView::IntervalMalformed { interval } => "Invalid interval format: "@ + interval,
        ViolationView::DestinationMissing { dest } => "Backup destination not accessible: "@
            + dest,
        ViolationView::DestinationMalformed { dest } => "Invalid backup destination format: "@
            + dest,
        ViolationView::MethodUnresolved { path } => "No backup method specified for path: "@
            + path,
        ViolationView::DestinationUnresolved { path } => "No backup destination specified for path: "@
            + path,
    }
}

/// The messages of a list of violations, in order.
pub open spec fn msgs_of(vs: Seq<ViolationView>) -> Seq<Seq<char>> {
    vs.map_values(|v: ViolationView| msg_of(v))
}

/// `m` names one of the supported backup methods, up to ASCII case.
pub open spec fn is_known_method(m: Seq<char>) -> bool {
    ||| eq_ignore_case(m, "local"@)
    ||| eq_ignore_case(m, "git"@)
    ||| eq_ignore_case(m, "gdrive"@)
    ||| eq_ignore_case(m, "pdrive"@)
    ||| eq_ignore_case(m, "dropbox"@)
}

/// A schedule literal is well-formed when it holds a digit and ends in a
/// day, hour, or minute unit.
pub open spec fn valid_interval(s: Seq<char>) -> bool {
    has_digit(s) && s.len() > 0 && (s.last() == 'd' || s.last() == 'h' || s.last() == 'm')
}

/// A destination written as a local path, whose existence must be checked.
pub open spec fn is_local_dest(s: Seq<char>) -> bool {
    has_prefix(s, "/"@) || has_prefix(s, "./"@)
}

/// A destination written as a remote endpoint, taken on trust without any
/// filesystem check.
pub open spec fn is_remote_dest(s: Seq<char>) -> bool {
    has_prefix(s, "git@"@) || has_prefix(s, "https://"@)
}

/// The violation, if any, of the global settings: a declared default profile
/// must exist.
pub open spec fn global_viols(c: ConfigView) -> Seq<ViolationView> {
    match c.global.default_profile {
        Some(d) => if spec_lookup(c.profiles, d) is None {
            seq![ViolationView::DefaultProfileNotFound { name: d }]
        } else {
            Seq::empty()
        },
        None => Seq::empty(),
    }
}

/// The violations of a declared method list: one per unknown entry, in order.
pub open spec fn method_viols(ms: Seq<Seq<char>>) -> Seq<ViolationView>
    decreases ms.len(),
{
    if ms.len() == 0 {
        Seq::empty()
    } else {
        method_viols(ms.drop_last()) + if is_known_method(ms.last()) {
            Seq::empty()
        } else {
            seq![ViolationView::MethodUnknown { method: ms.last() }]
        }
    }
}

/// The violations of one declared path, given the filesystem's answers for
/// its location (`path_exists`) and, when its destination is written as a
/// local path, for that destination (`dest_exists`).
pub open spec fn path_viols(
    c: ConfigView,
    bp: BackupPathView,
    path_exists: bool,
    dest_exists: bool,
) -> Seq<ViolationView> {
    (if path_exists {
        Seq::empty()
    } else {
        seq![ViolationView::PathMissing { path: bp.path }]
    }) + (match bp.profile {
        Some(n) => if spec_lookup(c.profiles, n) is None {
            seq![ViolationView::ProfileNotFound { name: n }]
        } else {
            Seq::empty()
        },
        None => Seq::empty(),
    }) + (match bp.backup_method {
        Some(ms) => method_viols(ms),
        None => Seq::empty(),
    }) + (match bp.interval {
        Some(iv) => if valid_interval(iv) {
            Seq::empty()
        } else {
            seq![ViolationView::IntervalMalformed { interval: iv }]
        },
        None => Seq::empty(),
    }) + (match bp.backup_to {
        Some(d) => if is_local_dest(d) {
            if dest_exists {
                Seq::empty()
            } else {
                seq![ViolationView::DestinationMissing { dest: d }]
            }
        } else if is_remote_dest(d) {
            Seq::empty()
        } else {
            seq![ViolationView::DestinationMalformed { dest: d }]
        },
        None => Seq::empty(),
    })
}

/// The violations of the first `n` declared paths, in declaration order.
pub open spec fn paths_viols(c: ConfigView, pe: Seq<bool>, de: Seq<bool>, n: int) -> Seq<
    ViolationView,
>
    decreases n,
{
    if n <= 0 {
        Seq::empty()
    } else {
        paths_viols(c, pe, de, n - 1) + path_viols(c, c.backup_paths[n - 1], pe[n - 1], de[n - 1])
    }
}

/// The violations of one resolved entry: backup method and destination are
/// mandatory after resolution, though optional at every single level.
pub open spec fn resolved_viols_one(c: ConfigView, bp: BackupPathView) -> Seq<ViolationView> {
    let r = spec_resolve_one(c, bp);
    (if r.backup_method is None {
        seq![ViolationView::MethodUnresolved { path: r.path }]
    } else {
        Seq::empty()
    }) + (if r.backup_to is None {
        seq![ViolationView::DestinationUnresolved { path: r.path }]
    } else {
        Seq::empty()
    })
}

/// The resolution violations of the first `n` declared paths, in order.
pub open spec fn resolved_viols(c: ConfigView, n: int) -> Seq<ViolationView>
    decreases n,
{
    if n <= 0 {
        Seq::empty()
    } else {
        resolved_viols(c, n - 1) + resolved_viols_one(c, c.backup_paths[n - 1])
    }
}

/// Every violation of the document, in the order the checks run: global
/// settings first, then each declared path's own rules, then the mandatory
/// fields of each resolved entry.
pub open spec fn spec_violations(c: ConfigView, pe: Seq<bool>, de: Seq<bool>) -> Seq<
    ViolationView,
> {
    global_viols(c) + paths_viols(c, pe, de, c.backup_paths.len() as int) + resolved_viols(
        c,
        c.backup_paths.len() as int,
    )
}

/// What validation returns, given the filesystem's answers: success exactly
/// when no rule is violated, and otherwise the newline-joined message of
/// every violation found.
pub open spec fn validate_decision(
    c: ConfigView,
    pe: Seq<bool>,
    de: Seq<bool>,
    r: Result<(), ConfigError>,
) -> bool {
    let vs = spec_violations(c, pe, de);
    match r {
        Ok(_) => vs.len() == 0,
        Err(ConfigError::Invalid(m)) => vs.len() > 0 && m@ == spec_join(msgs_of(vs)),
    }
}

/// Recording one more violation beside its message keeps the message list
/// and the violation list aligned.
proof fn lemma_rel_push(ms: Seq<String>, m: String, vs: Seq<ViolationView>, v: ViolationView)
    requires
        views_of(ms) == msgs_of(vs),
        m@ == msg_of(v),
    ensures
        views_of(ms.push(m)) == msgs_of(vs.push(v)),
{
    let lhs = views_of(ms.push(m));
    let rhs = msgs_of(vs.push(v));
    assert(views_of(ms).len() == ms.len());
    assert(msgs_of(vs).len() == vs.len());
    assert(ms.len() == vs.len());
    assert(lhs.len() == ms.len() + 1);
    assert(rhs.len() == vs.len() + 1);
    assert forall|n: int| 0 <= n < lhs.len() implies lhs[n] == rhs[n] by {
        if n < ms.len() {
            assert(lhs[n] == ms.push(m)[n]@);
            assert(ms.push(m)[n] == ms[n]);
            assert(views_of(ms)[n] == ms[n]@);
            assert(rhs[n] == msg_of(vs.push(v)[n]));
            assert(vs.push(v)[n] == vs[n]);
            assert(msgs_of(vs)[n] == msg_of(vs[n]));
        } else {
            assert(ms.push(m)[n] == m);
            assert(vs.push(v)[n] == v);
        }
    }
    assert(lhs =~= rhs);
}

/// Relies on std::path::Path::exists: asks the filesystem whether `p` names
/// an existing entry. The answer depends on the machine's disk state at the
/// moment of the call, so nothing further is promised of it.
#[verifier::external_body]
fn fs_exists(p: &String) -> bool {
    std::path::Path::new(p.as_str()).exists()
}

fn mk_msg(prefix: &str, val: &String) -> (r: String)
    ensures
        r@ == prefix@ + val@,
{
    let mut s = String::from_str(prefix);
    s.append(val.as_str());
    s
}

fn mk_msg_wrap(prefix: &str, val: &String, suffix: &str) -> (r: String)
    ensures
        r@ == prefix@ + val@ + suffix@,
{
    let mut s = String::from_str(prefix);
    s.append(val.as_str());
    s.append(suffix);
    s
}

fn check_method(m: &String) -> (r: bool)
    ensures
        r == is_known_method(m@),
{
    ||| str_eq_ignore_case(m.as_str(), "local")
    ||| str_eq_ignore_case(m.as_str(), "git")
    ||| str_eq_ignore_case(m.as_str(), "gdrive")
    ||| str_eq_ignore_case(m.as_str(), "pdrive")
    ||| str_eq_ignore_case(m.as_str(), "dropbox")
}

fn check_interval(s: &String) -> (r: bool)
    ensures
        r == valid_interval(s@),
{
    let n = s.as_str().unicode_len();
    if n == 0 {
        return false;
    }
    let has = contains_digit(s.as_str());
    let last = s.as_str().get_char(n - 1);
    has && (last == 'd' || last == 'h' || last == 'm')
}

fn check_local_dest(s: &String) -> (r: bool)
    ensures
        r == is_local_dest(s@),
{
    str_has_prefix(s.as_str(), "/") || str_has_prefix(s.as_str(), "./")
}

fn check_remote_dest(s: &String) -> (r: bool)
    ensures
        r == is_remote_dest(s@),
{
    str_has_prefix(s.as_str(), "git@") || str_has_prefix(s.as_str(), "https://")
}

impl Config {
    /// Exhaustive validation against given filesystem answers: `path_exists`
    /// holds, per declared path, whether its location exists; `dest_exists`
    /// holds, per declared path, whether its destination exists, consulted
    /// only where the destination is written as a local path. Succeeds if and
    /// only if no rule is violated; otherwise every violation found stands as
    /// one line of the failure message, in checking order.
    #[verifier::rlimit(100)]
    pub fn validate_with(&self, path_exists: &Vec<bool>, dest_exists: &Vec<bool>) -> (r: Result<
        (),
        ConfigError,
    >)
        requires
            path_exists@.len() == self@.backup_paths.len(),
            dest_exists@.len() == self@.backup_paths.len(),
        ensures
            validate_decision(self@, path_exists@, dest_exists@, r),
    {
        let mut msgs: Vec<String> = Vec::new();
        let ghost mut acc: Seq<ViolationView> = Seq::empty();
        proof {
            assert(views_of(msgs@) =~= msgs_of(acc));
        }
        if let Some(d) = &self.global.default_profile {
            if self.find_profile(d).is_none() {
                let m = mk_msg_wrap("Default profile '", d, "' not found");
                proof {
                    let v = ViolationView::DefaultProfileNotFound { name: d@ };
                    lemma_rel_push(msgs@, m, acc, v);
                    acc = acc.push(v);
                }
                msgs.push(m);
            }
        }
        proof {
            assert(acc =~= global_viols(self@));
        }
        let mut i: usize = 0;
        while i < self.backup_paths.len()
            invariant
                0 <= i <= self.backup_paths@.len(),
                self@.backup_paths.len() == self.backup_paths@.len(),
                path_exists@.len() == self@.backup_paths.len(),
                dest_exists@.len() == self@.backup_paths.len(),
                views_of(msgs@) == msgs_of(acc),
                acc == global_viols(self@) + paths_viols(
                    self@,
                    path_exists@,
                    dest_exists@,
                    i as int,
                ),
            decreases self.backup_paths@.len() - i,
        {
            let bp = &self.backup_paths[i];
            proof {
                assert(self@.backup_paths[i as int] == bp@);
            }
            let ghost acc0 = acc;
            if !path_exists[i] {
                let m = mk_msg("Path does not exist: ", &bp.path);
                proof {
                    let v = ViolationView::PathMissing { path: bp@.path };
                    lemma_rel_push(msgs@, m, acc, v);
                    acc = acc.push(v);
                }
                msgs.push(m);
            }
            if let Some(profile_name) = &bp.profile {
                if self.find_profile(profile_name).is_none() {
                    let m = mk_msg("Referenced profile not found: ", profile_name);
                    proof {
                        let v = ViolationView::ProfileNotFound { name: profile_name@ };
                        lemma_rel_push(msgs@, m, acc, v);
                        acc = acc.push(v);
                    }
                    msgs.push(m);
                }
            }
            let ghost acc1 = acc;
            if let Some(methods) = &bp.backup_method {
                let ghost ms = methods.deep_view();
                let mut j: usize = 0;
                proof {
                    assert(method_viols(ms.take(0)) =~= Seq::empty());
                    assert(acc =~= acc1 + method_viols(ms.take(0)));
                }
                while j < methods.len()
                    invariant
                        0 <= j <= methods@.len(),
                        ms == methods.deep_view(),
                        views_of(msgs@) == msgs_of(acc),
                        acc == acc1 + method_viols(ms.take(j as int)),
                    decreases methods@.len() - j,
                {
                    if !check_method(&methods[j]) {
                        let m = mk_msg("Invalid backup method: ", &methods[j]);
                        proof {
                            let v = ViolationView::MethodUnknown { method: ms[j as int] };
                            lemma_rel_push(msgs@, m, acc, v);
                            acc = acc.push(v);
                        }
                        msgs.push(m);
                    }
                    proof {
                        assert(ms.take(j as int + 1).drop_last() =~= ms.take(j as int));
                        assert(ms.take(j as int + 1).last() == ms[j as int]);
                        assert(acc =~= acc1 + method_viols(ms.take(j as int + 1)));
                    }
                    j += 1;
                }
                proof {
                    assert(ms.take(methods@.len() as int) =~= ms);
                    assert(bp@.backup_method == Some(ms));
                }
            }
            if let Some(interval) = &bp.interval {
                if !check_interval(interval) {
                    let m = mk_msg("Invalid interval format: ", interval);
                    proof {
                        let v = ViolationView::IntervalMalformed { interval: interval@ };
                        lemma_rel_push(msgs@, m, acc, v);
                        acc = acc.push(v);
                    }
                    msgs.push(m);
                }
            }
            if let Some(dest) = &bp.backup_to {
                if check_local_dest(dest) {
                    if !dest_exists[i] {
                        let m = mk_msg("Backup destination not accessible: ", dest);
                        proof {
                            let v = ViolationView::DestinationMissing { dest: dest@ };
                            lemma_rel_push(msgs@, m, acc, v);
                            acc = acc.push(v);
                        }
                        msgs.push(m);
                    }
                } else if !check_remote_dest(dest) {
                    let m = mk_msg("Invalid backup destination format: ", dest);
                    proof {
                        let v = ViolationView::DestinationMalformed { dest: dest@ };
                        lemma_rel_push(msgs@, m, acc, v);
                        acc = acc.push(v);
                    }
                    msgs.push(m);
                }
            }
            proof {
                assert(acc =~= acc0 + path_viols(
                    self@,
                    bp@,
                    path_exists@[i as int],
                    dest_exists@[i as int],
                ));
                assert(acc =~= global_viols(self@) + paths_viols(
                    self@,
                    path_exists@,
                    dest_exists@,
                    i as int + 1,
                ));
            }
            i += 1;
        }
        let resolved = self.resolve_backup_paths();
        let ghost accp = acc;
        let mut k: usize = 0;
        proof {
            assert(resolved_viols(self@, 0) =~= Seq::empty());
            assert(acc =~= accp + resolved_viols(self@, 0));
        }
        while k < resolved.len()
            invariant
                0 <= k <= resolved@.len(),
                resolved@.len() == self@.backup_paths.len(),
                forall|n: int|
                    0 <= n < resolved@.len() ==> #[trigger] resolved@[n]@ == spec_resolve_one(
                        self@,
                        self@.backup_paths[n],
                    ),
                views_of(msgs@) == msgs_of(acc),
                acc == accp + resolved_viols(self@, k as int),
            decreases resolved@.len() - k,
        {
            let entry = &resolved[k];
            proof {
                assert(entry@ == spec_resolve_one(self@, self@.backup_paths[k as int]));
            }
            if entry.backup_method.is_none() {
                let m = mk_msg("No backup method specified for path: ", &entry.path);
                proof {
                    let v = ViolationView::MethodUnresolved { path: entry@.path };
                    lemma_rel_push(msgs@, m, acc, v);
                    acc = acc.push(v);
                }
                msgs.push(m);
            }
            if entry.backup_to.is_none() {
                let m = mk_msg("No backup destination specified for path: ", &entry.path);
                proof {
                    let v = ViolationView::DestinationUnresolved { path: entry@.path };
                    lemma_rel_push(msgs@, m, acc, v);
                    acc = acc.push(v);
                }
                msgs.push(m);
            }
            proof {
                assert(acc =~= accp + resolved_viols(self@, k as int + 1));
            }
            k += 1;
        }
        proof {
            assert(acc =~= spec_violations(self@, path_exists@, dest_exists@));
        }
        if msgs.is_empty() {
            proof {
                assert(msgs_of(acc).len() == 0);
            }
            Ok(())
        } else {
            let joined = join_lines(&msgs);
            Err(ConfigError::Invalid(joined))
        }
    }

    /// Exhaustive validation against the machine's filesystem: the location
    /// of every declared path, and every destination written as a local path,
    /// is looked up on disk; the verdict is exact for whatever answers the
    /// disk gave.
    pub fn validate(&self) -> (r: Result<(), ConfigError>)
        ensures
            exists|pe: Seq<bool>, de: Seq<bool>|
                pe.len() == self@.backup_paths.len() && de.len() == self@.backup_paths.len()
                    && #[trigger] validate_decision(self@, pe, de, r),
    {
        let mut pe: Vec<bool> = Vec::new();
        let mut de: Vec<bool> = Vec::new();
        let mut i: usize = 0;
        while i < self.backup_paths.len()
            invariant
                0 <= i <= self.backup_paths@.len(),
                self@.backup_paths.len() == self.backup_paths@.len(),
                pe@.len() == i,
                de@.len() == i,
            decreases self.backup_paths@.len() - i,
        {
            let bp = &self.backup_paths[i];
            pe.push(fs_exists(&bp.path));
            let d = match &bp.backup_to {
                Some(dest) => if check_local_dest(dest) {
                    fs_exists(dest)
                } else {
                    false
                },
                None => false,
            };
            de.push(d);
            i += 1;
        }
        let r = self.validate_with(&pe, &de);
        proof {
            assert(validate_decision(self@, pe@, de@, r));
        }
        r
    }
}

/// No character of `s` is a newline.
pub open spec fn nl_free(s: Seq<char>) -> bool {
    forall|i: int| 0 <= i < s.len() ==> #[trigger] s[i] != '\n'
}

/// The string carried by a violation contains no newline itself.
pub open spec fn nl_free_violation(v: ViolationView) -> bool {
    match v {
        ViolationView::DefaultProfileNotFound { name } => nl_free(name),
        ViolationView::PathMissing { path } => nl_free(path),
        ViolationView::ProfileNotFound { name } => nl_free(name),
        ViolationView::MethodUnknown { method } => nl_free(method),
        ViolationView::IntervalMalformed { interval } => nl_free(interval),
        ViolationView::DestinationMissing { dest } => nl_free(dest),
        ViolationView::DestinationMalformed { dest } => nl_free(dest),
        ViolationView::MethodUnresolved { path } => nl_free(path),
        ViolationView::DestinationUnresolved { path } => nl_free(path),
    }
}

proof fn lemma_parts_nl_free(a: Seq<char>, b: Seq<char>)
    requires
        count_char(a, '\n') == 0,
        nl_free(b),
    ensures
        count_char(a + b, '\n') == 0,
{
    lemma_count_char_zero(b, '\n');
    lemma_count_char_add(a, b, '\n');
}

/// The message of a violation whose carried string is newline-free is itself
/// newline-free.
pub proof fn lemma_msg_nl_free(v: ViolationView)
    requires
        nl_free_violation(v),
    ensures
        count_char(msg_of(v), '\n') == 0,
{
    match v {
        ViolationView::DefaultProfileNotFound { name } => {
            reveal_strlit("Default profile '");
            reveal_strlit("' not found");
            let a = "Default profile '"@;
            let b = "' not found"@;
            assert(forall|i: int| 0 <= i < a.len() ==> #[trigger] a[i] != '\n');
            lemma_count_char_zero(a, '\n');
            lemma_parts_nl_free(a, name);
            assert(forall|i: int| 0 <= i < b.len() ==> #[trigger] b[i] != '\n');
            lemma_count_char_zero(b, '\n');
            lemma_count_char_add(a + name, b, '\n');
        },
        ViolationView::PathMissing { path } => {
            reveal_strlit("Path does not exist: ");
            let a = "Path does not exist: "@;
            assert(forall|i: int| 0 <= i < a.len() ==> #[trigger] a[i] != '\n');
            lemma_count_char_zero(a, '\n');
            lemma_parts_nl_free(a, path);
        },
        ViolationView::ProfileNotFound { name } => {
            reveal_strlit("Referenced profile not found: ");
            let a = "Referenced profile not found: "@;
            assert(forall|i: int| 0 <= i < a.len() ==> #[trigger] a[i] != '\n');
            lemma_count_char_zero(a, '\n');
            lemma_parts_nl_free(a, name);
        },
        ViolationView::MethodUnknown { method } => {
            reveal_strlit("Invalid backup method: ");
            let a = "Invalid backup method: "@;
            assert(forall|i: int| 0 <= i < a.len() ==> #[trigger] a[i] != '\n');
            lemma_count_char_zero(a, '\n');
            lemma_parts_nl_free(a, method);
        },
        ViolationView::IntervalMalformed { interval } => {
            reveal_strlit("Invalid interval format: ");
            let a = "Invalid interval format: "@;
            assert(forall|i: int| 0 <= i < a.len() ==> #[trigger] a[i] != '\n');
            lemma_count_char_zero(a, '\n');
            lemma_parts_nl_free(a, interval);
        },
        ViolationView::DestinationMissing { dest } => {
            reveal_strlit("Backup destination not accessible: ");
            let a = "Backup destination not accessible: "@;
            assert(forall|i: int| 0 <= i < a.len() ==> #[trigger] a[i] != '\n');
            lemma_count_char_zero(a, '\n');
            lemma_parts_nl_free(a, dest);
        },
        ViolationView::DestinationMalformed { dest } => {
            reveal_strlit("Invalid backup destination format: ");
            let a = "Invalid backup destination format: "@;
            assert(forall|i: int| 0 <= i < a.len() ==> #[trigger] a[i] != '\n');
            lemma_count_char_zero(a, '\n');
            lemma_parts_nl_free(a, dest);
        },
        ViolationView::MethodUnresolved { path } => {
            reveal_strlit("No backup method specified for path: ");
            let a = "No backup method specified for path: "@;
            assert(forall|i: int| 0 <= i < a.len() ==> #[trigger] a[i] != '\n');
            lemma_count_char_zero(a, '\n');
            lemma_parts_nl_free(a, path);
        },
        ViolationView::DestinationUnresolved { path } => {
            reveal_strlit("No backup destination specified for path: ");
            let a = "No backup destination specified for path: "@;
            assert(forall|i: int| 0 <= i < a.len() ==> #[trigger] a[i] != '\n');
            lemma_count_char_zero(a, '\n');
            lemma_parts_nl_free(a, path);
        },
    }
}

/// Law: the failure message loses and duplicates nothing. Joining the
/// messages of `n` violations yields exactly `n` lines (that is, `n - 1`
/// newlines), provided no string declared in the document itself contains a
/// newline — a document whose own path text embeds a newline breaks the
/// line-per-violation reading, and is left out here.
pub proof fn lemma_message_line_count(vs: Seq<ViolationView>)
    requires
        vs.len() > 0,
        forall|i: int| 0 <= i < vs.len() ==> nl_free_violation(#[trigger] vs[i]),
    ensures
        count_char(spec_join(msgs_of(vs)), '\n') == vs.len() - 1,
{
    assert forall|i: int| 0 <= i < msgs_of(vs).len() implies count_char(
        #[trigger] msgs_of(vs)[i],
        '\n',
    ) == 0 by {
        lemma_msg_nl_free(vs[i]);
    }
    lemma_join_line_count(msgs_of(vs));
}

} // verus!
