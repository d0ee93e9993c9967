//! The backup lifecycle orchestrator: the step-by-step decisions of one
//! database backup, the batch runner over many targets, the retention sweep
//! over host-stored artifacts, and the catalog lister. The filesystem and the
//! container runtime are driven at the process boundary; every decision about
//! their results is made and proved here.
use vstd::prelude::*;

use crate::config::DatabaseConfig;
use crate::docker::DockerManager;
use crate::error::BackupError;
use crate::text::contains_seq;
use crate::text::contains_substring;
use crate::text::lemma_lex_leq_total;
use crate::text::lemma_lex_leq_trans;
use crate::text::lex_leq;
use crate::text::str_leq;

verus! {

use vstd::multiset::Multiset;
use vstd::string::StringExecFns;

/// Orchestrates backups end-to-end and owns the host-side backup root.
pub struct BackupManager {
    /// The container runtime gateway.
    pub docker: DockerManager,
    /// The host directory that stores backup artifacts.
    pub host_backup_dir: String,
}

impl BackupManager {
    /// Creates a manager that stores artifacts under `host_backup_dir`.
    pub fn new(host_backup_dir: String) -> (r: Self)
        ensures
            r.host_backup_dir == host_backup_dir,
    {
        BackupManager { docker: DockerManager::new(), host_backup_dir }
    }
}

/// Where one backup stands. The phases run strictly in this order: ensure
/// the host root, trigger the remote backup, transfer the artifact, clean up
/// the remote copy; then the backup is complete or has failed.
pub enum BackupPhase {
    /// Ensuring the host backup root exists.
    EnsuringHostDir,
    /// Triggering the remote backup inside the container.
    RunningBackup,
    /// Transferring the artifact from the container to the host.
    CopyingToHost {
        /// Where the artifact sits inside the container.
        container_path: String,
    },
    /// Removing the artifact's remote copy, the host copy being safe.
    CleaningRemote {
        /// Where the artifact sits inside the container.
        container_path: String,
        /// Where the artifact now sits on the host.
        host_path: String,
    },
    /// The backup succeeded; the artifact sits at `host_path`.
    Complete {
        /// Where the artifact sits on the host.
        host_path: String,
    },
    /// The backup failed and was abandoned.
    Failed {
        /// Why the backup failed.
        error: BackupError,
    },
}

/// What one gateway step reported.
pub enum GatewayEvent {
    /// The host backup root exists.
    DirEnsured,
    /// The host backup root could not be created.
    DirFailed {
        /// The filesystem error.
        error: BackupError,
    },
    /// The remote backup was produced at `container_path`.
    BackupProduced {
        /// Where the artifact was written inside the container.
        container_path: String,
    },
    /// The remote backup trigger failed.
    BackupFailed {
        /// The runtime error.
        error: BackupError,
    },
    /// The artifact was copied to `host_path`.
    CopyCompleted {
        /// Where the artifact was written on the host.
        host_path: String,
    },
    /// The transfer to the host failed.
    CopyFailed {
        /// The runtime error.
        error: BackupError,
    },
    /// The remote copy was removed.
    CleanupCompleted,
    /// Removing the remote copy failed; this is advisory only.
    CleanupFailed {
        /// The runtime error, logged and swallowed.
        error: BackupError,
    },
}

/// The transition table of one backup. A failure event aborts the backup
/// with its error — except at the remote-cleanup step, where either outcome
/// completes the backup with the host artifact path, because an orphaned
/// remote artifact is acceptable and a failed backup due to cleanup is not.
/// An event that does not belong to the phase is refused.
pub open spec fn spec_advance(phase: BackupPhase, event: GatewayEvent) -> Option<BackupPhase> {
    match phase {
        BackupPhase::EnsuringHostDir => match event {
            GatewayEvent::DirEnsured => Some(BackupPhase::RunningBackup),
            GatewayEvent::DirFailed { error } => Some(BackupPhase::Failed { error }),
            _ => None,
        },
        BackupPhase::RunningBackup => match event {
            GatewayEvent::BackupProduced { container_path } => Some(
                BackupPhase::CopyingToHost { container_path },
            ),
            GatewayEvent::BackupFailed { error } => Some(BackupPhase::Failed { error }),
            _ => None,
        },
        BackupPhase::CopyingToHost { container_path } => match event {
            GatewayEvent::CopyCompleted { host_path } => Some(
                BackupPhase::CleaningRemote { container_path, host_path },
            ),
            GatewayEvent::CopyFailed { error } => Some(BackupPhase::Failed { error }),
            _ => None,
        },
        BackupPhase::CleaningRemote { container_path, host_path } => match event {
            GatewayEvent::CleanupCompleted => Some(BackupPhase::Complete { host_path }),
            GatewayEvent::CleanupFailed { error } => Some(BackupPhase::Complete { host_path }),
            _ => None,
        },
        BackupPhase::Complete { host_path } => None,
        BackupPhase::Failed { error } => None,
    }
}

impl BackupManager {
    /// Advances one backup by one gateway step, following `spec_advance`.
    pub fn advance(&self, phase: BackupPhase, event: GatewayEvent) -> (r: Option<BackupPhase>)
        ensures
            r == spec_advance(phase, event),
    {
        match phase {
            BackupPhase::EnsuringHostDir => match event {
                GatewayEvent::DirEnsured => Some(BackupPhase::RunningBackup),
                GatewayEvent::DirFailed { error } => Some(BackupPhase::Failed { error }),
                _ => None,
            },
            BackupPhase::RunningBackup => match event {
                GatewayEvent::BackupProduced { container_path } => Some(
                    BackupPhase::CopyingToHost { container_path },
                ),
                GatewayEvent::BackupFailed { error } => Some(BackupPhase::Failed { error }),
                _ => None,
            },
            BackupPhase::CopyingToHost { container_path } => match event {
                GatewayEvent::CopyCompleted { host_path } => Some(
                    BackupPhase::CleaningRemote { container_path, host_path },
                ),
                GatewayEvent::CopyFailed { error } => Some(BackupPhase::Failed { error }),
                _ => None,
            },
            BackupPhase::CleaningRemote { container_path, host_path } => match event {
                GatewayEvent::CleanupCompleted => Some(BackupPhase::Complete { host_path }),
                GatewayEvent::CleanupFailed { error } => Some(
                    BackupPhase::Complete { host_path },
                ),
                _ => None,
            },
            BackupPhase::Complete { host_path } => None,
            BackupPhase::Failed { error } => None,
        }
    }
}

/// Remote cleanup is advisory: at the cleanup step, the backup completes
/// with the host artifact path whether the cleanup succeeded or failed.
pub proof fn lemma_cleanup_never_fails_backup(
    container_path: String,
    host_path: String,
    event: GatewayEvent,
)
    requires
        event is CleanupCompleted || event is CleanupFailed,
    ensures
        spec_advance(BackupPhase::CleaningRemote { container_path, host_path }, event) == Some(
            BackupPhase::Complete { host_path },
        ),
{
}

/// The message collected for a target whose backup failed.
pub open spec fn spec_failure_message(name: Seq<char>, error: BackupError) -> Seq<char> {
    "Failed to backup "@ + name + ": "@ + error.spec_message()
}

/// The success pairs of a batch: for every target whose backup succeeded, in
/// order, its identity name and the host artifact path.
pub open spec fn spec_successes(outcomes: Seq<(String, Result<String, BackupError>)>) -> Seq<
    (String, String),
>
    decreases outcomes.len(),
{
    if outcomes.len() == 0 {
        Seq::empty()
    } else {
        let rest = spec_successes(outcomes.skip(1));
        match outcomes[0].1 {
            Ok(path) => seq![(outcomes[0].0, path)] + rest,
            Err(_) => rest,
        }
    }
}

/// The failure messages of a batch: one formatted message for every target
/// whose backup failed, in order.
pub open spec fn spec_failures(outcomes: Seq<(String, Result<String, BackupError>)>) -> Seq<
    Seq<char>,
>
    decreases outcomes.len(),
{
    if outcomes.len() == 0 {
        Seq::empty()
    } else {
        let rest = spec_failures(outcomes.skip(1));
        match outcomes[0].1 {
            Ok(_) => rest,
            Err(e) => seq![spec_failure_message(outcomes[0].0@, e)] + rest,
        }
    }
}

/// How many outcomes of the batch are failures.
pub open spec fn spec_failure_count(outcomes: Seq<(String, Result<String, BackupError>)>) -> int
    decreases outcomes.len(),
{
    if outcomes.len() == 0 {
        0
    } else {
        (if outcomes[0].1 is Err {
            1int
        } else {
            0int
        }) + spec_failure_count(outcomes.skip(1))
    }
}

/// A batch over `N` targets of which `M` fail yields exactly `N - M` success
/// pairs and exactly `M` failure messages; every target is accounted for.
pub proof fn lemma_batch_partition(outcomes: Seq<(String, Result<String, BackupError>)>)
    ensures
        spec_failures(outcomes).len() == spec_failure_count(outcomes),
        spec_successes(outcomes).len() == outcomes.len() - spec_failure_count(outcomes),
    decreases outcomes.len(),
{
    if outcomes.len() > 0 {
        lemma_batch_partition(outcomes.skip(1));
    }
}

impl BackupManager {
    /// Collects the per-target outcomes of a batch run. Targets were
    /// attempted in the order given, one at a time, and no failure stopped
    /// the batch: every outcome lands either in the success list or, as a
    /// formatted message, in the failure list.
    pub fn collect_backup_outcomes(&self, outcomes: Vec<(String, Result<String, BackupError>)>)
        -> (r: (Vec<(String, String)>, Vec<String>))
        ensures
            r.0@ == spec_successes(outcomes@),
            r.1.deep_view() == spec_failures(outcomes@),
    {
        let mut successes: Vec<(String, String)> = Vec::new();
        let mut failures: Vec<String> = Vec::new();
        let mut i: usize = 0;
        proof {
            assert(outcomes@.skip(0) =~= outcomes@);
            assert(successes@ + spec_successes(outcomes@) =~= spec_successes(outcomes@));
            assert(failures.deep_view() + spec_failures(outcomes@) =~= spec_failures(outcomes@));
        }
        while i < outcomes.len()
            invariant
                i <= outcomes@.len(),
                spec_successes(outcomes@) == successes@ + spec_successes(
                    outcomes@.skip(i as int),
                ),
                spec_failures(outcomes@) == failures.deep_view() + spec_failures(
                    outcomes@.skip(i as int),
                ),
            decreases outcomes@.len() - i,
        {
            let ghost suffix = outcomes@.skip(i as int);
            proof {
                assert(suffix[0] == outcomes@[i as int]);
                assert(suffix.skip(1) =~= outcomes@.skip(i as int + 1));
            }
            let pair = &outcomes[i];
            match &pair.1 {
                Ok(path) => {
                    let ghost before = successes@;
                    successes.push((pair.0.clone(), path.clone()));
                    proof {
                        assert(successes@ =~= before + seq![(suffix[0].0, suffix[0].1->Ok_0)]);
                    }
                },
                Err(e) => {
                    let ghost before = failures.deep_view();
                    let message = "Failed to backup ".to_owned().concat(pair.0.as_str()).concat(
                        ": ",
                    ).concat(e.message().as_str());
                    failures.push(message);
                    proof {
                        assert(failures.deep_view() =~= before + seq![
                            spec_failure_message(suffix[0].0@, suffix[0].1->Err_0),
                        ]);
                    }
                },
            }
            i = i + 1;
        }
        proof {
            assert(outcomes@.skip(outcomes@.len() as int) =~= Seq::<
                (String, Result<String, BackupError>),
            >::empty());
            assert(successes@ + Seq::<(String, String)>::empty() =~= successes@);
            assert(failures.deep_view() + Seq::<Seq<char>>::empty() =~= failures.deep_view());
        }
        (successes, failures)
    }
}

/// One host-stored artifact as the retention sweep sees it: its filename and
/// its filesystem modification time in seconds since the Unix epoch.
#[derive(Debug)]
pub struct ArtifactEntry {
    /// The artifact's filename, without its directory.
    pub filename: String,
    /// The artifact's modification time, in seconds since the Unix epoch.
    pub modified_secs: i64,
}

/// The artifact falls to the retention sweep for this target: its filename
/// contains the target's subject identifier and it was modified strictly
/// before the cutoff. Matching is by substring, so a subject identifier that
/// is contained in another's also matches that other's artifacts; this
/// ambiguity is by design.
pub open spec fn spec_expired(entry: ArtifactEntry, database_name: Seq<char>, cutoff: int) -> bool {
    contains_seq(entry.filename@, database_name) && (entry.modified_secs as int) < cutoff
}

/// The filenames the retention sweep removes, in directory order.
pub open spec fn spec_expired_selection(
    entries: Seq<ArtifactEntry>,
    database_name: Seq<char>,
    cutoff: int,
) -> Seq<String>
    decreases entries.len(),
{
    if entries.len() == 0 {
        Seq::empty()
    } else {
        let rest = spec_expired_selection(entries.skip(1), database_name, cutoff);
        if spec_expired(entries[0], database_name, cutoff) {
            seq![entries[0].filename] + rest
        } else {
            rest
        }
    }
}

/// The entries the retention sweep leaves in place.
pub open spec fn spec_surviving(
    entries: Seq<ArtifactEntry>,
    database_name: Seq<char>,
    cutoff: int,
) -> Seq<ArtifactEntry>
    decreases entries.len(),
{
    if entries.len() == 0 {
        Seq::empty()
    } else {
        let rest = spec_surviving(entries.skip(1), database_name, cutoff);
        if spec_expired(entries[0], database_name, cutoff) {
            rest
        } else {
            seq![entries[0]] + rest
        }
    }
}

/// A filename whose text does not contain the subject identifier is never
/// selected for deletion, regardless of its age.
pub proof fn lemma_nonmatching_never_deleted(
    entries: Seq<ArtifactEntry>,
    database_name: Seq<char>,
    cutoff: int,
)
    ensures
        forall|k: int|
            0 <= k < spec_expired_selection(entries, database_name, cutoff).len()
                ==> contains_seq(
                #[trigger] spec_expired_selection(entries, database_name, cutoff)[k]@,
                database_name,
            ),
    decreases entries.len(),
{
    if entries.len() > 0 {
        lemma_nonmatching_never_deleted(entries.skip(1), database_name, cutoff);
        let sel = spec_expired_selection(entries, database_name, cutoff);
        let rest = spec_expired_selection(entries.skip(1), database_name, cutoff);
        assert forall|k: int| 0 <= k < sel.len() implies contains_seq(sel[k]@, database_name) by {
            if spec_expired(entries[0], database_name, cutoff) {
                if k == 0 {
                    assert(sel[k] == entries[0].filename);
                } else {
                    assert(sel[k] == rest[k - 1]);
                }
            } else {
                assert(sel[k] == rest[k]);
            }
        }
    }
}

/// The sweep accounts for every entry: each is deleted or survives, and a
/// survivor is never one that fell to the sweep.
pub proof fn lemma_retention_partition(
    entries: Seq<ArtifactEntry>,
    database_name: Seq<char>,
    cutoff: int,
)
    ensures
        spec_expired_selection(entries, database_name, cutoff).len() + spec_surviving(
            entries,
            database_name,
            cutoff,
        ).len() == entries.len(),
        forall|k: int|
            0 <= k < spec_surviving(entries, database_name, cutoff).len() ==> !spec_expired(
                #[trigger] spec_surviving(entries, database_name, cutoff)[k],
                database_name,
                cutoff,
            ),
    decreases entries.len(),
{
    if entries.len() > 0 {
        lemma_retention_partition(entries.skip(1), database_name, cutoff);
        let surv = spec_surviving(entries, database_name, cutoff);
        let rest = spec_surviving(entries.skip(1), database_name, cutoff);
        if !spec_expired(entries[0], database_name, cutoff) {
            assert forall|k: int| 0 <= k < surv.len() implies !spec_expired(
                surv[k],
                database_name,
                cutoff,
            ) by {
                if k == 0 {
                    assert(surv[k] == entries[0]);
                } else {
                    assert(surv[k] == rest[k - 1]);
                }
            }
        }
    }
}

/// Sweeping twice at the same cutoff deletes nothing the second time: after
/// the survivors of one sweep, the next selection is empty.
pub proof fn lemma_cleanup_idempotent(
    entries: Seq<ArtifactEntry>,
    database_name: Seq<char>,
    cutoff: int,
)
    ensures
        spec_expired_selection(spec_surviving(entries, database_name, cutoff), database_name, cutoff)
            =~= Seq::<String>::empty(),
    decreases entries.len(),
{
    if entries.len() > 0 {
        lemma_cleanup_idempotent(entries.skip(1), database_name, cutoff);
        if !spec_expired(entries[0], database_name, cutoff) {
            let survivors = spec_surviving(entries, database_name, cutoff);
            let rest = spec_surviving(entries.skip(1), database_name, cutoff);
            assert(survivors =~= seq![entries[0]] + rest);
            assert(survivors[0] == entries[0]);
            assert(survivors.skip(1) =~= rest);
        }
    }
}

impl BackupManager {
    /// The cutoff instant of the retention window: `retention_days` days
    /// before `now_secs`. Computed exactly, with room to spare below the
    /// range of timestamps.
    pub fn retention_cutoff(&self, now_secs: i64, retention_days: u32) -> (r: i128)
        ensures
            r as int == now_secs as int - retention_days as int * 86400,
    {
        (now_secs as i128) - (retention_days as i128) * 86400
    }

    /// The retention decision over a directory scan: exactly those entries
    /// whose filename contains the target's subject identifier and whose
    /// modification time lies strictly before the cutoff, in scan order.
    pub fn select_expired_backups(
        &self,
        entries: &Vec<ArtifactEntry>,
        database_name: &str,
        cutoff_secs: i128,
    ) -> (r: Vec<String>)
        ensures
            r@ == spec_expired_selection(entries@, database_name@, cutoff_secs as int),
    {
        let ghost cutoff = cutoff_secs as int;
        let mut selected: Vec<String> = Vec::new();
        let mut i: usize = 0;
        proof {
            assert(entries@.skip(0) =~= entries@);
            assert(selected@ + spec_expired_selection(entries@, database_name@, cutoff)
                =~= spec_expired_selection(entries@, database_name@, cutoff));
        }
        while i < entries.len()
            invariant
                i <= entries@.len(),
                cutoff == cutoff_secs as int,
                spec_expired_selection(entries@, database_name@, cutoff) == selected@
                    + spec_expired_selection(entries@.skip(i as int), database_name@, cutoff),
            decreases entries@.len() - i,
        {
            let ghost suffix = entries@.skip(i as int);
            proof {
                assert(suffix[0] == entries@[i as int]);
                assert(suffix.skip(1) =~= entries@.skip(i as int + 1));
            }
            let entry = &entries[i];
            if contains_substring(entry.filename.as_str(), database_name) && (
            entry.modified_secs as i128) < cutoff_secs {
                let ghost before = selected@;
                selected.push(entry.filename.clone());
                proof {
                    assert(selected@ =~= before + seq![suffix[0].filename]);
                }
            }
            i = i + 1;
        }
        proof {
            assert(entries@.skip(entries@.len() as int) =~= Seq::<ArtifactEntry>::empty());
            assert(selected@ + Seq::<String>::empty() =~= selected@);
        }
        selected
    }
}

/// The filenames kept by the catalog lister: all of them, or, when a filter
/// is given, those containing it as a substring, in scan order.
pub open spec fn spec_name_filter(names: Seq<String>, flt: Option<Seq<char>>) -> Seq<String>
    decreases names.len(),
{
    if names.len() == 0 {
        Seq::empty()
    } else {
        let rest = spec_name_filter(names.skip(1), flt);
        let keep = match flt {
            Some(f) => contains_seq(names[0]@, f),
            None => true,
        };
        if keep {
            seq![names[0]] + rest
        } else {
            rest
        }
    }
}

/// The names read in ascending lexicographic order.
pub open spec fn sorted_lex(names: Seq<String>) -> bool {
    forall|p: int, q: int|
        0 <= p < q < names.len() ==> lex_leq(#[trigger] names[p]@, #[trigger] names[q]@)
}

/// Inserting an element anywhere in a sequence inserts it into the
/// sequence's multiset.
proof fn lemma_to_multiset_insert(s: Seq<String>, j: int, x: String)
    requires
        0 <= j <= s.len(),
    ensures
        s.insert(j, x).to_multiset() =~= s.to_multiset().insert(x),
{
    broadcast use vstd::seq_lib::group_to_multiset_ensures;
    broadcast use vstd::multiset::group_multiset_axioms;

    let t = s.take(j);
    let k = s.skip(j);
    assert(s =~= t + k);
    assert(s.insert(j, x) =~= t + (seq![x] + k));
    vstd::seq_lib::lemma_multiset_commutative(t, k);
    vstd::seq_lib::lemma_multiset_commutative(t, seq![x] + k);
    vstd::seq_lib::lemma_multiset_commutative(seq![x], k);
    assert(seq![x] =~= Seq::<String>::empty().push(x));
    assert(Seq::<String>::empty().push(x).to_multiset() =~= Seq::<
        String,
    >::empty().to_multiset().insert(x));
    assert forall|y: String| Seq::<String>::empty().to_multiset().count(y) == 0nat by {
        assert(!Seq::<String>::empty().contains(y));
    }
    assert(Seq::<String>::empty().to_multiset() =~= Multiset::<String>::empty());
    assert forall|y: String|
        s.insert(j, x).to_multiset().count(y) == s.to_multiset().insert(x).count(y) by {
        assert(s.insert(j, x).to_multiset().count(y) == t.to_multiset().count(y) + Multiset::<
            String,
        >::empty().insert(x).count(y) + k.to_multiset().count(y));
    }
}

/// Sorts filenames into ascending lexicographic order; the result holds
/// exactly the names it was given.
fn sort_names(v: &mut Vec<String>)
    ensures
        final(v)@.to_multiset() == old(v)@.to_multiset(),
        sorted_lex(final(v)@),
{
    broadcast use vstd::seq_lib::group_to_multiset_ensures;

    let ghost orig = v@;
    let mut i: usize = 1;
    while i < v.len()
        invariant
            1 <= i || v@.len() == 0,
            i <= v@.len() || v@.len() == 0,
            v@.to_multiset() == orig.to_multiset(),
            forall|p: int, q: int|
                0 <= p < q < i && q < v@.len() ==> lex_leq(
                    #[trigger] v@[p]@,
                    #[trigger] v@[q]@,
                ),
        decreases v@.len() - i,
    {
        let x_probe = &v[i];
        let mut j: usize = 0;
        while j < i && str_leq(v[j].as_str(), x_probe.as_str())
            invariant
                j <= i < v@.len(),
                x_probe == &v@[i as int],
                forall|p: int| 0 <= p < j ==> lex_leq(#[trigger] v@[p]@, v@[i as int]@),
            decreases i - j,
        {
            j = j + 1;
        }
        if j < i {
            let ghost before = v@;
            assert(!lex_leq(before[j as int]@, before[i as int]@));
            proof {
                lemma_lex_leq_total(before[j as int]@, before[i as int]@);
            }
            let x = v.remove(i);
            let ghost removed = v@;
            v.insert(j, x);
            proof {
                broadcast use vstd::seq_lib::group_to_multiset_ensures;

                lemma_to_multiset_insert(removed, j as int, x);
                assert(removed == before.remove(i as int));
                assert(before.remove(i as int).to_multiset() =~= before.to_multiset().remove(
                    before[i as int],
                ));
                assert(v@.to_multiset() =~= before.to_multiset().remove(
                    before[i as int],
                ).insert(before[i as int]));
                assert forall|y: String| v@.to_multiset().count(y) == before.to_multiset().count(
                    y,
                ) by {
                    broadcast use vstd::multiset::group_multiset_axioms;

                    assert(before.to_multiset().count(before[i as int]) >= 1) by {
                        assert(before.contains(before[i as int]));
                    }
                }
                assert(v@.to_multiset() =~= before.to_multiset());
                assert forall|p: int, q: int|
                    0 <= p < q < i + 1 && q < v@.len() implies lex_leq(
                    #[trigger] v@[p]@,
                    #[trigger] v@[q]@,
                ) by {
                    let x_val = before[i as int];
                    // The new order: [0..j) unchanged, x at j, the old
                    // [j..i) shifted one to the right.
                    assert(forall|t: int| 0 <= t < j ==> v@[t] == before[t]);
                    assert(v@[j as int] == x_val);
                    assert(forall|t: int| j < t <= i ==> v@[t] == before[t - 1]);
                    if q < j {
                    } else if q == j {
                        assert(lex_leq(before[p]@, x_val@));
                    } else if p == j {
                        // x goes before the old element at j, which is at
                        // most every element the old prefix held from j on.
                        assert(lex_leq(x_val@, before[j as int]@));
                        if q > j + 1 {
                            lemma_lex_leq_trans(x_val@, before[j as int]@, before[q - 1]@);
                        }
                    } else if p < j {
                        assert(lex_leq(before[p]@, before[q - 1]@));
                    } else {
                        assert(lex_leq(before[p - 1]@, before[q - 1]@));
                    }
                }
            }
        } else {
            assert(forall|p: int| 0 <= p < i ==> lex_leq(#[trigger] v@[p]@, v@[i as int]@));
        }
        i = i + 1;
    }
}

impl BackupManager {
    /// The catalog lister. `entries` is the directory scan of the host
    /// backup root, or nothing when the root does not exist; an absent or
    /// empty root yields an empty catalog, never an error. A given filter
    /// keeps only filenames containing it as a substring. The catalog holds
    /// exactly the kept filenames, in ascending lexicographic order.
    pub fn list_backups(&self, entries: Option<&Vec<String>>, database_name: Option<&str>) -> (r:
        Vec<String>)
        ensures
            sorted_lex(r@),
            match entries {
                None => r@ =~= Seq::<String>::empty(),
                Some(names) => r@.to_multiset() == spec_name_filter(
                    names@,
                    match database_name {
                        Some(f) => Some(f@),
                        None => None,
                    },
                ).to_multiset(),
            },
    {
        let ghost flt: Option<Seq<char>> = match database_name {
            Some(f) => Some(f@),
            None => None,
        };
        match entries {
            None => Vec::new(),
            Some(names) => {
                let mut kept: Vec<String> = Vec::new();
                let mut i: usize = 0;
                proof {
                    assert(names@.skip(0) =~= names@);
                    assert(kept@ + spec_name_filter(names@, flt) =~= spec_name_filter(
                        names@,
                        flt,
                    ));
                }
                while i < names.len()
                    invariant
                        i <= names@.len(),
                        flt == (match database_name {
                            Some(f) => Some(f@),
                            None => None::<Seq<char>>,
                        }),
                        spec_name_filter(names@, flt) == kept@ + spec_name_filter(
                            names@.skip(i as int),
                            flt,
                        ),
                    decreases names@.len() - i,
                {
                    let ghost suffix = names@.skip(i as int);
                    proof {
                        assert(suffix[0] == names@[i as int]);
                        assert(suffix.skip(1) =~= names@.skip(i as int + 1));
                    }
                    let keep = match database_name {
                        Some(f) => contains_substring(names[i].as_str(), f),
                        None => true,
                    };
                    if keep {
                        let ghost before = kept@;
                        kept.push(names[i].clone());
                        proof {
                            assert(kept@ =~= before + seq![suffix[0]]);
                        }
                    }
                    i = i + 1;
                }
                proof {
                    assert(names@.skip(names@.len() as int) =~= Seq::<String>::empty());
                    assert(kept@ + Seq::<String>::empty() =~= kept@);
                }
                sort_names(&mut kept);
                kept
            },
        }
    }
}

} // verus!
