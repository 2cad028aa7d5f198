//! The migration runner: tracks which prefix of a configured migration list
//! the ledger records, hands out the next pending migration, and aborts the
//! pass on the first failing script.

use vstd::prelude::*;
use crate::migration::{
    ConfigError, Migration, is_first_violation, ledger_is_prefix, list_error_at,
    strictly_ascending, validate_migrations, versions_of,
};

verus! {

/// A migration script failed: the pass aborts and surfaces the failing
/// version together with its label.
#[derive(Debug)]
pub struct ExecutionError {
    /// The version whose script failed.
    pub version: u64,
    /// The label of the failing migration.
    pub description: String,
}

/// One migration pass over a configured list.
///
/// The runner owns the decisions of the pass: the ledger it maintains is
/// always the ascending prefix of the configured versions that have been
/// applied, and after the first reported failure nothing further is offered.
pub struct Runner {
    migrations: Vec<Migration>,
    cursor: usize,
    failed: bool,
}

impl Runner {
    /// The configured migration list.
    pub closed spec fn migrations(&self) -> Seq<Migration> {
        self.migrations@
    }

    /// The ledger as this pass maintains it: every applied version, ascending.
    pub closed spec fn applied(&self) -> Seq<u64> {
        versions_of(self.migrations@).take(self.cursor as int)
    }

    /// Whether the pass has aborted on a failing script.
    pub closed spec fn has_failed(&self) -> bool {
        self.failed
    }

    /// The version whose script failed, once the pass has aborted.
    pub closed spec fn failed_version(&self) -> u64
        recommends
            self.has_failed(),
    {
        self.migrations@[self.cursor as int].version
    }

    /// Well-formedness: the configuration is valid, the ledger is a prefix of
    /// it, and a failed pass points at the migration that failed.
    pub closed spec fn wf(&self) -> bool {
        &&& strictly_ascending(versions_of(self.migrations@))
        &&& self.cursor <= self.migrations@.len()
        &&& (self.failed ==> self.cursor < self.migrations@.len())
    }

    /// Starts a pass: checks the list (unique, ascending versions) and that
    /// the ledger read from the database is an ascending prefix of it. On
    /// any violation nothing is built and the exact error says why.
    pub fn new(migrations: Vec<Migration>, applied: &Vec<u64>) -> (r: Result<Runner, ConfigError>)
        ensures
            r is Ok <==> (strictly_ascending(versions_of(migrations@))
                && ledger_is_prefix(migrations@, applied@)),
            r matches Ok(run) ==> run.wf() && run.migrations() == migrations@
                && run.applied() == applied@ && !run.has_failed(),
            !strictly_ascending(versions_of(migrations@)) ==> exists|i: int|
                #[trigger] is_first_violation(versions_of(migrations@), i)
                && r == Result::<Runner, ConfigError>::Err(
                    list_error_at(versions_of(migrations@), i)),
            !strictly_ascending(versions_of(migrations@)) ==> forall|i: int|
                #[trigger] is_first_violation(versions_of(migrations@), i)
                ==> r == Result::<Runner, ConfigError>::Err(
                    list_error_at(versions_of(migrations@), i)),
            strictly_ascending(versions_of(migrations@))
                && !ledger_is_prefix(migrations@, applied@)
                ==> r == Result::<Runner, ConfigError>::Err(ConfigError::CorruptLedger),
    {
        match validate_migrations(&migrations) {
            Err(e) => {
                return Err(e);
            },
            Ok(()) => {},
        }
        if applied.len() > migrations.len() {
            return Err(ConfigError::CorruptLedger);
        }
        let mut i: usize = 0;
        while i < applied.len()
            invariant
                strictly_ascending(versions_of(migrations@)),
                i <= applied@.len(),
                applied@.len() <= migrations@.len(),
                forall|k: int| 0 <= k < i ==> #[trigger] applied@[k] == migrations@[k].version,
            decreases applied@.len() - i,
        {
            if applied[i] != migrations[i].version {
                proof {
                    assert(!ledger_is_prefix(migrations@, applied@)) by {
                        assert(applied@[i as int] != migrations@[i as int].version);
                    }
                }
                return Err(ConfigError::CorruptLedger);
            }
            i += 1;
        }
        let cursor = applied.len();
        let run = Runner { migrations, cursor, failed: false };
        proof {
            assert(run.applied() =~= applied@);
        }
        Ok(run)
    }

    /// The migration due next: the first one whose version the ledger does
    /// not yet hold. Nothing is due once the list is exhausted or the pass
    /// has aborted.
    pub fn next_pending(&self) -> (r: Option<&Migration>)
        requires
            self.wf(),
        ensures
            match r {
                Some(m) => !self.has_failed()
                    && self.applied().len() < self.migrations().len()
                    && *m == self.migrations()[self.applied().len() as int],
                None => self.has_failed() || self.applied().len() == self.migrations().len(),
            },
    {
        if self.failed || self.cursor >= self.migrations.len() {
            None
        } else {
            Some(&self.migrations[self.cursor])
        }
    }

    /// The caller executed the pending migration's script and its ledger
    /// write in one transaction, successfully: the runner records its
    /// version as applied.
    pub fn record_success(&mut self)
        requires
            old(self).wf(),
            !old(self).has_failed(),
            old(self).applied().len() < old(self).migrations().len(),
        ensures
            final(self).wf(),
            !final(self).has_failed(),
            final(self).migrations() == old(self).migrations(),
            final(self).applied() == old(self).applied().push(
                old(self).migrations()[old(self).applied().len() as int].version),
    {
        let n = self.migrations.len();
        proof {
            let vs = versions_of(self.migrations@);
            assert(self.cursor < n);
            assert(vs.take(self.cursor as int + 1)
                =~= vs.take(self.cursor as int).push(vs[self.cursor as int]));
        }
        self.cursor = self.cursor + 1;
    }

    /// The caller reports that the pending migration's script failed: the
    /// pass aborts, the ledger stays as it was, and the returned error names
    /// the failing version and its label.
    pub fn record_failure(&mut self) -> (e: ExecutionError)
        requires
            old(self).wf(),
            !old(self).has_failed(),
            old(self).applied().len() < old(self).migrations().len(),
        ensures
            final(self).wf(),
            final(self).has_failed(),
            final(self).migrations() == old(self).migrations(),
            final(self).applied() == old(self).applied(),
            final(self).failed_version()
                == old(self).migrations()[old(self).applied().len() as int].version,
            e.version == final(self).failed_version(),
            e.description@
                == old(self).migrations()[old(self).applied().len() as int].description@,
    {
        self.failed = true;
        let m = &self.migrations[self.cursor];
        ExecutionError { version: m.version, description: m.description.clone() }
    }

    /// The ledger contents: every applied version, in ascending order.
    pub fn applied_versions(&self) -> (r: Vec<u64>)
        requires
            self.wf(),
        ensures
            r@ == self.applied(),
    {
        let mut out: Vec<u64> = Vec::new();
        let mut i: usize = 0;
        while i < self.cursor
            invariant
                i <= self.cursor,
                self.cursor <= self.migrations@.len(),
                out@.len() == i,
                forall|k: int| 0 <= k < i ==> #[trigger] out@[k] == self.migrations@[k].version,
            decreases self.cursor - i,
        {
            out.push(self.migrations[i].version);
            i += 1;
        }
        proof {
            assert(out@ =~= self.applied());
        }
        out
    }

    /// Whether every configured migration has been applied in this pass
    /// without a failure.
    pub fn is_complete(&self) -> (r: bool)
        requires
            self.wf(),
        ensures
            r == (!self.has_failed() && self.applied().len() == self.migrations().len()),
    {
        !self.failed && self.cursor == self.migrations.len()
    }

    /// Whether the pass has aborted on a failing script.
    pub fn has_aborted(&self) -> (r: bool)
        requires
            self.wf(),
        ensures
            r == self.has_failed(),
    {
        self.failed
    }
}

/// Law: whatever a pass has done so far, the ledger it maintains is an
/// ascending prefix of the configured versions — no gaps, no out-of-order
/// application.
pub proof fn lemma_ledger_is_ascending_prefix(r: Runner)
    requires
        r.wf(),
    ensures
        ledger_is_prefix(r.migrations(), r.applied()),
        strictly_ascending(r.applied()),
{
    let vs = versions_of(r.migrations@);
    assert forall|i: int, j: int| 0 <= i < j < r.applied().len()
        implies r.applied()[i] < r.applied()[j] by {
        assert(vs[i] < vs[j]);
    }
}

/// Law: after a successful pass the ledger holds exactly the versions of the
/// configured list — every migration has been applied, none twice.
pub proof fn lemma_successful_run_applies_all(r: Runner)
    requires
        r.wf(),
        !r.has_failed(),
        r.applied().len() == r.migrations().len(),
    ensures
        r.applied() == versions_of(r.migrations()),
        forall|v: u64| #[trigger] r.applied().contains(v)
            <==> versions_of(r.migrations()).contains(v),
{
    assert(r.applied() =~= versions_of(r.migrations()));
}

/// Law: the ledger a successful pass leaves behind passes the checks of a
/// fresh pass over the same list, so the runner can be rebuilt from it.
pub proof fn lemma_rerun_accepted(r: Runner)
    requires
        r.wf(),
        !r.has_failed(),
        r.applied().len() == r.migrations().len(),
    ensures
        strictly_ascending(versions_of(r.migrations())),
        ledger_is_prefix(r.migrations(), r.applied()),
{
}

/// Law: running the pass a second time is a no-op. A pass started from the
/// ledger a successful pass left behind has nothing pending, so it can
/// record neither success nor failure and its ledger equals the first one's.
pub proof fn lemma_second_run_is_noop(first: Runner, second: Runner)
    requires
        first.wf(),
        !first.has_failed(),
        first.applied().len() == first.migrations().len(),
        second.wf(),
        !second.has_failed(),
        second.migrations() == first.migrations(),
        second.applied() == first.applied(),
    ensures
        second.applied().len() == second.migrations().len(),
        second.applied() == first.applied(),
{
}

/// Law: after a failed pass the ledger holds exactly the configured versions
/// strictly below the failing one; the failing version and everything above
/// it are absent.
pub proof fn lemma_failed_run_ledger(r: Runner)
    requires
        r.wf(),
        r.has_failed(),
    ensures
        forall|v: u64| #[trigger] r.applied().contains(v)
            ==> versions_of(r.migrations()).contains(v) && v < r.failed_version(),
        forall|v: u64| #[trigger] versions_of(r.migrations()).contains(v)
            && v < r.failed_version() ==> r.applied().contains(v),
        !r.applied().contains(r.failed_version()),
{
    let vs = versions_of(r.migrations@);
    let c = r.cursor as int;
    assert forall|v: u64| #[trigger] r.applied().contains(v)
        implies versions_of(r.migrations()).contains(v) && v < r.failed_version() by {
        let i = choose|i: int| 0 <= i < r.applied().len() && r.applied()[i] == v;
        assert(vs[i] == v);
        assert(vs[i] < vs[c]);
        assert(vs.contains(v)) by {
            assert(0 <= i < vs.len() && vs[i] == v);
        }
    }
    assert forall|v: u64| #[trigger] versions_of(r.migrations()).contains(v)
        && v < r.failed_version() implies r.applied().contains(v) by {
        let j = choose|j: int| 0 <= j < vs.len() && vs[j] == v;
        if j > c {
            assert(vs[c] < vs[j]);
            assert(false);
        }
        if j == c {
            assert(false);
        }
        assert(r.applied()[j] == v);
        assert(r.applied().contains(v)) by {
            assert(0 <= j < r.applied().len() && r.applied()[j] == v);
        }
    }
}

/// Law: a version the ledger already holds is never offered again — the
/// pending migration's version is absent from the ledger.
pub proof fn lemma_pending_not_applied(r: Runner)
    requires
        r.wf(),
        !r.has_failed(),
        r.applied().len() < r.migrations().len(),
    ensures
        !r.applied().contains(r.migrations()[r.applied().len() as int].version),
{
    let vs = versions_of(r.migrations@);
    let c = r.cursor as int;
    if r.applied().contains(r.migrations()[r.applied().len() as int].version) {
        let i = choose|i: int|
            0 <= i < r.applied().len()
            && r.applied()[i] == r.migrations()[r.applied().len() as int].version;
        assert(vs[i] == vs[c]);
        assert(vs[i] < vs[c]);
    }
}

} // verus!
