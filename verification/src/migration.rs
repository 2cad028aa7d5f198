//! Migration units and the checks a migration list must pass before any
//! script is allowed to run.

use vstd::prelude::*;

verus! {

/// Direction tag of a migration. This runner only ever applies `Up` scripts;
/// the tag is carried as data.
#[derive(Clone, Copy, PartialEq, Eq, Structural, Debug)]
pub enum MigrationKind {
    Up,
    Down,
}

/// One schema change unit.
pub struct Migration {
    /// Defines the apply order; unique and strictly ascending within a list.
    pub version: u64,
    /// Human-readable label, non-semantic.
    pub description: String,
    /// Literal text of the statements to execute.
    pub script: String,
    /// Direction tag.
    pub kind: MigrationKind,
}

/// Why a migration list or a ledger was rejected before anything ran.
#[derive(Clone, Copy, PartialEq, Eq, Structural, Debug)]
pub enum ConfigError {
    /// Two adjacent migrations carry this same version.
    DuplicateVersion(u64),
    /// This version appears after a version that is not smaller than it.
    VersionOutOfOrder(u64),
    /// The ledger is not an ascending prefix of the configured versions.
    CorruptLedger,
}

/// The versions of a migration list, in list order.
pub open spec fn versions_of(ms: Seq<Migration>) -> Seq<u64> {
    Seq::new(ms.len(), |i: int| ms[i].version)
}

/// Versions strictly increase along the list: sorted, with no duplicates.
pub open spec fn strictly_ascending(vs: Seq<u64>) -> bool {
    forall|i: int, j: int| 0 <= i < j < vs.len() ==> vs[i] < vs[j]
}

/// Position `i` is the first place where `vs` stops strictly ascending.
pub open spec fn is_first_violation(vs: Seq<u64>, i: int) -> bool {
    &&& 0 <= i < vs.len() - 1
    &&& vs[i + 1] <= vs[i]
    &&& forall|k: int| 0 <= k < i ==> vs[k] < #[trigger] vs[k + 1]
}

/// The configuration error reported for the violation at position `i`.
pub open spec fn list_error_at(vs: Seq<u64>, i: int) -> ConfigError {
    if vs[i + 1] == vs[i] {
        ConfigError::DuplicateVersion(vs[i])
    } else {
        ConfigError::VersionOutOfOrder(vs[i + 1])
    }
}

/// The ledger `applied` holds exactly the versions of the first
/// `applied.len()` migrations of the list, in order: no gaps, no strangers.
pub open spec fn ledger_is_prefix(ms: Seq<Migration>, applied: Seq<u64>) -> bool {
    &&& applied.len() <= ms.len()
    &&& forall|i: int| 0 <= i < applied.len() ==> #[trigger] applied[i] == ms[i].version
}

/// The configuration table of migrations, built explicitly at startup: each
/// `add` appends one unit, in the order the units are to apply.
pub struct MigrationList {
    items: Vec<Migration>,
}

impl View for MigrationList {
    type V = Seq<Migration>;

    closed spec fn view(&self) -> Seq<Migration> {
        self.items@
    }
}

impl MigrationList {
    /// An empty configuration table.
    pub fn new() -> (r: MigrationList)
        ensures
            r@ == Seq::<Migration>::empty(),
    {
        MigrationList { items: Vec::new() }
    }

    /// Appends one migration unit to the end of the table.
    pub fn add(&mut self, version: u64, description: &str, script: &str, kind: MigrationKind)
        ensures
            final(self)@.len() == old(self)@.len() + 1,
            forall|i: int| 0 <= i < old(self)@.len() ==> final(self)@[i] == old(self)@[i],
            final(self)@.last().version == version,
            final(self)@.last().description@ == description@,
            final(self)@.last().script@ == script@,
            final(self)@.last().kind == kind,
    {
        self.items.push(Migration {
            version,
            description: description.to_owned(),
            script: script.to_owned(),
            kind,
        });
    }

    /// Hands the finished table over, in the order it was built.
    pub fn build(self) -> (r: Vec<Migration>)
        ensures
            r@ == self@,
    {
        self.items
    }
}

/// Adjacent ascent implies ascent between any two positions.
proof fn lemma_adjacent_implies_ascending_at(vs: Seq<u64>, i: int, j: int)
    requires
        forall|k: int| 0 <= k < vs.len() - 1 ==> vs[k] < #[trigger] vs[k + 1],
        0 <= i < j < vs.len(),
    ensures
        vs[i] < vs[j],
    decreases j - i,
{
    if i + 1 < j {
        lemma_adjacent_implies_ascending_at(vs, i, j - 1);
        assert(vs[j - 1] < vs[j - 1 + 1]);
    } else {
        assert(vs[i] < vs[i + 1]);
    }
}

/// Checks that the versions of `migrations` are unique and strictly
/// ascending, and reports the first violation otherwise. No script runs and
/// no ledger is touched unless this check passes.
pub fn validate_migrations(migrations: &Vec<Migration>) -> (r: Result<(), ConfigError>)
    ensures
        r is Ok <==> strictly_ascending(versions_of(migrations@)),
        r matches Err(e) ==> exists|i: int|
            #[trigger] is_first_violation(versions_of(migrations@), i)
            && e == list_error_at(versions_of(migrations@), i),
        r matches Err(e) ==> forall|i: int|
            #[trigger] is_first_violation(versions_of(migrations@), i)
            ==> e == list_error_at(versions_of(migrations@), i),
{
    let ghost vs = versions_of(migrations@);
    let n = migrations.len();
    if n < 2 {
        return Ok(());
    }
    let mut idx: usize = 0;
    while idx + 1 < n
        invariant
            n == migrations@.len(),
            idx < n,
            vs == versions_of(migrations@),
            forall|k: int| 0 <= k < idx ==> vs[k] < #[trigger] vs[k + 1],
        decreases n - idx,
    {
        let a = migrations[idx].version;
        let b = migrations[idx + 1].version;
        if b <= a {
            proof {
                assert(is_first_violation(vs, idx as int));
                assert(!strictly_ascending(vs)) by {
                    assert(vs[idx as int + 1] <= vs[idx as int]);
                }
                // The first violation is unique, so the reported error is
                // determined by any position a caller exhibits.
                assert forall|i: int| #[trigger] is_first_violation(vs, i)
                    implies i == idx as int by {
                    if i < idx {
                        assert(vs[i] < vs[i + 1]);
                    }
                    if i > idx {
                        assert(vs[idx as int] < vs[idx as int + 1]);
                    }
                }
            }
            if b == a {
                return Err(ConfigError::DuplicateVersion(a));
            }
            return Err(ConfigError::VersionOutOfOrder(b));
        }
        idx += 1;
    }
    proof {
        assert(strictly_ascending(vs)) by {
            assert forall|i: int, j: int| 0 <= i < j < vs.len() implies vs[i] < vs[j] by {
                lemma_adjacent_implies_ascending_at(vs, i, j);
            }
        }
    }
    Ok(())
}

} // verus!
