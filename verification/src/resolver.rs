use vstd::prelude::*;

use crate::eval::{ThunkModel, ThunkResolver};
use crate::ltl::Formula;

verus! {

/// The first value stored under `key`, if any.
pub open spec fn spec_snapshot_lookup(entries: Seq<(u64, bool)>, key: u64) -> Option<bool>
    decreases entries.len(),
{
    if entries.len() == 0 {
        None
    } else if entries[0].0 == key {
        Some(entries[0].1)
    } else {
        spec_snapshot_lookup(entries.subrange(1, entries.len() as int), key)
    }
}

/// A thunk resolver for atomic predicates that each read one
/// extractor's current boolean value: a snapshot table, written once
/// per tick, fixes every atom, so resolution within the tick is a
/// function of the handle alone.  An atom missing from the table is a
/// failed predicate.
pub struct SnapshotResolver {
    /// The current value of each extractor, by id.
    pub values: Vec<(u64, bool)>,
    /// The source text attached to the literal verdicts this resolver
    /// returns.
    pub pretty: String,
}

impl SnapshotResolver {
    pub fn new(values: Vec<(u64, bool)>, pretty: String) -> (r: SnapshotResolver)
        ensures
            r.values == values,
            r.pretty == pretty,
    {
        SnapshotResolver { values, pretty }
    }

    /// The first value stored under `key`, if any.
    fn lookup(&self, key: u64) -> (r: Option<bool>)
        ensures
            r == spec_snapshot_lookup(self.values@, key),
    {
        let ghost table = self.values@;
        proof {
            assert(table.subrange(0, table.len() as int) =~= table);
        }
        let mut i: usize = 0;
        #[verifier::loop_isolation(false)]
        while i < self.values.len()
            invariant
                0 <= i <= table.len(),
                table == self.values@,
                spec_snapshot_lookup(table, key) == spec_snapshot_lookup(
                    table.subrange(i as int, table.len() as int),
                    key,
                ),
            decreases table.len() - i,
        {
            proof {
                assert(table.subrange(i as int, table.len() as int)[0] == table[i as int]);
                assert(table.subrange(i as int, table.len() as int).subrange(
                    1,
                    table.len() - i as int,
                ) =~= table.subrange(i as int + 1, table.len() as int));
            }
            if self.values[i].0 == key {
                return Some(self.values[i].1);
            }
            i = i + 1;
        }
        proof {
            assert(table.subrange(table.len() as int, table.len() as int) =~= Seq::<(
                u64,
                bool,
            )>::empty());
        }
        None
    }
}

impl ThunkResolver<u64> for SnapshotResolver {
    open spec fn model(&self) -> ThunkModel<u64> {
        |handle: u64, negated: bool|
            match spec_snapshot_lookup(self.values@, handle) {
                Some(b) => Some(
                    if b != negated {
                        Formula::True { pretty: self.pretty }
                    } else {
                        Formula::False { pretty: self.pretty }
                    },
                ),
                None => None,
            }
    }

    fn resolve(&self, handle: &u64, negated: bool) -> (r: Result<Formula<u64>, String>) {
        match self.lookup(*handle) {
            Some(b) => if b != negated {
                Ok(Formula::True { pretty: self.pretty.clone() })
            } else {
                Ok(Formula::False { pretty: self.pretty.clone() })
            },
            None => Err(self.pretty.clone()),
        }
    }
}

} // verus!
