//! The shared domain resource: a bounded coin counter.
//!
//! Every session mutates one machine under mutual exclusion. The level is
//! capped at `MACHINE_CAPACITY`; an insert raises the level by one (an
//! insert into a full machine leaves the level at the cap), and a payout
//! releases coins back to the client, never more than the machine holds.
//!
//! The chance rule that decides how many coins fall is probabilistic and is
//! computed by the embedding program; the machine itself only settles the
//! outcome, so every possible outcome keeps the level inside `[0,
//! MACHINE_CAPACITY]`.

use vstd::prelude::*;

verus! {

/// The most coins the machine can hold.
pub const MACHINE_CAPACITY: u32 = 1000;

/// The level after one coin is inserted: one more than `pool`, saturating
/// at the capacity.
pub open spec fn filled_level(pool: u32) -> u32 {
    if pool < MACHINE_CAPACITY {
        (pool + 1) as u32
    } else {
        pool
    }
}

pub struct Machine {
    pool: u32,
}

impl Machine {
    /// The machine never holds more coins than its capacity.
    pub closed spec fn inv(&self) -> bool {
        self.pool <= MACHINE_CAPACITY
    }

    /// The current level.
    pub closed spec fn spec_pool(&self) -> u32 {
        self.pool
    }

    /// Builds a machine holding `initial_pool` coins; rejects a pool over
    /// the capacity.
    pub fn with(initial_pool: u32) -> (r: Result<Machine, &'static str>)
        ensures
            r is Ok <==> initial_pool <= MACHINE_CAPACITY,
            r is Ok ==> r->Ok_0.spec_pool() == initial_pool && r->Ok_0.inv(),
    {
        if initial_pool > MACHINE_CAPACITY {
            return Err("too many coins");
        }
        Ok(Machine { pool: initial_pool })
    }

    /// The current level.
    pub fn get_pool(&self) -> (r: u32)
        ensures
            r == self.spec_pool(),
    {
        self.pool
    }

    /// Settles one insert: the level rises by one (capped), then `fell`
    /// coins are released back to the client. The caller decides `fell` by
    /// its chance rule; any outcome that does not release more than the
    /// machine holds is accepted, and the returned amount is exactly what
    /// was released (0 when no coins fell).
    pub fn insert_coin(&mut self, fell: u32) -> (r: u32)
        requires
            old(self).inv(),
            fell <= filled_level(old(self).spec_pool()),
        ensures
            final(self).spec_pool() == filled_level(old(self).spec_pool()) - fell,
            r == fell,
            final(self).inv(),
    {
        if self.pool < MACHINE_CAPACITY {
            self.pool = self.pool + 1;
        }
        self.pool = self.pool - fell;
        fell
    }
}

/// The level reached from `init` after settling each insert of `fells` in
/// order (each entry is the payout of one insert).
pub open spec fn level_after(init: u32, fells: Seq<u32>) -> u32
    decreases fells.len(),
{
    if fells.len() == 0 {
        init
    } else {
        let lvl = level_after(init, fells.drop_last());
        (filled_level(lvl) - if fells.last() <= filled_level(lvl) {
            fells.last()
        } else {
            filled_level(lvl)
        }) as u32
    }
}

/// One more settled insert extends the run: when the payout respects the
/// bound `insert_coin` demands, the level after it is exactly what
/// `insert_coin` ensures.
pub proof fn lemma_level_run_step(init: u32, fells: Seq<u32>, fell: u32)
    requires
        fell <= filled_level(level_after(init, fells)),
    ensures
        level_after(init, fells.push(fell)) == filled_level(level_after(init, fells)) - fell,
{
    assert(fells.push(fell).drop_last() =~= fells);
}

/// For every sequence of inserts (queries leave the level untouched), the
/// level stays within `[0, MACHINE_CAPACITY]` — the resource is never
/// overdrawn and never overfilled. Each step settles one insert the way
/// `Machine::insert_coin` does, with the payout bounded by what the
/// machine holds, as its contract demands of every caller.
pub proof fn lemma_level_bounded(init: u32, fells: Seq<u32>)
    requires
        init <= MACHINE_CAPACITY,
    ensures
        level_after(init, fells) <= MACHINE_CAPACITY,
    decreases fells.len(),
{
    if fells.len() > 0 {
        lemma_level_bounded(init, fells.drop_last());
    }
}

} // verus!
