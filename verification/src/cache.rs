//! The prepared-statement cache: compiled statements keyed by the exact SQL
//! text supplied, reused across byte-identical queries.

use vstd::prelude::*;

verus! {

/// The cache's mathematical model: the statement texts in compilation
/// order. A text's position is the slot of its compiled statement, and the
/// number of texts is the number of compilations ever performed.
pub struct CacheModel {
    pub texts: Seq<Seq<char>>,
}

impl CacheModel {
    /// No statement text is ever compiled twice.
    pub open spec fn wf(self) -> bool {
        forall|i: int, j: int|
            0 <= i < j < self.texts.len() ==> #[trigger] self.texts[i] != #[trigger] self.texts[j]
    }

    /// How many compilations the cache has performed.
    pub open spec fn compilations(self) -> int {
        self.texts.len() as int
    }

    /// Whether `sql` already has a compiled statement.
    pub open spec fn contains_text(self, sql: Seq<char>) -> bool {
        exists|i: int| 0 <= i < self.texts.len() && self.texts[i] == sql
    }

    /// The slot of the compiled statement for `sql`; meaningful only when
    /// [`Self::contains_text`] holds, and unique because texts never repeat.
    pub open spec fn slot_of(self, sql: Seq<char>) -> int {
        choose|i: int| 0 <= i < self.texts.len() && self.texts[i] == sql
    }

    /// What fetching `sql` does: a hit returns the existing slot and changes
    /// nothing; a miss compiles, appends the text, and returns the new slot.
    /// The third component tells whether a compilation happened.
    pub open spec fn fetch_result(self, sql: Seq<char>) -> (CacheModel, int, bool) {
        if self.contains_text(sql) {
            (self, self.slot_of(sql), false)
        } else {
            (CacheModel { texts: self.texts.push(sql) }, self.texts.len() as int, true)
        }
    }
}

/// The statement cache as the connection owns it: the compiled statements'
/// texts in compilation order.
#[derive(Debug)]
pub struct StatementCache {
    pub texts: Vec<String>,
}

impl View for StatementCache {
    type V = CacheModel;

    open spec fn view(&self) -> CacheModel {
        CacheModel { texts: Seq::new(self.texts@.len(), |i: int| self.texts@[i]@) }
    }
}

impl StatementCache {
    /// An empty cache that has compiled nothing.
    pub fn new() -> (c: StatementCache)
        ensures
            c@.wf(),
            c@.texts.len() == 0,
    {
        StatementCache { texts: Vec::new() }
    }

    /// The instrumentation hook: how many statements have been compiled.
    pub fn compilations(&self) -> (n: usize)
        ensures
            n == self@.compilations(),
    {
        self.texts.len()
    }

    /// Fetches the compiled statement for the exact text `sql`, compiling it
    /// only when no byte-identical text was fetched before. Returns the slot
    /// and whether a compilation happened.
    pub fn fetch(&mut self, sql: &String) -> (r: (usize, bool))
        requires
            old(self)@.wf(),
        ensures
            final(self)@.wf(),
            (final(self)@, r.0 as int, r.1) == old(self)@.fetch_result(sql@),
    {
        let n = self.texts.len();
        let mut i: usize = 0;
        while i < n
            invariant
                *self == *old(self),
                old(self)@.wf(),
                n == self.texts@.len(),
                i <= n,
                forall|j: int| 0 <= j < i ==> (#[trigger] self@.texts[j]) != sql@,
            decreases n - i,
        {
            if self.texts[i] == *sql {
                proof {
                    let m = self@;
                    assert(m.texts[i as int] == sql@);
                    assert(m.contains_text(sql@));
                    let w: int = m.slot_of(sql@);
                    assert(0 <= w < m.texts.len() && m.texts[w] == sql@);
                    if w < i as int {
                        assert(m.texts[w] != m.texts[i as int]);
                    } else if w > i as int {
                        assert(m.texts[i as int] != m.texts[w]);
                    }
                    assert(w == i as int);
                }
                return (i, false);
            }
            i = i + 1;
        }
        proof {
            assert(!self@.contains_text(sql@));
        }
        self.texts.push(sql.clone());
        proof {
            assert(self@.texts =~= old(self)@.texts.push(sql@));
        }
        (n, true)
    }
}

/// Two successive fetches of byte-identical statement text compile at most
/// once: the second fetch is always a cache hit that returns the same slot,
/// changes nothing, and leaves the compilation count where the first fetch
/// put it.
pub proof fn lemma_statement_reuse(m: CacheModel, sql: Seq<char>)
    requires
        m.wf(),
    ensures
        ({
            let (m1, slot1, fresh1) = m.fetch_result(sql);
            let (m2, slot2, fresh2) = m1.fetch_result(sql);
            &&& m1.wf()
            &&& !fresh2
            &&& slot2 == slot1
            &&& m2 == m1
            &&& fresh1 ==> m1.compilations() == m.compilations() + 1
            &&& !fresh1 ==> m1.compilations() == m.compilations()
        }),
{
    let (m1, slot1, fresh1) = m.fetch_result(sql);
    if m.contains_text(sql) {
        assert(m1 == m);
        assert(m1.contains_text(sql));
    } else {
        assert(m1.texts[m.texts.len() as int] == sql);
        assert(m1.contains_text(sql));
        assert forall|i: int, j: int| 0 <= i < j < m1.texts.len() implies #[trigger] m1.texts[i]
            != #[trigger] m1.texts[j] by {
            if j < m.texts.len() as int {
                assert(m.texts[i] != m.texts[j]);
            } else {
                assert(m1.texts[j] == sql);
                assert(m.texts[i] == m1.texts[i]);
                assert(!m.contains_text(sql));
            }
        }
    }
    let w1 = m1.slot_of(sql);
    let (m2, slot2, fresh2) = m1.fetch_result(sql);
    if slot1 != w1 {
        assert(m1.texts[slot1] == sql);
        assert(m1.texts[w1] == sql);
        assert(m1.texts[slot1] != m1.texts[w1]);
    }
}

} // verus!
