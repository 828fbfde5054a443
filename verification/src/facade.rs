use vstd::prelude::*;

use crate::error::StoreError;

verus! {

/// The batch one read serves from a script, and the script it leaves
/// behind: always the front batch, never anything else.
pub open spec fn fetch_spec<B>(script: Seq<B>) -> (Option<B>, Seq<B>) {
    if script.len() > 0 {
        (Some(script[0]), script.skip(1))
    } else {
        (None, script)
    }
}

/// The scripted query facade: a strict, order-sensitive test double.
///
/// All store access passes through one seam; this is the deterministic
/// side of it. The facade is pre-loaded with an ordered sequence of result
/// batches, and each read consumes the next batch in sequence — it does
/// not look at the statement it was handed and does not check that the
/// replayed batch matches the query's shape. Enqueuing results in the
/// exact call order of the exercised code path is the script author's
/// responsibility; that is a documented limitation of this test aid, not
/// an oversight. The live side of the seam — a connection to a real
/// store — lives outside the verified core.
pub struct ScriptedFacade<T> {
    batches: Vec<Vec<T>>,
}

impl<T: DeepView> View for ScriptedFacade<T> {
    type V = Seq<Seq<T::V>>;

    closed spec fn view(&self) -> Seq<Seq<T::V>> {
        self.batches.deep_view()
    }
}

impl<T: DeepView> ScriptedFacade<T> {
    /// A facade with an empty script: every read fails.
    pub fn new() -> (f: Self)
        ensures
            f@.len() == 0,
    {
        ScriptedFacade { batches: Vec::new() }
    }

    /// Appends result batches to the script, in the order given, behind
    /// whatever is already enqueued.
    pub fn append_query_results(&mut self, results: Vec<Vec<T>>) -> (n: usize)
        ensures
            final(self)@ == old(self)@ + results.deep_view(),
            n == final(self)@.len(),
    {
        let ghost oldview = self@;
        let mut incoming = results;
        self.batches.append(&mut incoming);
        proof {
            assert(self@ =~= oldview + results.deep_view());
        }
        self.batches.len()
    }

    /// How many batches are still enqueued.
    pub fn remaining(&self) -> (n: usize)
        ensures
            n == self@.len(),
    {
        self.batches.len()
    }

    /// Serves the next batch of the script, whatever the statement says:
    /// the facade never validates the query against the replayed result.
    /// An exhausted script behaves like an unreachable store.
    pub fn fetch_next(&mut self, _statement: &str) -> (r: Result<Vec<T>, StoreError>)
        ensures
            final(self)@ == fetch_spec(old(self)@).1,
            match r {
                Ok(b) => fetch_spec(old(self)@).0 == Some(b.deep_view()),
                Err(e) => fetch_spec(old(self)@).0 is None && e == StoreError::Connection,
            },
    {
        if self.batches.len() == 0 {
            return Err(StoreError::Connection);
        }
        let b = self.batches.remove(0);
        proof {
            assert(self@ =~= fetch_spec(old(self)@).1);
        }
        Ok(b)
    }
}

/// Scripted-facade ordering: with two batches loaded, the first read
/// serves the first batch and the second read the second — the statements
/// handed to the reads play no part, and nothing of the script remains.
pub proof fn lemma_scripted_ordering<B>(first: B, second: B)
    ensures
        ({
            let script = seq![first, second];
            let (r1, s1) = fetch_spec(script);
            let (r2, s2) = fetch_spec(s1);
            r1 == Some(first) && r2 == Some(second) && s2.len() == 0
        }),
{
    let script = seq![first, second];
    let (r1, s1) = fetch_spec(script);
    assert(s1 =~= seq![second]);
    let (r2, s2) = fetch_spec(s1);
    assert(s2 =~= Seq::<B>::empty());
}

} // verus!
