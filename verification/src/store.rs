//! The shared, read-only collection of question records.
//!
//! The store fixes a stable iteration order — the order of the records
//! it was loaded with — so that pagination windows are meaningful and
//! identical requests see identical slices.  It is built once at
//! startup and only ever read afterwards; handlers borrow read access
//! and never take ownership of individual records.

use vstd::prelude::*;

use crate::question::Question;
use crate::question::QuestionView;

verus! {

/// The fatal, startup-time error: the dataset the store was asked to
/// load is malformed.  The process must not start serving after it.
#[derive(Clone, Copy, Debug, PartialEq, Eq, Structural)]
pub enum LoadError {
    /// Some record carries an empty identifier.
    EmptyId,
    /// Two records share one identifier.
    DuplicateId,
}

impl LoadError {
    /// The human-readable description of the load failure.
    pub fn message(&self) -> (m: String)
        ensures
            *self is EmptyId ==> m@ == "Dataset record has an empty id"@,
            *self is DuplicateId ==> m@ == "Dataset records share an id"@,
    {
        match self {
            LoadError::EmptyId => "Dataset record has an empty id".to_owned(),
            LoadError::DuplicateId => "Dataset records share an id".to_owned(),
        }
    }
}

/// All identifiers in the sequence are non-empty.
pub open spec fn ids_nonempty(qs: Seq<QuestionView>) -> bool {
    forall|i: int| 0 <= i < qs.len() ==> (#[trigger] qs[i]).id.len() > 0
}

/// No two records in the sequence share an identifier.
pub open spec fn ids_unique(qs: Seq<QuestionView>) -> bool {
    forall|i: int, j: int| 0 <= i < j < qs.len() ==> qs[i].id != qs[j].id
}

/// The store: a mapping from identifier to record, kept in a fixed
/// load-time order.
#[derive(Debug)]
pub struct Store {
    questions: Vec<Question>,
}

impl View for Store {
    type V = Seq<QuestionView>;

    closed spec fn view(&self) -> Seq<QuestionView> {
        self.questions.deep_view()
    }
}

impl Store {
    /// The store's invariant: identifiers are non-empty and unique, so
    /// the record sequence is a genuine mapping keyed by id.
    pub open spec fn wf(&self) -> bool {
        ids_nonempty(self@) && ids_unique(self@)
    }

    /// An empty store.
    pub fn new() -> (s: Store)
        ensures
            s@ =~= Seq::<QuestionView>::empty(),
            s.wf(),
    {
        Store { questions: Vec::new() }
    }

    /// Builds the store from the decoded dataset records, keeping their
    /// order as the stable iteration order.  Succeeds exactly when the
    /// records form a valid mapping: every id non-empty, no id twice.
    /// A failure is fatal to startup, never a per-request error.
    pub fn load(records: Vec<Question>) -> (r: Result<Store, LoadError>)
        ensures
            r is Ok <==> (ids_nonempty(records.deep_view()) && ids_unique(records.deep_view())),
            r matches Ok(s) ==> s@ == records.deep_view() && s.wf(),
            r == Err::<Store, LoadError>(LoadError::EmptyId) <==> !ids_nonempty(
                records.deep_view(),
            ),
            r == Err::<Store, LoadError>(LoadError::DuplicateId) <==> (ids_nonempty(
                records.deep_view(),
            ) && !ids_unique(records.deep_view())),
    {
        let ghost qs = records.deep_view();
        let n = records.len();
        proof {
            assert(qs.len() == n);
        }
        let mut i: usize = 0;
        while i < n
            invariant
                i <= n,
                n == records.len(),
                qs == records.deep_view(),
                forall|k: int| 0 <= k < i ==> (#[trigger] qs[k]).id.len() > 0,
            decreases n - i,
        {
            if records[i].id.as_str().is_empty() {
                proof {
                    assert(qs[i as int].id.len() == 0);
                }
                return Err(LoadError::EmptyId);
            }
            i = i + 1;
        }
        proof {
            assert(ids_nonempty(qs));
        }
        let mut a: usize = 0;
        while a < n
            invariant
                a <= n,
                n == records.len(),
                qs == records.deep_view(),
                ids_nonempty(qs),
                forall|i: int, j: int| 0 <= i < j < n && i < a ==> qs[i].id != qs[j].id,
            decreases n - a,
        {
            let mut b: usize = a + 1;
            while b < n
                invariant
                    a < b <= n,
                    a < n,
                    n == records.len(),
                    qs == records.deep_view(),
                    ids_nonempty(qs),
                    forall|i: int, j: int| 0 <= i < j < n && i < a ==> qs[i].id != qs[j].id,
                    forall|j: int| a < j < b ==> qs[a as int].id != qs[j].id,
                decreases n - b,
            {
                if records[a].id == records[b].id {
                    proof {
                        assert(qs[a as int].id == qs[b as int].id);
                    }
                    return Err(LoadError::DuplicateId);
                }
                b = b + 1;
            }
            a = a + 1;
        }
        proof {
            assert(ids_unique(qs));
        }
        Ok(Store { questions: records })
    }

    /// The number of records held.
    pub fn len(&self) -> (n: usize)
        ensures
            n == self@.len(),
    {
        self.questions.len()
    }

    /// A stably-ordered read view of all current records.  Borrowing is
    /// the whole discipline a reader needs: the store is never mutated
    /// while the service runs, so any number of concurrent readers can
    /// hold such views at once.
    pub fn snapshot(&self) -> (r: &Vec<Question>)
        ensures
            r.deep_view() == self@,
    {
        &self.questions
    }
}

impl Clone for Store {
    fn clone(&self) -> (r: Store)
        ensures
            r@ == self@,
            r.wf() <==> self.wf(),
    {
        let mut out: Vec<Question> = Vec::new();
        let mut i: usize = 0;
        while i < self.questions.len()
            invariant
                i <= self.questions.len(),
                out@.len() == i,
                out.deep_view() =~= self.questions.deep_view().subrange(0, i as int),
            decreases self.questions.len() - i,
        {
            let c = self.questions[i].clone();
            out.push(c);
            i = i + 1;
            proof {
                assert(out.deep_view() =~= self.questions.deep_view().subrange(0, i as int));
            }
        }
        proof {
            assert(out.deep_view() =~= self.questions.deep_view());
        }
        Store { questions: out }
    }
}

} // verus!
