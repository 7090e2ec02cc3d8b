//! The shared state of the bridge: the latest sample and the session history.
use vstd::prelude::*;
use crate::sample::{sample_of, view_of, Sample, SAMPLE_ARITY};

verus! {

/// What the store holds, as mathematics.
pub struct StoreView<R> {
    /// The sample committed last, if any was since the last reset.
    pub latest: Option<Seq<R>>,
    /// Every sample committed since the last reset, oldest first.
    pub history: Seq<Seq<R>>,
}

impl<R> StoreView<R> {
    /// The store before any commit.
    pub open spec fn empty() -> Self {
        StoreView { latest: None, history: Seq::empty() }
    }

    /// The store after `sample` was committed.
    pub open spec fn commit(self, sample: Seq<R>) -> Self {
        StoreView { latest: Some(sample), history: self.history.push(sample) }
    }

    /// The store after a reset.
    pub open spec fn reset(self) -> Self {
        Self::empty()
    }

    /// The store after a record with the given parse outcomes was submitted:
    /// its sample is committed where it has one, and nothing changes where it
    /// has none.
    pub open spec fn submit(self, fields: Seq<Option<R>>) -> Self {
        match sample_of(fields) {
            Some(sample) => self.commit(sample),
            None => self,
        }
    }

    /// What a reader of the latest sample gets: its readings, or nothing.
    pub open spec fn latest_or_empty(self) -> Seq<R> {
        match self.latest {
            Some(sample) => sample,
            None => Seq::empty(),
        }
    }

    /// The invariant of the store: every sample has seven readings, and the
    /// latest sample is the last of the history.
    pub open spec fn wf(self) -> bool {
        &&& forall|i: int| 0 <= i < self.history.len() ==> (#[trigger] self.history[i]).len() == SAMPLE_ARITY
        &&& self.latest == if self.history.len() == 0 {
            None
        } else {
            Some(self.history.last())
        }
    }
}

/// The views of the samples in `samples`.
pub open spec fn views<R>(samples: Seq<Sample<R>>) -> Seq<Seq<R>> {
    samples.map_values(|sample: Sample<R>| sample@)
}

/// The latest sample and the history of all samples of a session.
pub struct TelemetryStore<R> {
    latest: Option<Sample<R>>,
    history: Vec<Sample<R>>,
}

impl<R> View for TelemetryStore<R> {
    type V = StoreView<R>;

    closed spec fn view(&self) -> StoreView<R> {
        StoreView { latest: view_of(self.latest), history: views(self.history@) }
    }
}

impl<R> TelemetryStore<R> {
    #[verifier::type_invariant]
    spec fn latest_is_last(&self) -> bool {
        self.latest == if self.history@.len() == 0 {
            None
        } else {
            Some(self.history@.last())
        }
    }
}

impl<R: Copy> TelemetryStore<R> {
    /// A store with no sample.
    pub fn new() -> (store: Self)
        ensures
            store@ == StoreView::<R>::empty(),
    {
        let store = TelemetryStore { latest: None, history: Vec::new() };
        proof {
            assert(views(store.history@) =~= Seq::<Seq<R>>::empty());
        }
        store
    }

    /// Makes `sample` the latest sample and appends it to the history.
    ///
    /// The store is taken out whole and put back whole: it is never seen with
    /// one of the two changed and the other not.
    pub fn commit(&mut self, sample: Sample<R>)
        ensures
            final(self)@ == old(self)@.commit(sample@),
            final(self)@.wf(),
    {
        let mut before = TelemetryStore { latest: None, history: Vec::new() };
        core::mem::swap(self, &mut before);
        let mut history = before.history;
        history.push(sample);
        proof {
            assert(views(history@) =~= views(before.history@).push(sample@));
        }
        *self = TelemetryStore { latest: Some(sample), history };
    }

    /// Forgets the latest sample and the whole history.
    pub fn reset(&mut self)
        ensures
            final(self)@ == old(self)@.reset(),
            final(self)@.wf(),
    {
        *self = Self::new();
    }

    /// A copy of the latest sample, if there is one.
    pub fn latest(&self) -> (sample: Option<Sample<R>>)
        ensures
            view_of(sample) == self@.latest,
            self@.wf(),
    {
        proof {
            use_type_invariant(self);
        }
        self.latest
    }

    /// A copy of the readings of the latest sample; empty where there is none.
    pub fn read_latest(&self) -> (readings: Vec<R>)
        ensures
            readings@ == self@.latest_or_empty(),
            self@.wf(),
    {
        proof {
            use_type_invariant(self);
        }
        match &self.latest {
            Some(sample) => sample.to_vec(),
            None => Vec::new(),
        }
    }

    /// A copy of the history, oldest sample first.
    pub fn read_history(&self) -> (samples: Vec<Sample<R>>)
        ensures
            views(samples@) == self@.history,
            self@.wf(),
    {
        proof {
            use_type_invariant(self);
        }
        let mut samples: Vec<Sample<R>> = Vec::new();
        let mut i: usize = 0;
        while i < self.history.len()
            invariant
                i <= self.history.len(),
                samples@ == self.history@.take(i as int),
            decreases self.history.len() - i,
        {
            samples.push(self.history[i]);
            i += 1;
        }
        proof {
            assert(samples@ =~= self.history@);
        }
        samples
    }

    /// The number of samples in the history.
    pub fn len(&self) -> (n: usize)
        ensures
            n == self@.history.len(),
    {
        self.history.len()
    }
}

} // verus!
