//! One telemetry sample: seven readings, in the order they arrived.
use vstd::prelude::*;

verus! {

/// The number of readings in a sample.
pub const SAMPLE_ARITY: usize = 7;

/// Seven readings taken from one telemetry record.
///
/// The library never looks inside a reading; `R` is whatever the caller parses
/// a field into.
#[derive(Debug, PartialEq)]
pub struct Sample<R> {
    pub readings: [R; 7],
}

impl<R: Copy> Clone for Sample<R> {
    fn clone(&self) -> (copy: Self)
        ensures
            copy == *self,
    {
        *self
    }
}

impl<R: Copy> Copy for Sample<R> {

}

impl<R> View for Sample<R> {
    type V = Seq<R>;

    open spec fn view(&self) -> Seq<R> {
        self.readings@
    }
}

/// The values of the fields of a record that parsed, in the order of the record.
pub open spec fn parsed_values<R>(fields: Seq<Option<R>>) -> Seq<R> {
    fields.filter_map(|field: Option<R>| field)
}

/// The sample that a record yields: the first seven of its parsed values, where
/// it has that many.
pub open spec fn sample_of<R>(fields: Seq<Option<R>>) -> Option<Seq<R>> {
    let values = parsed_values(fields);
    if values.len() >= SAMPLE_ARITY {
        Some(values.take(SAMPLE_ARITY as int))
    } else {
        None
    }
}

/// The view of a sample that may be absent.
pub open spec fn view_of<R>(sample: Option<Sample<R>>) -> Option<Seq<R>> {
    match sample {
        Some(s) => Some(s@),
        None => None,
    }
}

impl<R: Copy> Sample<R> {
    /// A sample of the given readings.
    pub fn new(readings: [R; 7]) -> (sample: Self)
        ensures
            sample@ == readings@,
    {
        Sample { readings }
    }

    /// The readings as a vector of seven elements.
    pub fn to_vec(&self) -> (values: Vec<R>)
        ensures
            values@ == self@,
    {
        let mut values: Vec<R> = Vec::new();
        let mut i: usize = 0;
        while i < SAMPLE_ARITY
            invariant
                i <= SAMPLE_ARITY,
                values@ == self@.take(i as int),
            decreases SAMPLE_ARITY - i,
        {
            values.push(self.readings[i]);
            i += 1;
        }
        values
    }

    /// Builds the sample of a record from the outcome of parsing each of its
    /// fields, `None` standing for a field that did not parse.
    ///
    /// Fields that did not parse are passed over. With seven or more values
    /// left, the first seven make the sample and the others are ignored; with
    /// fewer there is no sample.
    pub fn from_fields(fields: &Vec<Option<R>>) -> (sample: Option<Self>)
        ensures
            view_of(sample) == sample_of(fields@),
    {
        let mut values: Vec<R> = Vec::new();
        let mut i: usize = 0;
        while i < fields.len()
            invariant
                i <= fields.len(),
                values@ == parsed_values(fields@.take(i as int)),
            decreases fields.len() - i,
        {
            proof {
                fields@.lemma_filter_map_take_succ(|field: Option<R>| field, i as int);
            }
            match fields[i] {
                Some(value) => {
                    values.push(value);
                },
                None => {},
            }
            i += 1;
        }
        proof {
            assert(fields@.take(i as int) =~= fields@);
        }
        if values.len() >= SAMPLE_ARITY {
            let sample = Sample {
                readings: [
                    values[0],
                    values[1],
                    values[2],
                    values[3],
                    values[4],
                    values[5],
                    values[6],
                ],
            };
            proof {
                assert(sample@ =~= values@.take(SAMPLE_ARITY as int));
            }
            Some(sample)
        } else {
            None
        }
    }
}

/// Every sample has exactly seven readings.
pub proof fn lemma_sample_arity<R>(sample: Sample<R>)
    ensures
        sample@.len() == SAMPLE_ARITY,
{
}

/// Where a record yields a sample, the sample has seven readings, and they are
/// the record's first seven parsed values.
pub proof fn lemma_sample_of_arity<R>(fields: Seq<Option<R>>)
    ensures
        sample_of(fields) is Some <==> parsed_values(fields).len() >= SAMPLE_ARITY,
        sample_of(fields) matches Some(s) ==> s.len() == SAMPLE_ARITY && (forall|i: int|
            0 <= i < SAMPLE_ARITY ==> s[i] == parsed_values(fields)[i]),
{
}

} // verus!
