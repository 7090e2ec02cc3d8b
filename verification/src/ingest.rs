//! Telemetry ingestion: from one line read off a connection to what the reader
//! of that connection does next.
//!
//! Parsing a field into a reading is the caller's business: every function here
//! takes the parser as an argument and states what holds whatever it returns.
use vstd::prelude::*;
use crate::sample::{sample_of, view_of, Sample};
use crate::store::TelemetryStore;
use crate::wire::{fields, fields_of, texts};

verus! {

/// Whether `parsed` can come out of handing each field of `line`, in order, to
/// `parse`.
pub open spec fn may_parse_as<R, F: Fn(&str) -> Option<R>>(
    parse: F,
    line: Seq<char>,
    parsed: Seq<Option<R>>,
) -> bool {
    exists|tokens: Seq<&str>|
        {
            &&& texts(tokens) == fields_of(line)
            &&& parsed.len() == tokens.len()
            &&& forall|i: int|
                0 <= i < tokens.len() ==> call_ensures(parse, (tokens[i],), #[trigger] parsed[i])
        }
}

/// What the reader of a connection does after one read.
pub enum ConnectionStep<R> {
    /// Commit the sample to the store, then read on.
    Commit(Sample<R>),
    /// Read on: the record yields no sample and is dropped.
    Skip,
    /// Stop reading: the stream has ended or failed.
    Close,
}

impl<R> ConnectionStep<R> {
    /// The sample that the step commits, if it commits one.
    pub open spec fn committed(self) -> Option<Seq<R>> {
        match self {
            ConnectionStep::Commit(sample) => Some(sample@),
            _ => None,
        }
    }
}

/// Whether a read has found the end of the stream: no byte came, or the read
/// failed.
pub open spec fn stream_ended<E>(read: Result<usize, E>) -> bool {
    match read {
        Ok(n) => n == 0,
        Err(_) => true,
    }
}

/// Turns one telemetry record into a sample, if it yields one.
///
/// The line is cut into fields, each field goes to `parse`, and the fields that
/// did not parse are dropped. Seven or more values give a sample of the first
/// seven; fewer give none.
pub fn parse_line<R: Copy, F: Fn(&str) -> Option<R>>(line: &str, parse: F) -> (sample: Option<
    Sample<R>,
>)
    requires
        forall|token: &str| call_requires(parse, (token,)),
    ensures
        exists|parsed: Seq<Option<R>>|
            may_parse_as(parse, line@, parsed) && view_of(sample) == sample_of(parsed),
{
    let tokens = fields(line);
    let mut parsed: Vec<Option<R>> = Vec::new();
    let mut i: usize = 0;
    while i < tokens.len()
        invariant
            i <= tokens.len(),
            parsed.len() == i,
            forall|token: &str| call_requires(parse, (token,)),
            forall|j: int| 0 <= j < i ==> call_ensures(parse, (tokens@[j],), #[trigger] parsed@[j]),
        decreases tokens.len() - i,
    {
        let outcome = parse(tokens[i]);
        parsed.push(outcome);
        i += 1;
    }
    let sample = Sample::from_fields(&parsed);
    proof {
        assert(may_parse_as(parse, line@, parsed@));
    }
    sample
}

/// Decides what the reader of a connection does after one read.
///
/// `read` is what the read returned, the number of bytes or its error, and
/// `line` is what it read. A failed read or one of no bytes ends the
/// connection. Any other line is a telemetry record: the step commits its
/// sample, or skips the record where it yields none.
pub fn connection_step<R: Copy, E, F: Fn(&str) -> Option<R>>(
    read: &Result<usize, E>,
    line: &str,
    parse: F,
) -> (step: ConnectionStep<R>)
    requires
        forall|token: &str| call_requires(parse, (token,)),
    ensures
        stream_ended(*read) <==> step is Close,
        !stream_ended(*read) ==> exists|parsed: Seq<Option<R>>|
            may_parse_as(parse, line@, parsed) && step.committed() == sample_of(parsed),
{
    match read {
        Ok(n) => {
            if *n == 0 {
                ConnectionStep::Close
            } else {
                match parse_line(line, parse) {
                    Some(sample) => ConnectionStep::Commit(sample),
                    None => ConnectionStep::Skip,
                }
            }
        },
        Err(_) => ConnectionStep::Close,
    }
}

impl<R: Copy> TelemetryStore<R> {
    /// Submits one telemetry record: its sample is committed if it yields one,
    /// and nothing changes if it yields none.
    pub fn ingest_line<F: Fn(&str) -> Option<R>>(&mut self, line: &str, parse: F)
        requires
            forall|token: &str| call_requires(parse, (token,)),
        ensures
            exists|parsed: Seq<Option<R>>|
                may_parse_as(parse, line@, parsed) && final(self)@ == old(self)@.submit(parsed),
    {
        match parse_line(line, parse) {
            Some(sample) => {
                self.commit(sample);
            },
            None => {},
        }
    }
}

} // verus!
