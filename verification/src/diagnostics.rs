//! The records that the lock manager leaves for the operator.

use crate::lock_args::{clone_names, names_of};
use vstd::prelude::*;
use vstd::string::StringExecFns;

verus! {

/// How serious a record is, from the least to the most.
#[derive(Clone, Copy, Debug, PartialEq, Eq, Structural)]
pub enum Level {
    Trace,
    Debug,
    Info,
    Warn,
    Error,
}

/// A record as the mathematics sees it.
pub struct DiagnosticView {
    pub level: Level,
    pub source: Seq<char>,
    pub message: Seq<char>,
    pub resource_set: Seq<Seq<char>>,
    /// How many of the lockers that were asked did not answer in time.
    pub unanswered: nat,
}

/// One diagnostic record: what happened, where, and to which resources.
#[derive(Debug)]
pub struct Diagnostic {
    pub level: Level,
    pub source: String,
    pub message: String,
    pub resource_set: Vec<String>,
    /// How many of the lockers that were asked did not answer in time: it
    /// tells trouble with the network from contention.
    pub unanswered: usize,
}

impl View for Diagnostic {
    type V = DiagnosticView;

    open spec fn view(&self) -> DiagnosticView {
        DiagnosticView {
            level: self.level,
            source: self.source@,
            message: self.message@,
            resource_set: names_of(self.resource_set@),
            unanswered: self.unanswered as nat,
        }
    }
}

/// The records that a vector holds, in order.
pub open spec fn records_of(v: Seq<Diagnostic>) -> Seq<DiagnosticView> {
    Seq::new(v.len(), |i: int| v[i]@)
}

/// The record of an acquisition that did not reach its quorum, of which
/// `unanswered` lockers did not answer in time.
pub open spec fn quorum_failure(resources: Seq<Seq<char>>, unanswered: nat) -> DiagnosticView {
    DiagnosticView {
        level: Level::Warn,
        source: "drwmutex"@,
        message: "unable to acquire lock in quorum"@,
        resource_set: resources,
        unanswered,
    }
}

/// The record of a release that some locker did not confirm, of which
/// `unanswered` lockers did not answer in time.
pub open spec fn release_failure(resources: Seq<Seq<char>>, unanswered: nat) -> DiagnosticView {
    DiagnosticView {
        level: Level::Warn,
        source: "drwmutex"@,
        message: "unable to release lock on every locker"@,
        resource_set: resources,
        unanswered,
    }
}

/// The record of a lock that was not obtained before its time-out.
pub open spec fn retry_exhausted(resources: Seq<Seq<char>>) -> DiagnosticView {
    DiagnosticView {
        level: Level::Error,
        source: "namespace_lock"@,
        message: "lock not obtained before the time-out"@,
        resource_set: resources,
        unanswered: 0,
    }
}

impl Diagnostic {
    pub fn quorum_failure(resources: &Vec<String>, unanswered: usize) -> (d: Diagnostic)
        ensures
            d@ == quorum_failure(names_of(resources@), unanswered as nat),
    {
        Diagnostic {
            level: Level::Warn,
            source: String::from_str("drwmutex"),
            message: String::from_str("unable to acquire lock in quorum"),
            resource_set: clone_names(resources),
            unanswered,
        }
    }

    pub fn release_failure(resources: &Vec<String>, unanswered: usize) -> (d: Diagnostic)
        ensures
            d@ == release_failure(names_of(resources@), unanswered as nat),
    {
        Diagnostic {
            level: Level::Warn,
            source: String::from_str("drwmutex"),
            message: String::from_str("unable to release lock on every locker"),
            resource_set: clone_names(resources),
            unanswered,
        }
    }

    pub fn retry_exhausted(resources: &Vec<String>) -> (d: Diagnostic)
        ensures
            d@ == retry_exhausted(names_of(resources@)),
    {
        Diagnostic {
            level: Level::Error,
            source: String::from_str("namespace_lock"),
            message: String::from_str("lock not obtained before the time-out"),
            resource_set: clone_names(resources),
            unanswered: 0,
        }
    }
}

} // verus!
