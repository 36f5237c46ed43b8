use vstd::prelude::*;

use crate::matcher::{pattern_compiles, PatternMatcher};
use crate::request::{span_within_line, ConfigError, MatchResult, MatchView, SearchRequest};
use crate::scanner::{encoding_known, events_in_line_order, file_events, LineScanner};

verus! {

/// Where a run stands in its life.
#[derive(PartialEq, Eq, Structural, Clone, Copy, Debug)]
pub enum RunState {
    /// Scanning files.
    Running,
    /// Cancellation was asked for; the run stops at the next file boundary.
    CancelRequested,
    /// Every file was handed over, and the run has finished.
    Completed,
    /// The run finished early because it was cancelled.
    Cancelled,
}

/// What a run has released for delivery to its consumer, in order.
pub enum Delivery {
    Match(MatchView),
    Finish,
}

/// How many finish events `log` holds.
pub open spec fn finish_count(log: Seq<Delivery>) -> nat
    decreases log.len(),
{
    if log.len() == 0 {
        0
    } else {
        finish_count(log.drop_last()) + if log.last() is Finish {
            1nat
        } else {
            0nat
        }
    }
}

/// A log whose entries before the last are all matches holds one finish
/// event at most, and exactly one where its last entry is a finish event.
proof fn lemma_finish_count_of_tail(log: Seq<Delivery>)
    requires
        forall|i: int| 0 <= i < log.len() - 1 ==> #[trigger] log[i] is Match,
    ensures
        finish_count(log) == if log.len() > 0 && log.last() is Finish {
            1nat
        } else {
            0nat
        },
    decreases log.len(),
{
    if log.len() > 0 {
        let prev = log.drop_last();
        assert forall|i: int| 0 <= i < prev.len() - 1 implies #[trigger] prev[i] is Match by {
            assert(prev[i] == log[i]);
        }
        lemma_finish_count_of_tail(prev);
        if prev.len() > 0 {
            assert(prev.last() == log[log.len() - 2]);
        }
    }
}

/// What a file boundary decides: go on to the next file or stop.
#[derive(PartialEq, Eq, Structural, Clone, Copy, Debug)]
pub enum Checkpoint {
    Continue,
    Stop,
}

/// One search run: its scanner, its state, and the log of what it released.
pub struct EngineRun {
    scanner: LineScanner,
    state: RunState,
    sink_open: bool,
    log: Ghost<Seq<Delivery>>,
}

impl EngineRun {
    pub closed spec fn state(&self) -> RunState {
        self.state
    }

    pub closed spec fn scanner(&self) -> LineScanner {
        self.scanner
    }

    /// Whether the consumer's channel is still taking events.
    pub closed spec fn sink_open(&self) -> bool {
        self.sink_open
    }

    /// Every event the run has released, in order.
    pub closed spec fn log(&self) -> Seq<Delivery> {
        self.log@
    }

    pub open spec fn is_done(&self) -> bool {
        self.state() is Completed || self.state() is Cancelled
    }

    /// Matches come before the finish event, which is the last event, and is
    /// released exactly when the run is done while its consumer listens.
    pub open spec fn wf(&self) -> bool {
        &&& forall|i: int| 0 <= i < self.log().len() - 1 ==> #[trigger] self.log()[i] is Match
        &&& (self.log().len() > 0 && self.log().last() is Finish) <==> (self.is_done()
            && self.sink_open())
    }

    /// Starts a run: compiles the pattern and resolves the encoding. Fails,
    /// before any work, exactly when one of the two is rejected.
    pub fn start(request: &SearchRequest) -> (r: Result<EngineRun, ConfigError>)
        ensures
            r is Ok <==> pattern_compiles(
                request.pattern@,
                request.case_insensitive,
                request.multi_line,
            ) && encoding_known(request.encoding_name@),
            r matches Err(e) ==> (e is InvalidPattern <==> !pattern_compiles(
                request.pattern@,
                request.case_insensitive,
                request.multi_line,
            )),
            r matches Err(ConfigError::UnknownEncoding(l)) ==> l@ == request.encoding_name@,
            r matches Ok(run) ==> {
                &&& run.wf()
                &&& run.state() == RunState::Running
                &&& run.sink_open()
                &&& run.log() == Seq::<Delivery>::empty()
                &&& run.scanner().matcher().pattern() == request.pattern@
                &&& run.scanner().matcher().case_insensitive() == request.case_insensitive
                &&& run.scanner().matcher().multi_line() == request.multi_line
                &&& run.scanner().encoding() == request.encoding_name@
                &&& run.scanner().skip_binary() == request.skip_binary_detection
            },
    {
        let matcher = match PatternMatcher::compile(
            request.pattern.as_str(),
            request.case_insensitive,
            request.multi_line,
        ) {
            Ok(m) => m,
            Err(e) => return Err(e),
        };
        let scanner = match LineScanner::new(
            matcher,
            request.encoding_name.as_str(),
            request.skip_binary_detection,
        ) {
            Ok(s) => s,
            Err(e) => return Err(e),
        };
        Ok(EngineRun { scanner, state: RunState::Running, sink_open: true, log: Ghost(Seq::empty()) })
    }

    pub fn state_now(&self) -> (r: RunState)
        ensures
            r == self.state(),
    {
        self.state
    }

    /// Asks the run to stop at the next file boundary. Only a running run
    /// changes; on any other it has no effect at all.
    pub fn cancel(&mut self)
        ensures
            old(self).state() is Running ==> final(self).state() is CancelRequested
                && final(self).log() == old(self).log() && final(self).sink_open()
                == old(self).sink_open() && final(self).scanner() == old(self).scanner(),
            !(old(self).state() is Running) ==> *final(self) == *old(self),
            old(self).wf() ==> final(self).wf(),
    {
        if self.state == RunState::Running {
            self.state = RunState::CancelRequested;
        }
    }

    /// The decision at a file boundary: scan the next file only while the run
    /// is running and its consumer listens.
    pub fn checkpoint(&self) -> (r: Checkpoint)
        ensures
            r is Continue <==> self.state() is Running && self.sink_open(),
    {
        if self.state == RunState::Running && self.sink_open {
            Checkpoint::Continue
        } else {
            Checkpoint::Stop
        }
    }

    /// Records that the consumer's channel refused an event: nothing more is
    /// released, not even the finish event.
    pub fn sink_failed(&mut self)
        requires
            !old(self).is_done(),
        ensures
            !final(self).sink_open(),
            final(self).state() == old(self).state(),
            final(self).log() == old(self).log(),
            final(self).scanner() == old(self).scanner(),
            old(self).wf() ==> final(self).wf(),
    {
        self.sink_open = false;
    }

    /// Scans the contents of file `path` and releases its events, in the
    /// order of its lines. It always succeeds.
    pub fn scan_file(&mut self, path: &String, bytes: &[u8]) -> (r: Result<Vec<MatchResult>, String>)
        requires
            old(self).wf(),
            !old(self).is_done(),
        ensures
            final(self).wf(),
            final(self).state() == old(self).state(),
            final(self).sink_open() == old(self).sink_open(),
            final(self).scanner().matcher() == old(self).scanner().matcher(),
            final(self).scanner().encoding() == old(self).scanner().encoding(),
            final(self).scanner().skip_binary() == old(self).scanner().skip_binary(),
            r is Ok,
            r matches Ok(events) ==> {
                &&& events@.map_values(|e: MatchResult| e@) == file_events(
                    old(self).scanner().matcher(),
                    path@,
                    old(self).scanner().spec_lines(bytes@),
                )
                &&& final(self).log() == old(self).log() + events@.map_values(
                    |e: MatchResult| Delivery::Match(e@),
                )
                &&& forall|k: int| 0 <= k < events@.len() ==> span_within_line(#[trigger] events@[k]@)
                &&& events_in_line_order(events@.map_values(|e: MatchResult| e@))
            },
    {
        let r = self.scanner.scan(path, bytes);
        if let Ok(events) = &r {
            let ghost added = events@.map_values(|e: MatchResult| Delivery::Match(e@));
            self.log = Ghost(self.log@ + added);
            assert forall|i: int| 0 <= i < self.log().len() - 1 implies #[trigger] self.log()[i] is Match by {
                if i >= old(self).log().len() {
                    assert(self.log()[i] == added[i - old(self).log().len()]);
                }
            }
        }
        r
    }

    /// Finishes the run: releases the finish event the first time, while the
    /// consumer listens, and says whether it did. A done run is left as it is.
    pub fn finish(&mut self) -> (released: bool)
        requires
            old(self).wf(),
        ensures
            final(self).wf(),
            final(self).is_done(),
            released <==> !old(self).is_done() && old(self).sink_open(),
            old(self).state() is Running ==> final(self).state() is Completed,
            old(self).state() is CancelRequested ==> final(self).state() is Cancelled,
            old(self).is_done() ==> *final(self) == *old(self),
            released ==> final(self).log() == old(self).log().push(Delivery::Finish),
            !released ==> final(self).log() == old(self).log(),
            final(self).sink_open() == old(self).sink_open(),
    {
        match self.state {
            RunState::Completed | RunState::Cancelled => false,
            RunState::Running | RunState::CancelRequested => {
                self.state = if self.state == RunState::Running {
                    RunState::Completed
                } else {
                    RunState::Cancelled
                };
                if self.sink_open {
                    self.log = Ghost(self.log@.push(Delivery::Finish));
                    true
                } else {
                    false
                }
            },
        }
    }
}

/// A run that is done while its consumer listens has released exactly one
/// finish event, and it is the last event it released.
pub proof fn lemma_single_final_finish(run: EngineRun)
    requires
        run.wf(),
        run.is_done(),
        run.sink_open(),
    ensures
        finish_count(run.log()) == 1,
        run.log().last() is Finish,
        forall|i: int| 0 <= i < run.log().len() - 1 ==> #[trigger] run.log()[i] is Match,
{
    lemma_finish_count_of_tail(run.log());
}

} // verus!
