//! The scan of a document as the contracts see it: the state between two
//! blocks, what a block does to it, and what a whole document comes to.
//!
//! The scan is told twice. [`Scan::may_step_to`] and [`may_extract_to`] say
//! what can happen whatever a configuration type's `clone` and
//! `merge_serialized` give back. [`Scan::step`] and [`extraction`] say what
//! happens for a type whose merge is pure and whose clones are snapshots;
//! for such a type the two agree.

use crate::case::TestCaseView;
use crate::config::may_merge_to;
use crate::config::merged;
use crate::config::obeys_configuration_laws;
use crate::config::outcome_view;
use crate::config::MergeSerialized;
use crate::document::BlockView;
use crate::document::HeadingView;
use crate::error::ExtractErrorView;
use crate::section::StackView;
use vstd::prelude::*;

verus! {

/// The state of a scan between two blocks.
pub struct Scan<O> {
    /// The open sections.
    pub stack: StackView<O>,
    /// The text of the data blocks met since the last test case was emitted.
    pub pending: Seq<Seq<char>>,
    /// The test cases emitted so far.
    pub cases: Seq<TestCaseView<O>>,
}

/// Where a scan ends: in a state, or in the failure that aborted it.
pub type Outcome<O> = Result<Scan<O>, ExtractErrorView>;

impl<O: MergeSerialized> Scan<O> {
    /// The state before the first block.
    pub open spec fn start(root_options: O) -> Scan<O> {
        Scan { stack: StackView::start(root_options), pending: Seq::empty(), cases: Seq::empty() }
    }

    /// The state once the pending arguments, if there are any, have become a
    /// test case that holds `snapshot`; without pending arguments nothing is
    /// emitted.
    pub open spec fn flushed_with(self, snapshot: O) -> Scan<O> {
        if self.pending.len() == 0 {
            self
        } else {
            Scan {
                stack: self.stack,
                pending: Seq::empty(),
                cases: self.cases.push(self.stack.test_case_with(self.pending, snapshot)),
            }
        }
    }

    /// The state once the pending arguments, if there are any, have become a
    /// test case with the configuration in effect.
    pub open spec fn flushed(self) -> Scan<O> {
        self.flushed_with(self.stack.current_options())
    }

    /// The state after a heading labelled `name`: the pending arguments are
    /// flushed into a case that holds `case_snapshot`, and the heading's
    /// section is open and holds `section_snapshot`.
    pub open spec fn entered(
        self,
        heading: HeadingView,
        name: Seq<char>,
        case_snapshot: O,
        section_snapshot: O,
    ) -> Scan<O> {
        Scan {
            stack: self.stack.opened_with(heading.depth, name, heading.line, section_snapshot),
            pending: Seq::empty(),
            cases: self.flushed_with(case_snapshot).cases,
        }
    }

    /// The state after a configuration block on `line` whose merge ended in
    /// `merge`, or the failure that a rejected block causes.
    pub open spec fn configured(self, merge: Result<O, Seq<char>>, line: nat) -> Outcome<O> {
        match merge {
            Ok(options) => Ok(
                Scan {
                    stack: self.stack.with_options(options),
                    pending: self.pending,
                    cases: self.cases,
                },
            ),
            Err(message) => Err(ExtractErrorView::ConfigurationParseError { line, message }),
        }
    }

    /// The state after a data block that holds `text`.
    pub open spec fn collected(self, text: Seq<char>) -> Scan<O> {
        Scan { stack: self.stack, pending: self.pending.push(text), cases: self.cases }
    }

    /// The state after `block`, or the failure that `block` causes, for a
    /// configuration type whose merge is pure and whose clones are snapshots.
    pub open spec fn step(self, block: BlockView) -> Outcome<O> {
        match block {
            BlockView::Heading(heading) => match heading.label() {
                Some(name) => Ok(
                    self.entered(
                        heading,
                        name,
                        self.stack.current_options(),
                        self.stack.closed_at(heading.depth).current_options(),
                    ),
                ),
                None => Err(ExtractErrorView::MalformedHeading),
            },
            BlockView::Code(code) => if code.is_configuration() {
                self.configured(merged(self.stack.current_options(), code.value), code.line)
            } else {
                Ok(self.collected(code.value))
            },
            BlockView::Other => Ok(self),
        }
    }

    /// The state after all of `blocks`, in order, or the first failure.
    pub open spec fn run(self, blocks: Seq<BlockView>) -> Outcome<O>
        decreases blocks.len(),
    {
        if blocks.len() == 0 {
            Ok(self)
        } else {
            match self.run(blocks.drop_last()) {
                Ok(reached) => reached.step(blocks.last()),
                Err(error) => Err(error),
            }
        }
    }
}

/// The test cases of a document whose root holds `root_options`, or the
/// failure that aborts the extraction, for a configuration type whose merge
/// is pure and whose clones are snapshots.
pub open spec fn extraction<O: MergeSerialized>(blocks: Seq<BlockView>, root_options: O) -> Result<
    Seq<TestCaseView<O>>,
    ExtractErrorView,
> {
    match Scan::start(root_options).run(blocks) {
        Ok(reached) => Ok(reached.flushed().cases),
        Err(error) => Err(error),
    }
}

impl<O: MergeSerialized + Clone> Scan<O> {
    /// Flushing may lead to `next`: the case that is emitted, if any, holds a
    /// clone of the configuration in effect.
    pub open spec fn may_flush_to(self, next: Scan<O>) -> bool {
        exists|snapshot: O| #[trigger]
            cloned(self.stack.current_options(), snapshot) && next == self.flushed_with(snapshot)
    }

    /// `block` may lead to `outcome`, whatever cloning a configuration and
    /// merging onto one give: every snapshot taken is a clone of the
    /// configuration it is taken of, and the merge of a configuration block
    /// is one that the merge capability may end in, called with the
    /// configuration in effect and the block's text.
    pub open spec fn may_step_to(self, block: BlockView, outcome: Outcome<O>) -> bool {
        match block {
            BlockView::Heading(heading) => match heading.label() {
                Some(name) => exists|case_snapshot: O, section_snapshot: O|
                    {
                        &&& #[trigger] cloned(self.stack.current_options(), case_snapshot)
                        &&& #[trigger] cloned(
                            self.stack.closed_at(heading.depth).current_options(),
                            section_snapshot,
                        )
                        &&& outcome == Ok::<Scan<O>, ExtractErrorView>(
                            self.entered(heading, name, case_snapshot, section_snapshot),
                        )
                    },
                None => outcome == Err::<Scan<O>, ExtractErrorView>(
                    ExtractErrorView::MalformedHeading,
                ),
            },
            BlockView::Code(code) => if code.is_configuration() {
                exists|text: String, merge: Result<O, String>|
                    {
                        &&& text@ == code.value
                        &&& #[trigger] may_merge_to(self.stack.current_options(), text, merge)
                        &&& outcome == self.configured(outcome_view(merge), code.line)
                    }
            } else {
                outcome == Ok::<Scan<O>, ExtractErrorView>(self.collected(code.value))
            },
            BlockView::Other => outcome == Ok::<Scan<O>, ExtractErrorView>(self),
        }
    }

    /// `trace` holds the states of a scan of `blocks` from this state on:
    /// this state first, then the state after each block, as far as the scan
    /// got.
    pub open spec fn is_trace(self, blocks: Seq<BlockView>, trace: Seq<Scan<O>>) -> bool {
        &&& 0 < trace.len() <= blocks.len() + 1
        &&& trace[0] == self
        &&& forall|i: int|
            0 < i < trace.len() ==> trace[i - 1].may_step_to(
                blocks[i - 1],
                Ok(#[trigger] trace[i]),
            )
    }

    /// `blocks`, in order, may lead to `outcome`: each block leads from the
    /// state before it to the state after it, and the first failure ends the
    /// scan.
    pub open spec fn may_run_to(self, blocks: Seq<BlockView>, outcome: Outcome<O>) -> bool {
        exists|trace: Seq<Scan<O>>| #[trigger]
            self.is_trace(blocks, trace) && match outcome {
                Ok(reached) => trace.len() == blocks.len() + 1 && trace.last() == reached,
                Err(error) => trace.len() <= blocks.len() && trace.last().may_step_to(
                    blocks[trace.len() - 1],
                    Err(error),
                ),
            }
    }
}

/// The extraction from `blocks` under `root_options` may end in `result`,
/// whatever cloning a configuration and merging onto one give.
pub open spec fn may_extract_to<O: MergeSerialized + Clone>(
    blocks: Seq<BlockView>,
    root_options: O,
    result: Result<Seq<TestCaseView<O>>, ExtractErrorView>,
) -> bool {
    exists|end: Outcome<O>| #[trigger]
        Scan::start(root_options).may_run_to(blocks, end) && match end {
            Ok(reached) => exists|last: Scan<O>| #[trigger]
                reached.may_flush_to(last) && result == Ok::<
                    Seq<TestCaseView<O>>,
                    ExtractErrorView,
                >(last.cases),
            Err(error) => result == Err::<Seq<TestCaseView<O>>, ExtractErrorView>(error),
        }
}

/// A failure is final: once a prefix of the blocks has failed, the whole
/// sequence fails in the same way.
pub proof fn lemma_failure_is_final<O: MergeSerialized>(
    from: Scan<O>,
    blocks: Seq<BlockView>,
    count: int,
)
    requires
        0 <= count <= blocks.len(),
        from.run(blocks.take(count)) is Err,
    ensures
        from.run(blocks) == from.run(blocks.take(count)),
    decreases blocks.len() - count,
{
    if count == blocks.len() {
        assert(blocks.take(count) =~= blocks);
    } else {
        assert(blocks.drop_last().take(count) =~= blocks.take(count));
        lemma_failure_is_final(from, blocks.drop_last(), count);
    }
}

/// For a configuration type whose merge is pure and whose clones are
/// snapshots, a block may lead to one outcome only: the one that
/// [`Scan::step`] gives.
pub proof fn lemma_step_is_exact<O: MergeSerialized + Clone>(
    from: Scan<O>,
    block: BlockView,
    outcome: Outcome<O>,
)
    requires
        obeys_configuration_laws::<O>(),
        from.may_step_to(block, outcome),
    ensures
        outcome == from.step(block),
{
}

/// For a configuration type whose merge is pure and whose clones are
/// snapshots, the states of a trace are those that [`Scan::run`] gives.
proof fn lemma_trace_is_exact<O: MergeSerialized + Clone>(
    from: Scan<O>,
    blocks: Seq<BlockView>,
    trace: Seq<Scan<O>>,
    count: int,
)
    requires
        obeys_configuration_laws::<O>(),
        from.is_trace(blocks, trace),
        0 <= count < trace.len(),
    ensures
        from.run(blocks.take(count)) == Ok::<Scan<O>, ExtractErrorView>(trace[count]),
    decreases count,
{
    if count > 0 {
        lemma_trace_is_exact(from, blocks, trace, count - 1);
        assert(blocks.take(count).drop_last() =~= blocks.take(count - 1));
        lemma_step_is_exact(trace[count - 1], blocks[count - 1], Ok(trace[count]));
    }
}

/// For a configuration type whose merge is pure and whose clones are
/// snapshots, a sequence of blocks may lead to one outcome only: the one that
/// [`Scan::run`] gives.
pub proof fn lemma_run_is_exact<O: MergeSerialized + Clone>(
    from: Scan<O>,
    blocks: Seq<BlockView>,
    outcome: Outcome<O>,
)
    requires
        obeys_configuration_laws::<O>(),
        from.may_run_to(blocks, outcome),
    ensures
        outcome == from.run(blocks),
{
    let trace = choose|trace: Seq<Scan<O>>| #[trigger]
        from.is_trace(blocks, trace) && match outcome {
            Ok(reached) => trace.len() == blocks.len() + 1 && trace.last() == reached,
            Err(error) => trace.len() <= blocks.len() && trace.last().may_step_to(
                blocks[trace.len() - 1],
                Err(error),
            ),
        };
    let last = trace.len() - 1;
    lemma_trace_is_exact(from, blocks, trace, last);
    match outcome {
        Ok(_) => {
            assert(blocks.take(last) =~= blocks);
        },
        Err(_) => {
            lemma_step_is_exact(trace[last], blocks[last], outcome);
            assert(blocks.take(last + 1).drop_last() =~= blocks.take(last));
            lemma_failure_is_final(from, blocks, last + 1);
        },
    }
}

/// For a configuration type whose merge is pure and whose clones are
/// snapshots, an extraction may end in one result only: [`extraction`].
pub proof fn lemma_extraction_is_exact<O: MergeSerialized + Clone>(
    blocks: Seq<BlockView>,
    root_options: O,
    result: Result<Seq<TestCaseView<O>>, ExtractErrorView>,
)
    requires
        obeys_configuration_laws::<O>(),
        may_extract_to(blocks, root_options, result),
    ensures
        result == extraction(blocks, root_options),
{
    let start = Scan::start(root_options);
    let end = choose|end: Outcome<O>| #[trigger]
        start.may_run_to(blocks, end) && match end {
            Ok(reached) => exists|last: Scan<O>| #[trigger]
                reached.may_flush_to(last) && result == Ok::<
                    Seq<TestCaseView<O>>,
                    ExtractErrorView,
                >(last.cases),
            Err(error) => result == Err::<Seq<TestCaseView<O>>, ExtractErrorView>(error),
        };
    lemma_run_is_exact(start, blocks, end);
}

} // verus!
