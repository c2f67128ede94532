//! The extraction itself: from the blocks of a document, or from its source
//! text, to its test cases.

use crate::case::TestCase;
use crate::case::TestCaseView;
use crate::config::may_merge_to;
use crate::config::obeys_configuration_laws;
use crate::config::outcome_view;
use crate::config::MergeSerialized;
use crate::document::Block;
use crate::document::BlockView;
use crate::error::ExtractError;
use crate::error::ExtractErrorView;
use crate::parse::parse_blocks;
use crate::parse::parsed_blocks;
use crate::scan::extraction;
use crate::scan::lemma_extraction_is_exact;
use crate::scan::may_extract_to;
use crate::scan::Scan;
use crate::section::SectionStack;
use std::mem::swap;
use vstd::prelude::*;

verus! {

/// What an extraction returned, with text as sequences of characters.
pub open spec fn result_view<O: MergeSerialized>(
    result: Result<Vec<TestCase<O>>, ExtractError>,
) -> Result<Seq<TestCaseView<O>>, ExtractErrorView> {
    match result {
        Ok(cases) => Ok(cases.deep_view()),
        Err(error) => Err(error.deep_view()),
    }
}

/// Turns the pending arguments, if there are any, into a test case at the
/// current point of the scan, appends it to `test_cases`, and leaves `args`
/// empty. Without pending arguments nothing is appended.
pub fn push_test_case<Options: MergeSerialized + Clone>(
    test_cases: &mut Vec<TestCase<Options>>,
    section_stack: &SectionStack<Options>,
    args: &mut Vec<String>,
)
    ensures
        final(args)@.len() == 0,
        old(args)@.len() == 0 ==> final(test_cases)@ == old(test_cases)@,
        old(args)@.len() > 0 ==> {
            let emitted = final(test_cases)@.last();
            &&& final(test_cases)@ == old(test_cases)@.push(emitted)
            &&& emitted.deep_view() == section_stack@.test_case_with(
                old(args).deep_view(),
                emitted.options,
            )
            &&& cloned(section_stack@.current_options(), emitted.options)
        },
{
    if args.len() > 0 {
        let mut taken: Vec<String> = Vec::new();
        swap(args, &mut taken);
        test_cases.push(TestCase::new(taken, section_stack));
    }
}

/// What may be extracted is, for a configuration type whose merge is pure
/// and whose clones are snapshots, what [`extraction`] says.
proof fn lemma_extraction_follows<O: MergeSerialized + Clone>(
    blocks: Seq<BlockView>,
    root_options: O,
    result: Result<Vec<TestCase<O>>, ExtractError>,
)
    requires
        may_extract_to(blocks, root_options, result_view(result)),
    ensures
        obeys_configuration_laws::<O>() ==> result_view(result) == extraction(blocks, root_options),
{
    if obeys_configuration_laws::<O>() {
        lemma_extraction_is_exact(blocks, root_options, result_view(result));
    }
}

/// Extracts the test cases of a document, given as its top-level blocks in
/// order, whose root holds `root_options`.
///
/// A heading closes the test case before it and opens a section; a block
/// tagged `options` is merged onto the configuration in effect; any other
/// block of raw text is an argument of the test case that the next heading, or
/// the end of the document, closes. The first malformed heading or rejected
/// configuration block aborts the extraction.
///
/// The result is one that the scan may end in, whatever `clone` and
/// `merge_serialized` give back for `Options`. Where merging is pure and a
/// clone is a snapshot, that is one result only, [`extraction`].
pub fn extract<Options: MergeSerialized + Clone>(
    document: Vec<Block>,
    root_options: Options,
) -> (result: Result<Vec<TestCase<Options>>, ExtractError>)
    ensures
        may_extract_to(document.deep_view(), root_options, result_view(result)),
        obeys_configuration_laws::<Options>() ==> result_view(result) == extraction(
            document.deep_view(),
            root_options,
        ),
{
    let mut section_stack = SectionStack::new(root_options);
    let mut test_cases: Vec<TestCase<Options>> = Vec::new();
    let mut args: Vec<String> = Vec::new();
    let ghost blocks = document.deep_view();
    let ghost start = Scan::start(root_options);
    let ghost mut trace = seq![start];
    proof {
        assert(test_cases.deep_view() =~= Seq::empty());
        assert(args.deep_view() =~= Seq::empty());
    }
    for block in it: document.into_iter()
        invariant
            it.seq() == document@,
            blocks == document.deep_view(),
            start == Scan::start(root_options),
            start.is_trace(blocks, trace),
            trace.len() == it.index() + 1,
            trace.last() == (Scan {
                stack: section_stack@,
                pending: args.deep_view(),
                cases: test_cases.deep_view(),
            }),
    {
        let ghost index = it.index() as int;
        let ghost reached = trace.last();
        assert(blocks[index] == block.deep_view());
        match block {
            Block::Heading(heading) => {
                push_test_case(&mut test_cases, &section_stack, &mut args);
                let ghost case_snapshot = if reached.pending.len() > 0 {
                    test_cases@.last().options
                } else {
                    reached.stack.current_options()
                };
                proof {
                    if reached.pending.len() > 0 {
                        assert(test_cases.deep_view() =~= reached.cases.push(
                            test_cases@.last().deep_view(),
                        ));
                    } else {
                        assert(test_cases.deep_view() =~= reached.cases);
                    }
                    assert(args.deep_view() =~= Seq::empty());
                }
                match section_stack.push_heading(heading) {
                    Ok(_) => {
                        proof {
                            let name = heading.deep_view().label()->Some_0;
                            let section_snapshot = section_stack@.current_options();
                            assert(cloned(reached.stack.current_options(), case_snapshot));
                            assert(cloned(
                                reached.stack.closed_at(heading.depth as nat).current_options(),
                                section_snapshot,
                            ));
                            trace = trace.push(
                                reached.entered(
                                    heading.deep_view(),
                                    name,
                                    case_snapshot,
                                    section_snapshot,
                                ),
                            );
                        }
                    },
                    Err(error) => {
                        proof {
                            assert(start.may_run_to(blocks, Err(error.deep_view())));
                            lemma_extraction_follows(blocks, root_options, Err(error));
                        }
                        return Err(error);
                    },
                }
            },
            Block::Code(code) => {
                if code.is_configuration() {
                    let line = code.line;
                    let merge = section_stack.get_options().merge_serialized(code.value);
                    assert(may_merge_to(reached.stack.current_options(), code.value, merge));
                    match section_stack.set_merged(merge, line) {
                        Ok(_) => {
                            proof {
                                trace = trace.push(
                                    reached.configured(outcome_view(merge), line as nat)->Ok_0,
                                );
                            }
                        },
                        Err(error) => {
                            proof {
                                assert(start.may_run_to(blocks, Err(error.deep_view())));
                                lemma_extraction_follows(blocks, root_options, Err(error));
                            }
                            return Err(error);
                        },
                    }
                } else {
                    args.push(code.value);
                    proof {
                        assert(args.deep_view() =~= reached.pending.push(code.value@));
                        trace = trace.push(reached.collected(code.value@));
                    }
                }
            },
            Block::Other => {
                proof {
                    trace = trace.push(reached);
                }
            },
        }
    }
    let ghost reached = trace.last();
    push_test_case(&mut test_cases, &section_stack, &mut args);
    proof {
        let snapshot = if reached.pending.len() > 0 {
            test_cases@.last().options
        } else {
            reached.stack.current_options()
        };
        if reached.pending.len() > 0 {
            assert(test_cases.deep_view() =~= reached.cases.push(test_cases@.last().deep_view()));
        } else {
            assert(test_cases.deep_view() =~= reached.cases);
        }
        assert(cloned(reached.stack.current_options(), snapshot));
        assert(reached.may_flush_to(reached.flushed_with(snapshot)));
        assert(start.may_run_to(blocks, Ok(reached)));
        lemma_extraction_follows(blocks, root_options, Ok(test_cases));
    }
    Ok(test_cases)
}

/// Extracts the test cases of the document written in `content`, whose root
/// holds `root_options`: parses `content` into blocks and extracts from them
/// as [`extract`] does. Where the parser gives no blocks, the extraction
/// fails with [`ExtractError::UnreadableDocument`].
pub fn get_test_cases<Options: MergeSerialized + Clone>(
    content: String,
    root_options: Options,
) -> (result: Result<Vec<TestCase<Options>>, ExtractError>)
    ensures
        match parsed_blocks(content@) {
            Some(blocks) => {
                &&& may_extract_to(blocks, root_options, result_view(result))
                &&& obeys_configuration_laws::<Options>() ==> result_view(result) == extraction(
                    blocks,
                    root_options,
                )
            },
            None => result matches Err(error) && error is UnreadableDocument,
        },
{
    match parse_blocks(content.as_str()) {
        Some(document) => extract(document, root_options),
        None => Err(ExtractError::UnreadableDocument),
    }
}

} // verus!
