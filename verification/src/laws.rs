//! What holds of every scan: the laws of section scope, of configuration
//! inheritance and of the order in which test cases are emitted.

use crate::case::TestCaseView;
use crate::config::merged;
use crate::config::MergeSerialized;
use crate::document::BlockView;
use crate::error::ExtractErrorView;
use crate::scan::extraction;
use crate::scan::may_extract_to;
use crate::scan::Outcome;
use crate::scan::Scan;
use crate::section::lemma_filter_keeps_all;
use crate::section::shallower;
use crate::section::SectionView;
use crate::section::StackView;
use vstd::prelude::*;

verus! {

/// Of sections whose depths grow strictly, those shallower than `depth` are
/// the first ones: a prefix, after which every section is at least as deep as
/// `depth`.
pub proof fn lemma_shallower_is_prefix<O>(stack: StackView<O>, depth: nat)
    requires
        stack.increasing(),
    ensures
        ({
            let kept = stack.closed_at(depth).sections;
            &&& kept.len() <= stack.sections.len()
            &&& kept == stack.sections.take(kept.len() as int)
            &&& forall|i: int| 0 <= i < kept.len() ==> stack.sections[i].depth < depth
            &&& forall|i: int|
                kept.len() <= i < stack.sections.len() ==> stack.sections[i].depth >= depth
        }),
    decreases stack.sections.len(),
{
    reveal(Seq::filter);
    let sections = stack.sections;
    let keep = shallower::<O>(depth);
    if sections.len() > 0 {
        let rest = StackView { root_options: stack.root_options, sections: sections.drop_last() };
        lemma_shallower_is_prefix(rest, depth);
        let kept_rest = rest.sections.filter(keep);
        assert forall|i: int| 0 <= i < rest.sections.len() implies rest.sections[i]
            == sections[i] by {}
        if keep(sections.last()) {
            assert forall|i: int| 0 <= i < rest.sections.len() implies keep(
                #[trigger] rest.sections[i],
            ) by {
                assert(sections[i].depth < sections[sections.len() - 1].depth);
            }
            lemma_filter_keeps_all(rest.sections, keep);
            assert(rest.sections.push(sections.last()) =~= sections);
            assert(sections.take(sections.len() as int) =~= sections);
            assert forall|i: int| 0 <= i < sections.len() implies sections[i].depth < depth by {
                assert(keep(sections[i]));
            }
        } else {
            assert(rest.sections.take(kept_rest.len() as int) =~= sections.take(
                kept_rest.len() as int,
            ));
            assert forall|i: int| kept_rest.len() <= i < sections.len() implies sections[i].depth
                >= depth by {
                if i < rest.sections.len() {
                    assert(rest.sections[i].depth >= depth);
                }
            }
        }
    } else {
        assert(sections.filter(keep) =~= sections.take(0));
    }
}

/// Closing at `inner` after closing at a level `outer` that is no shallower
/// leaves what closing at `inner` alone leaves.
pub proof fn lemma_closing_twice<O>(sections: Seq<SectionView<O>>, outer: nat, inner: nat)
    requires
        inner <= outer,
    ensures
        sections.filter(shallower::<O>(outer)).filter(shallower::<O>(inner)) == sections.filter(
            shallower::<O>(inner),
        ),
    decreases sections.len(),
{
    reveal(Seq::filter);
    if sections.len() > 0 {
        lemma_closing_twice(sections.drop_last(), outer, inner);
        let once = sections.drop_last().filter(shallower::<O>(outer));
        if shallower::<O>(outer)(sections.last()) {
            assert(once.push(sections.last()).drop_last() =~= once);
        }
    }
}

/// Depth truncation. On a stack whose depths grow strictly, a heading of
/// level `depth` closes exactly the open sections of that level or deeper,
/// which are the innermost ones, and opens its own section on top of the
/// others. The configuration that the new section inherits is that of the
/// innermost section that stays open, or the root's. The depths of the new
/// stack grow strictly again.
pub proof fn lemma_heading_truncates<O>(
    stack: StackView<O>,
    depth: nat,
    name: Seq<char>,
    line: nat,
    options: O,
)
    requires
        stack.increasing(),
    ensures
        ({
            let after = stack.opened_with(depth, name, line, options);
            let kept = after.sections.len() - 1;
            &&& 0 <= kept <= stack.sections.len()
            &&& after.root_options == stack.root_options
            &&& after.sections.drop_last() == stack.sections.take(kept)
            &&& forall|i: int| 0 <= i < kept ==> stack.sections[i].depth < depth
            &&& forall|i: int| kept <= i < stack.sections.len() ==> stack.sections[i].depth >= depth
            &&& after.sections.last() == (SectionView { depth, name, line, options })
            &&& stack.closed_at(depth).current_options() == if kept == 0 {
                stack.root_options
            } else {
                stack.sections[kept - 1].options
            }
            &&& after.increasing()
        }),
{
    lemma_shallower_is_prefix(stack, depth);
    let kept = stack.closed_at(depth).sections;
    let after = stack.opened_with(depth, name, line, options);
    assert(after.sections.drop_last() =~= kept);
    assert forall|i: int, j: int| 0 <= i < j < after.sections.len() implies after.sections[i].depth
        < after.sections[j].depth by {
        if j < kept.len() {
            assert(stack.sections[i].depth < stack.sections[j].depth);
        }
    }
}

/// Overwriting the configuration in effect leaves every depth as it was.
pub proof fn lemma_with_options_keeps_depths<O>(stack: StackView<O>, options: O)
    requires
        stack.increasing(),
    ensures
        stack.with_options(options).increasing(),
        stack.with_options(options).current_options() == options,
        stack.with_options(options).headings() == stack.headings(),
        stack.with_options(options).current_line() == stack.current_line(),
{
    let set = stack.with_options(options);
    assert forall|i: int, j: int| 0 <= i < j < set.sections.len() implies set.sections[i].depth
        < set.sections[j].depth by {
        assert(stack.sections[i].depth < stack.sections[j].depth);
    }
    assert(set.headings() =~= stack.headings());
}

/// Configuration inheritance, downwards. A configuration set in a scope is
/// the configuration of a section that a deeper heading opens in that scope;
/// the sections already open stay as they are.
pub proof fn lemma_subsection_inherits<O>(
    stack: StackView<O>,
    options: O,
    depth: nat,
    name: Seq<char>,
    line: nat,
)
    requires
        stack.increasing(),
        stack.sections.len() > 0 ==> stack.sections.last().depth < depth,
    ensures
        stack.with_options(options).opened(depth, name, line).current_options() == options,
        stack.with_options(options).opened(depth, name, line).sections.drop_last()
            == stack.with_options(options).sections,
{
    let set = stack.with_options(options);
    let keep = shallower::<O>(depth);
    assert forall|i: int| 0 <= i < set.sections.len() implies keep(#[trigger] set.sections[i]) by {
        if i < stack.sections.len() - 1 {
            assert(stack.sections[i].depth < stack.sections[stack.sections.len() - 1].depth);
        }
    }
    lemma_filter_keeps_all(set.sections, keep);
    assert(set.opened(depth, name, line).sections.drop_last() =~= set.sections);
}

/// Configuration inheritance, on closing. What was set inside a section is
/// gone once a heading of the section's level, or of a shallower one, closes
/// it: the scope that the closing heading finds around it, and so the
/// configuration that its section inherits, is the one it would have found
/// had the section never been opened.
pub proof fn lemma_closed_section_leaves_no_trace<O>(
    stack: StackView<O>,
    depth: nat,
    name: Seq<char>,
    line: nat,
    inherited: O,
    options: O,
    closing_depth: nat,
    closing_name: Seq<char>,
    closing_line: nat,
)
    requires
        closing_depth <= depth,
    ensures
        stack.opened_with(depth, name, line, inherited).with_options(options).closed_at(
            closing_depth,
        ) == stack.closed_at(closing_depth),
        stack.opened_with(depth, name, line, inherited).with_options(options).opened(
            closing_depth,
            closing_name,
            closing_line,
        ) == stack.opened(closing_depth, closing_name, closing_line),
{
    reveal(Seq::filter);
    let inside = stack.opened_with(depth, name, line, inherited).with_options(options);
    let kept = stack.closed_at(depth).sections;
    let keep = shallower::<O>(closing_depth);
    assert(inside.sections.drop_last() =~= kept);
    assert(!keep(inside.sections.last()));
    assert(inside.sections.filter(keep) == kept.filter(keep));
    lemma_closing_twice(stack.sections, depth, closing_depth);
}

/// Sibling isolation. A configuration set inside one section does not reach
/// the next section of the same level: its stack is the one it would have
/// been without the first section.
pub proof fn lemma_sibling_is_isolated<O>(
    stack: StackView<O>,
    depth: nat,
    name: Seq<char>,
    line: nat,
    options: O,
    sibling_name: Seq<char>,
    sibling_line: nat,
)
    ensures
        stack.opened(depth, name, line).with_options(options).opened(
            depth,
            sibling_name,
            sibling_line,
        ) == stack.opened(depth, sibling_name, sibling_line),
{
    lemma_closed_section_leaves_no_trace(
        stack,
        depth,
        name,
        line,
        stack.closed_at(depth).current_options(),
        options,
        depth,
        sibling_name,
        sibling_line,
    );
}

/// A block that is no data block: a heading, a configuration block, or a
/// node that the scan passes over.
pub open spec fn is_not_data(block: BlockView) -> bool {
    match block {
        BlockView::Heading(_) => true,
        BlockView::Code(code) => code.is_configuration(),
        BlockView::Other => true,
    }
}

/// A block that leaves the open sections as they are: a data block, or a
/// node that the scan passes over.
pub open spec fn is_not_scope(block: BlockView) -> bool {
    match block {
        BlockView::Heading(_) => false,
        BlockView::Code(code) => !code.is_configuration(),
        BlockView::Other => true,
    }
}

/// The depths of the open sections grow strictly at every point of a scan
/// that began so.
pub proof fn lemma_scan_keeps_depths_increasing<O: MergeSerialized>(
    from: Scan<O>,
    blocks: Seq<BlockView>,
)
    requires
        from.stack.increasing(),
    ensures
        from.run(blocks) matches Ok(reached) ==> reached.stack.increasing(),
    decreases blocks.len(),
{
    if blocks.len() > 0 {
        lemma_scan_keeps_depths_increasing(from, blocks.drop_last());
        if let Ok(before) = from.run(blocks.drop_last()) {
            if let BlockView::Heading(heading) = blocks.last() {
                if let Some(name) = heading.label() {
                    lemma_heading_truncates(
                        before.stack,
                        heading.depth,
                        name,
                        heading.line,
                        before.stack.closed_at(heading.depth).current_options(),
                    );
                }
            }
        }
    }
}

/// No-emit rule. Headings, configuration blocks and passed-over nodes alone
/// emit nothing: where no argument is pending, a run of them leaves the test
/// cases as they were, and leaves nothing pending for the next heading or the
/// end of the document to emit.
pub proof fn lemma_no_data_no_case<O: MergeSerialized>(from: Scan<O>, blocks: Seq<BlockView>)
    requires
        from.pending.len() == 0,
        forall|i: int| 0 <= i < blocks.len() ==> is_not_data(#[trigger] blocks[i]),
    ensures
        from.run(blocks) matches Ok(reached) ==> {
            &&& reached.cases == from.cases
            &&& reached.pending.len() == 0
            &&& reached.flushed().cases == from.cases
        },
    decreases blocks.len(),
{
    if blocks.len() > 0 {
        lemma_no_data_no_case(from, blocks.drop_last());
        assert(is_not_data(blocks[blocks.len() - 1]));
    }
}

/// No-emit rule, for one heading. A heading under which only headings,
/// configuration blocks and passed-over nodes follow emits no test case of
/// its own: after them the test cases are those that were there once the
/// heading had closed the case before it.
pub proof fn lemma_heading_without_data_emits_nothing<O: MergeSerialized>(
    from: Scan<O>,
    heading: BlockView,
    blocks: Seq<BlockView>,
)
    requires
        heading is Heading,
        forall|i: int| 0 <= i < blocks.len() ==> is_not_data(#[trigger] blocks[i]),
    ensures
        from.step(heading) matches Ok(entered) ==> entered.cases == from.flushed().cases && (
        entered.run(blocks) matches Ok(reached) ==> reached.flushed().cases == entered.cases),
{
    if let Ok(entered) = from.step(heading) {
        lemma_no_data_no_case(entered, blocks);
    }
}

/// A document without a data block has no test case.
pub proof fn lemma_no_data_no_extraction<O: MergeSerialized>(
    blocks: Seq<BlockView>,
    root_options: O,
)
    requires
        forall|i: int| 0 <= i < blocks.len() ==> is_not_data(#[trigger] blocks[i]),
    ensures
        extraction(blocks, root_options) matches Ok(cases) ==> cases.len() == 0,
{
    lemma_no_data_no_case(Scan::start(root_options), blocks);
}

/// Order preservation. A test case, once emitted, keeps its place and its
/// content: the cases emitted after any prefix of the blocks are the first
/// cases emitted after all of them, and so the first of the extraction.
pub proof fn lemma_cases_only_grow<O: MergeSerialized>(
    from: Scan<O>,
    blocks: Seq<BlockView>,
    count: int,
)
    requires
        0 <= count <= blocks.len(),
        from.run(blocks) is Ok,
    ensures
        from.run(blocks.take(count)) matches Ok(reached) && ({
            let end = from.run(blocks)->Ok_0;
            &&& reached.cases.len() <= end.cases.len()
            &&& end.cases.take(reached.cases.len() as int) == reached.cases
            &&& end.flushed().cases.take(reached.cases.len() as int) == reached.cases
        }),
    decreases blocks.len() - count,
{
    let end = from.run(blocks)->Ok_0;
    if count == blocks.len() {
        assert(blocks.take(count) =~= blocks);
        assert(end.cases.take(end.cases.len() as int) =~= end.cases);
        assert(end.flushed().cases.take(end.cases.len() as int) =~= end.cases);
    } else {
        assert(blocks.drop_last().take(count) =~= blocks.take(count));
        lemma_cases_only_grow(from, blocks.drop_last(), count);
        let reached = from.run(blocks.take(count))->Ok_0;
        let before = from.run(blocks.drop_last())->Ok_0;
        let emitted = reached.cases.len() as int;
        assert(before.step(blocks.last()) == Ok::<Scan<O>, ExtractErrorView>(end));
        assert(end.cases.take(before.cases.len() as int) =~= before.cases);
        assert(end.cases.take(emitted) =~= before.cases.take(emitted));
        assert(end.flushed().cases.take(emitted) =~= end.cases.take(emitted));
    }
}

/// Configuration inheritance, to the data. The configuration that a
/// configuration block sets is the configuration of the test case that the
/// data blocks after it make, as long as no heading and no other
/// configuration block comes between.
pub proof fn lemma_configuration_reaches_data<O: MergeSerialized>(
    from: Scan<O>,
    configuration: BlockView,
    options: O,
    blocks: Seq<BlockView>,
)
    requires
        configuration matches BlockView::Code(code) && code.is_configuration() && merged(
            from.stack.current_options(),
            code.value,
        ) == Ok::<O, Seq<char>>(options),
        forall|i: int| 0 <= i < blocks.len() ==> is_not_scope(#[trigger] blocks[i]),
    ensures
        from.step(configuration) matches Ok(set) && set.run(blocks) matches Ok(reached) && ({
            &&& reached.stack == from.stack.with_options(options)
            &&& reached.stack.current_options() == options
            &&& reached.pending.len() > 0 ==> reached.flushed().cases.last().options == options
        }),
    decreases blocks.len(),
{
    let set = from.step(configuration)->Ok_0;
    if blocks.len() > 0 {
        lemma_configuration_reaches_data(from, configuration, options, blocks.drop_last());
        assert(is_not_scope(blocks[blocks.len() - 1]));
    }
}

/// The depths of the open sections grow strictly in every state of a trace
/// that began so, whatever cloning a configuration and merging onto one give.
pub proof fn lemma_trace_keeps_depths_increasing<O: MergeSerialized + Clone>(
    from: Scan<O>,
    blocks: Seq<BlockView>,
    trace: Seq<Scan<O>>,
    count: int,
)
    requires
        from.stack.increasing(),
        from.is_trace(blocks, trace),
        0 <= count < trace.len(),
    ensures
        trace[count].stack.increasing(),
    decreases count,
{
    if count > 0 {
        lemma_trace_keeps_depths_increasing(from, blocks, trace, count - 1);
        let before = trace[count - 1];
        assert(before.may_step_to(blocks[count - 1], Ok(trace[count])));
        match blocks[count - 1] {
            BlockView::Heading(heading) => {
                let name = heading.label()->Some_0;
                lemma_heading_truncates(
                    before.stack,
                    heading.depth,
                    name,
                    heading.line,
                    trace[count].stack.current_options(),
                );
            },
            BlockView::Code(code) => {
                lemma_with_options_keeps_depths(
                    before.stack,
                    trace[count].stack.current_options(),
                );
            },
            BlockView::Other => {},
        }
    }
}

/// No-emit rule, whatever cloning a configuration and merging onto one
/// give: a trace over headings, configuration blocks and passed-over nodes
/// alone, begun with no argument pending, emits nothing and leaves nothing
/// pending.
pub proof fn lemma_trace_without_data_emits_nothing<O: MergeSerialized + Clone>(
    from: Scan<O>,
    blocks: Seq<BlockView>,
    trace: Seq<Scan<O>>,
    count: int,
)
    requires
        from.pending.len() == 0,
        forall|i: int| 0 <= i < blocks.len() ==> is_not_data(#[trigger] blocks[i]),
        from.is_trace(blocks, trace),
        0 <= count < trace.len(),
    ensures
        trace[count].cases == from.cases,
        trace[count].pending.len() == 0,
    decreases count,
{
    if count > 0 {
        lemma_trace_without_data_emits_nothing(from, blocks, trace, count - 1);
        assert(trace[count - 1].may_step_to(blocks[count - 1], Ok(trace[count])));
        assert(is_not_data(blocks[count - 1]));
    }
}

/// A document without a data block has no test case, whatever cloning a
/// configuration and merging onto one give.
pub proof fn lemma_no_data_may_extract_nothing<O: MergeSerialized + Clone>(
    blocks: Seq<BlockView>,
    root_options: O,
    cases: Seq<TestCaseView<O>>,
)
    requires
        forall|i: int| 0 <= i < blocks.len() ==> is_not_data(#[trigger] blocks[i]),
        may_extract_to(blocks, root_options, Ok(cases)),
    ensures
        cases.len() == 0,
{
    let start = Scan::start(root_options);
    let result = Ok::<Seq<TestCaseView<O>>, ExtractErrorView>(cases);
    let end = choose|end: Outcome<O>| #[trigger]
        start.may_run_to(blocks, end) && match end {
            Ok(reached) => exists|last: Scan<O>| #[trigger]
                reached.may_flush_to(last) && result == Ok::<
                    Seq<TestCaseView<O>>,
                    ExtractErrorView,
                >(last.cases),
            Err(error) => result == Err::<Seq<TestCaseView<O>>, ExtractErrorView>(error),
        };
    let reached = end->Ok_0;
    let trace = choose|trace: Seq<Scan<O>>| #[trigger]
        start.is_trace(blocks, trace) && trace.len() == blocks.len() + 1 && trace.last()
            == reached;
    lemma_trace_without_data_emits_nothing(start, blocks, trace, trace.len() - 1);
    let last = choose|last: Scan<O>| #[trigger]
        reached.may_flush_to(last) && result == Ok::<Seq<TestCaseView<O>>, ExtractErrorView>(
            last.cases,
        );
    assert(last.cases == reached.cases);
}

/// Order preservation, whatever cloning a configuration and merging onto
/// one give: the cases emitted at one state of a trace are the first cases
/// at every later state.
pub proof fn lemma_trace_cases_only_grow<O: MergeSerialized + Clone>(
    from: Scan<O>,
    blocks: Seq<BlockView>,
    trace: Seq<Scan<O>>,
    earlier: int,
    later: int,
)
    requires
        from.is_trace(blocks, trace),
        0 <= earlier <= later < trace.len(),
    ensures
        trace[earlier].cases.len() <= trace[later].cases.len(),
        trace[later].cases.take(trace[earlier].cases.len() as int) == trace[earlier].cases,
    decreases later - earlier,
{
    let emitted = trace[earlier].cases.len() as int;
    if earlier == later {
        assert(trace[later].cases.take(emitted) =~= trace[earlier].cases);
    } else {
        lemma_trace_cases_only_grow(from, blocks, trace, earlier, later - 1);
        let before = trace[later - 1];
        assert(before.may_step_to(blocks[later - 1], Ok(trace[later])));
        assert(trace[later].cases.take(before.cases.len() as int) =~= before.cases);
        assert(trace[later].cases.take(emitted) =~= before.cases.take(emitted));
    }
}

} // verus!
