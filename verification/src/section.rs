//! The sections that are open at a point of the scan.

use crate::config::MergeSerialized;
use crate::document::Heading;
use crate::document::Inline;
use crate::error::ExtractError;
use crate::error::ExtractErrorView;
use std::mem::swap;
use vstd::prelude::*;

verus! {

/// One open section, as the contracts see it.
pub struct SectionView<O> {
    /// The level of the heading that opened the section.
    pub depth: nat,
    /// The heading's label.
    pub name: Seq<char>,
    /// The line of the heading.
    pub line: nat,
    /// The configuration in effect in the section.
    pub options: O,
}

/// The open sections, outermost first, over the configuration of the
/// document's root.
pub struct StackView<O> {
    pub root_options: O,
    pub sections: Seq<SectionView<O>>,
}

/// Whether a section is shallower than `depth`, so that a heading of level
/// `depth` leaves it open.
pub open spec fn shallower<O>(depth: nat) -> spec_fn(SectionView<O>) -> bool {
    |section: SectionView<O>| section.depth < depth
}

/// The label of a section.
pub open spec fn section_name<O>() -> spec_fn(SectionView<O>) -> Seq<char> {
    |section: SectionView<O>| section.name
}

impl<O> StackView<O> {
    /// The stack before any heading: no section is open.
    pub open spec fn start(root_options: O) -> StackView<O> {
        StackView { root_options, sections: Seq::empty() }
    }

    /// The configuration in effect: that of the innermost open section, or
    /// the root's where none is open.
    pub open spec fn current_options(self) -> O {
        if self.sections.len() == 0 {
            self.root_options
        } else {
            self.sections.last().options
        }
    }

    /// The labels of the open sections, outermost first.
    pub open spec fn headings(self) -> Seq<Seq<char>> {
        self.sections.map_values(section_name::<O>())
    }

    /// The line of the innermost open section, or 0 where none is open.
    pub open spec fn current_line(self) -> nat {
        if self.sections.len() == 0 {
            0
        } else {
            self.sections.last().line
        }
    }

    /// The depths grow strictly from the outermost section to the innermost.
    pub open spec fn increasing(self) -> bool {
        forall|i: int, j: int|
            0 <= i < j < self.sections.len() ==> self.sections[i].depth < self.sections[j].depth
    }

    /// The stack once every section of level `depth` or deeper is closed.
    pub open spec fn closed_at(self, depth: nat) -> StackView<O> {
        StackView {
            root_options: self.root_options,
            sections: self.sections.filter(shallower::<O>(depth)),
        }
    }

    /// The stack once a heading has closed what it closes and opened a section
    /// that holds `options`.
    pub open spec fn opened_with(
        self,
        depth: nat,
        name: Seq<char>,
        line: nat,
        options: O,
    ) -> StackView<O> {
        let kept = self.closed_at(depth);
        StackView {
            root_options: kept.root_options,
            sections: kept.sections.push(SectionView { depth, name, line, options }),
        }
    }

    /// The stack once a heading has closed what it closes and opened a section
    /// that inherits the configuration of the scope around it.
    pub open spec fn opened(self, depth: nat, name: Seq<char>, line: nat) -> StackView<O> {
        self.opened_with(depth, name, line, self.closed_at(depth).current_options())
    }

    /// The stack with `options` in place of the configuration in effect.
    pub open spec fn with_options(self, options: O) -> StackView<O> {
        if self.sections.len() == 0 {
            StackView { root_options: options, sections: self.sections }
        } else {
            let innermost = self.sections.last();
            StackView {
                root_options: self.root_options,
                sections: self.sections.update(
                    self.sections.len() - 1,
                    SectionView {
                        depth: innermost.depth,
                        name: innermost.name,
                        line: innermost.line,
                        options,
                    },
                ),
            }
        }
    }
}

/// Filtering keeps a sequence whose items all pass.
pub proof fn lemma_filter_keeps_all<A>(items: Seq<A>, keep: spec_fn(A) -> bool)
    requires
        forall|i: int| 0 <= i < items.len() ==> keep(#[trigger] items[i]),
    ensures
        items.filter(keep) == items,
    decreases items.len(),
{
    reveal(Seq::filter);
    if items.len() > 0 {
        lemma_filter_keeps_all(items.drop_last(), keep);
        assert(items.drop_last().push(items.last()) =~= items);
    }
}

struct Section<Options> {
    depth: u8,
    name: String,
    line: usize,
    options: Options,
}

impl<Options> View for Section<Options> {
    type V = SectionView<Options>;

    closed spec fn view(&self) -> SectionView<Options> {
        SectionView {
            depth: self.depth as nat,
            name: self.name@,
            line: self.line as nat,
            options: self.options,
        }
    }
}

spec fn section_view<Options>() -> spec_fn(Section<Options>) -> SectionView<Options> {
    |section: Section<Options>| section@
}

/// The sections open at the current point of a scan, and the configuration
/// that each holds.
///
/// The depths of the open sections grow strictly from the outermost to the
/// innermost. The fields are private and every method keeps this, so it holds
/// of every stack that a caller can get hold of.
pub struct SectionStack<Options: MergeSerialized + Clone> {
    root_options: Options,
    sections: Vec<Section<Options>>,
}

impl<Options: MergeSerialized + Clone> View for SectionStack<Options> {
    type V = StackView<Options>;

    closed spec fn view(&self) -> StackView<Options> {
        StackView {
            root_options: self.root_options,
            sections: self.sections@.map_values(section_view::<Options>()),
        }
    }
}

impl<Options: MergeSerialized + Clone> SectionStack<Options> {
    #[verifier::type_invariant]
    spec fn depths_increase(&self) -> bool {
        self@.increasing()
    }

    /// A stack with no open section, over the root's configuration.
    pub fn new(root_options: Options) -> (stack: Self)
        ensures
            stack@ == StackView::start(root_options),
            stack@.increasing(),
    {
        let stack = Self { root_options, sections: Vec::<Section<Options>>::new() };
        assert(stack@.sections =~= Seq::empty());
        stack
    }

    /// Overwrites the configuration in effect: that of the innermost open
    /// section, or the root's where none is open.
    pub fn set_options(&mut self, options: Options)
        ensures
            final(self)@ == old(self)@.with_options(options),
            final(self)@.increasing(),
    {
        proof {
            use_type_invariant(&*self);
        }
        // The sections are worked on outside the stack and put back at the
        // end, where the stack's invariant is checked once.
        let mut sections: Vec<Section<Options>> = Vec::new();
        swap(&mut self.sections, &mut sections);
        match sections.pop() {
            Some(innermost) => {
                sections.push(
                    Section {
                        depth: innermost.depth,
                        name: innermost.name,
                        line: innermost.line,
                        options,
                    },
                );
                proof {
                    let after = sections@.map_values(section_view::<Options>());
                    assert(after =~= old(self)@.with_options(options).sections);
                    assert(forall|i: int|
                        0 <= i < after.len() ==> after[i].depth == old(self)@.sections[i].depth);
                }
            },
            None => {
                self.root_options = options;
            },
        }
        swap(&mut self.sections, &mut sections);
    }

    /// Takes the outcome of merging a configuration block onto the
    /// configuration in effect: a merged value replaces the configuration in
    /// effect, a message becomes the failure of the block that starts on
    /// `line`, and leaves the stack as it was.
    pub fn set_merged(&mut self, outcome: Result<Options, String>, line: usize) -> (result: Result<
        (),
        ExtractError,
    >)
        ensures
            match outcome {
                Ok(options) => {
                    &&& result is Ok
                    &&& final(self)@ == old(self)@.with_options(options)
                },
                Err(message) => {
                    &&& result matches Err(error)
                    &&& error.deep_view() == (ExtractErrorView::ConfigurationParseError {
                        line: line as nat,
                        message: message@,
                    })
                    &&& final(self)@ == old(self)@
                },
            },
            final(self)@.increasing(),
    {
        proof {
            use_type_invariant(&*self);
        }
        match outcome {
            Ok(options) => {
                self.set_options(options);
                Ok(())
            },
            Err(message) => Err(ExtractError::ConfigurationParseError { line, message }),
        }
    }

    /// The configuration in effect.
    pub fn get_options(&self) -> (options: &Options)
        ensures
            *options == self@.current_options(),
    {
        let count = self.sections.len();
        if count > 0 {
            &self.sections[count - 1].options
        } else {
            &self.root_options
        }
    }

    /// The labels of the open sections, outermost first.
    pub fn get_headings(&self) -> (headings: Vec<String>)
        ensures
            headings.deep_view() == self@.headings(),
    {
        let mut headings: Vec<String> = Vec::new();
        let count = self.sections.len();
        let mut i: usize = 0;
        while i < count
            invariant
                count == self.sections.len(),
                i <= count,
                headings.len() == i,
                forall|k: int| 0 <= k < i ==> headings[k]@ == self.sections[k].name@,
            decreases count - i,
        {
            headings.push(self.sections[i].name.clone());
            i += 1;
        }
        assert(headings.deep_view() =~= self@.headings());
        headings
    }

    /// The line of the innermost open section's heading, or 0 where no
    /// section is open.
    pub fn get_line(&self) -> (line: usize)
        ensures
            line == self@.current_line(),
    {
        let count = self.sections.len();
        if count > 0 {
            self.sections[count - 1].line
        } else {
            0
        }
    }

    /// Takes a heading into account: closes every open section of the
    /// heading's level or deeper, then opens a section for the heading with a
    /// snapshot of the configuration of the scope around it.
    ///
    /// A heading without a label is refused, and the stack stays as it was.
    pub fn push_heading(&mut self, heading: Heading) -> (result: Result<(), ExtractError>)
        ensures
            match result {
                Ok(_) => {
                    &&& heading.deep_view().label() matches Some(name)
                    &&& final(self)@ == old(self)@.opened_with(
                        heading.depth as nat,
                        name,
                        heading.line as nat,
                        final(self)@.current_options(),
                    )
                    &&& cloned(
                        old(self)@.closed_at(heading.depth as nat).current_options(),
                        final(self)@.current_options(),
                    )
                },
                Err(error) => {
                    &&& heading.deep_view().label() is None
                    &&& error is MalformedHeading
                    &&& final(self)@ == old(self)@
                },
            },
            final(self)@.increasing(),
    {
        proof {
            use_type_invariant(&*self);
        }
        let depth = heading.depth;
        let line = heading.line;
        let mut children = heading.children;
        if children.len() != 1 {
            return Err(ExtractError::MalformedHeading);
        }
        let name = match children.pop() {
            Some(Inline::Text(text)) => text,
            _ => {
                return Err(ExtractError::MalformedHeading);
            },
        };
        // As in `set_options`, the sections are worked on outside the stack.
        let mut sections: Vec<Section<Options>> = Vec::new();
        swap(&mut self.sections, &mut sections);
        let ghost keep = shallower::<Options>(depth as nat);
        let ghost before = old(self)@.sections;
        assert forall|i: int, j: int| 0 <= i < j < sections.len() implies sections[i].depth
            < sections[j].depth by {
            assert(before[i].depth < before[j].depth);
        }
        loop
            invariant
                keep == shallower::<Options>(depth as nat),
                before == old(self)@.sections,
                self.root_options == old(self).root_options,
                self.sections@.len() == 0,
                sections@.map_values(section_view::<Options>()).filter(keep) == before.filter(keep),
                forall|i: int, j: int|
                    0 <= i < j < sections.len() ==> sections[i].depth < sections[j].depth,
            ensures
                forall|i: int| 0 <= i < sections.len() ==> sections[i].depth < depth,
            decreases sections.len(),
        {
            let count = sections.len();
            if count == 0 || sections[count - 1].depth < depth {
                break ;
            }
            proof {
                reveal(Seq::filter);
                let open = sections@.map_values(section_view::<Options>());
                assert(open.drop_last() =~= sections@.drop_last().map_values(
                    section_view::<Options>(),
                ));
                assert(!keep(open.last()));
            }
            sections.pop();
        }
        let options = if sections.len() > 0 {
            sections[sections.len() - 1].options.clone()
        } else {
            self.root_options.clone()
        };
        proof {
            let kept = sections@.map_values(section_view::<Options>());
            assert forall|i: int| 0 <= i < kept.len() implies keep(#[trigger] kept[i]) by {
                assert(sections[i].depth < depth);
            }
            lemma_filter_keeps_all(kept, keep);
            assert(kept == old(self)@.closed_at(depth as nat).sections);
        }
        sections.push(Section { depth, name, line, options });
        proof {
            let after = sections@.map_values(section_view::<Options>());
            assert(after =~= old(self)@.closed_at(depth as nat).sections.push(
                SectionView { depth: depth as nat, name: name@, line: line as nat, options },
            ));
            assert(children@ =~= heading.children@.drop_last());
            assert(heading.children.deep_view()[0] == heading.children[0].deep_view());
        }
        swap(&mut self.sections, &mut sections);
        Ok(())
    }
}

} // verus!
