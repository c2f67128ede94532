//! The test cases that an extraction emits.

use crate::config::MergeSerialized;
use crate::section::SectionStack;
use crate::section::StackView;
use vstd::prelude::*;

verus! {

/// One test case: the blocks of raw text found under a heading, with the
/// heading's label, the labels of the sections around it, and the
/// configuration in effect where the case was closed.
#[derive(Debug, Default, PartialEq, Eq)]
pub struct TestCase<Options: MergeSerialized> {
    /// The label of the innermost open heading, or `(Unnamed test)` where no
    /// heading was open.
    pub name: String,
    /// The labels of the enclosing headings, outermost first, without `name`.
    pub headings: Vec<String>,
    /// The line of the innermost open heading, or 0 where none was open.
    pub line_number: usize,
    /// A snapshot of the configuration in effect.
    pub options: Options,
    /// The raw text of the blocks, in the order of the document.
    pub args: Vec<String>,
}

/// A [`TestCase`], with text as sequences of characters.
pub struct TestCaseView<O> {
    pub name: Seq<char>,
    pub headings: Seq<Seq<char>>,
    pub line_number: nat,
    pub options: O,
    pub args: Seq<Seq<char>>,
}

impl<Options: MergeSerialized> DeepView for TestCase<Options> {
    type V = TestCaseView<Options>;

    open spec fn deep_view(&self) -> TestCaseView<Options> {
        TestCaseView {
            name: self.name@,
            headings: self.headings.deep_view(),
            line_number: self.line_number as nat,
            options: self.options,
            args: self.args.deep_view(),
        }
    }
}

/// The name of a test case that no heading stands above.
pub open spec fn unnamed() -> Seq<char> {
    "(Unnamed test)"@
}

impl<O> StackView<O> {
    /// The test case that `args` make under the open sections, holding
    /// `options`: the innermost heading names it, the others enclose it.
    pub open spec fn test_case_with(self, args: Seq<Seq<char>>, options: O) -> TestCaseView<O> {
        let path = self.headings();
        TestCaseView {
            name: if path.len() == 0 {
                unnamed()
            } else {
                path.last()
            },
            headings: if path.len() == 0 {
                path
            } else {
                path.drop_last()
            },
            line_number: self.current_line(),
            options,
            args,
        }
    }
}

impl<Options: MergeSerialized + Clone> TestCase<Options> {
    /// The test case that `args` make at the current point of the scan, with
    /// a snapshot of the configuration in effect.
    pub fn new(args: Vec<String>, section_stack: &SectionStack<Options>) -> (case: TestCase<
        Options,
    >)
        ensures
            case.deep_view() == section_stack@.test_case_with(args.deep_view(), case.options),
            cloned(section_stack@.current_options(), case.options),
    {
        let options = section_stack.get_options().clone();
        let mut headings = section_stack.get_headings();
        let ghost path = headings.deep_view();
        let name = match headings.pop() {
            Some(innermost) => {
                assert(innermost@ == path.last());
                innermost
            },
            None => "(Unnamed test)".to_owned(),
        };
        assert(path.len() > 0 ==> headings.deep_view() =~= path.drop_last());
        assert(path.len() == 0 ==> headings.deep_view() =~= path);
        TestCase { name, headings, line_number: section_stack.get_line(), options, args }
    }
}

} // verus!
