use md_test_cases::{
    push_test_case, ExtractError, Heading, Inline, MergeSerialized, SectionStack, TestCase,
};

#[derive(Clone, Copy, Debug, Default, PartialEq, Eq)]
struct Level {
    value: i64,
}

impl MergeSerialized for Level {
    fn merge_serialized(&self, source: String) -> Result<Self, String> {
        match source.trim().parse::<i64>() {
            Ok(value) => Ok(Level { value }),
            Err(error) => Err(error.to_string()),
        }
    }
}

fn heading(depth: u8, label: &str, line: usize) -> Heading {
    Heading { depth, children: vec![Inline::Text(label.to_owned())], line }
}

fn names(labels: &[&str]) -> Vec<String> {
    labels.iter().map(|label| label.to_string()).collect()
}

#[test]
fn new_stack_has_root_options_and_no_headings() {
    let stack = SectionStack::new(Level { value: 3 });
    assert_eq!(*stack.get_options(), Level { value: 3 });
    assert_eq!(stack.get_headings(), Vec::<String>::new());
    assert_eq!(stack.get_line(), 0);
}

#[test]
fn set_options_without_section_sets_the_root() {
    let mut stack = SectionStack::new(Level { value: 3 });
    stack.set_options(Level { value: 4 });
    assert_eq!(*stack.get_options(), Level { value: 4 });
    assert_eq!(stack.push_heading(heading(1, "A", 1)), Ok(()));
    assert_eq!(*stack.get_options(), Level { value: 4 });
    assert_eq!(stack.push_heading(heading(1, "B", 2)), Ok(()));
    assert_eq!(*stack.get_options(), Level { value: 4 });
}

#[test]
fn set_options_in_a_section_leaves_the_enclosing_scope() {
    let mut stack = SectionStack::new(Level { value: 1 });
    assert_eq!(stack.push_heading(heading(1, "A", 1)), Ok(()));
    assert_eq!(stack.push_heading(heading(2, "B", 2)), Ok(()));
    stack.set_options(Level { value: 2 });
    assert_eq!(*stack.get_options(), Level { value: 2 });
    assert_eq!(stack.get_headings(), names(&["A", "B"]));
    assert_eq!(stack.push_heading(heading(2, "C", 3)), Ok(()));
    assert_eq!(*stack.get_options(), Level { value: 1 });
    assert_eq!(stack.push_heading(heading(1, "D", 4)), Ok(()));
    assert_eq!(*stack.get_options(), Level { value: 1 });
}

#[test]
fn deeper_heading_nests() {
    let mut stack = SectionStack::new(Level { value: 0 });
    assert_eq!(stack.push_heading(heading(1, "A", 1)), Ok(()));
    assert_eq!(stack.push_heading(heading(2, "B", 3)), Ok(()));
    assert_eq!(stack.push_heading(heading(3, "C", 5)), Ok(()));
    assert_eq!(stack.get_headings(), names(&["A", "B", "C"]));
    assert_eq!(stack.get_line(), 5);
}

#[test]
fn same_level_heading_replaces_the_open_one() {
    let mut stack = SectionStack::new(Level { value: 0 });
    assert_eq!(stack.push_heading(heading(1, "A", 1)), Ok(()));
    assert_eq!(stack.push_heading(heading(2, "B", 3)), Ok(()));
    stack.set_options(Level { value: 9 });
    assert_eq!(stack.push_heading(heading(2, "C", 5)), Ok(()));
    assert_eq!(stack.get_headings(), names(&["A", "C"]));
    assert_eq!(*stack.get_options(), Level { value: 0 });
    assert_eq!(stack.get_line(), 5);
}

#[test]
fn shallower_heading_closes_every_deeper_section() {
    let mut stack = SectionStack::new(Level { value: 0 });
    assert_eq!(stack.push_heading(heading(1, "A", 1)), Ok(()));
    assert_eq!(stack.push_heading(heading(2, "B", 2)), Ok(()));
    assert_eq!(stack.push_heading(heading(4, "C", 3)), Ok(()));
    assert_eq!(stack.push_heading(heading(6, "D", 4)), Ok(()));
    assert_eq!(stack.push_heading(heading(2, "E", 5)), Ok(()));
    assert_eq!(stack.get_headings(), names(&["A", "E"]));
    assert_eq!(stack.push_heading(heading(1, "F", 6)), Ok(()));
    assert_eq!(stack.get_headings(), names(&["F"]));
}

#[test]
fn skipped_levels_keep_their_order() {
    let mut stack = SectionStack::new(Level { value: 0 });
    assert_eq!(stack.push_heading(heading(3, "A", 1)), Ok(()));
    assert_eq!(stack.push_heading(heading(5, "B", 2)), Ok(()));
    assert_eq!(stack.push_heading(heading(4, "C", 3)), Ok(()));
    assert_eq!(stack.get_headings(), names(&["A", "C"]));
    assert_eq!(stack.push_heading(heading(0, "D", 4)), Ok(()));
    assert_eq!(stack.get_headings(), names(&["D"]));
}

#[test]
fn heading_without_children_is_refused_and_changes_nothing() {
    let mut stack = SectionStack::new(Level { value: 0 });
    assert_eq!(stack.push_heading(heading(1, "A", 1)), Ok(()));
    let empty = Heading { depth: 1, children: vec![], line: 2 };
    assert_eq!(stack.push_heading(empty), Err(ExtractError::MalformedHeading));
    assert_eq!(stack.get_headings(), names(&["A"]));
    assert_eq!(stack.get_line(), 1);
}

#[test]
fn heading_with_another_child_is_refused() {
    let mut stack = SectionStack::new(Level { value: 0 });
    let other = Heading { depth: 1, children: vec![Inline::Other], line: 2 };
    assert_eq!(stack.push_heading(other), Err(ExtractError::MalformedHeading));
    let two = Heading {
        depth: 1,
        children: vec![Inline::Text("a".to_owned()), Inline::Text("b".to_owned())],
        line: 2,
    };
    assert_eq!(stack.push_heading(two), Err(ExtractError::MalformedHeading));
    let mixed = Heading {
        depth: 1,
        children: vec![Inline::Text("a".to_owned()), Inline::Other],
        line: 2,
    };
    assert_eq!(stack.push_heading(mixed), Err(ExtractError::MalformedHeading));
    assert_eq!(stack.get_headings(), Vec::<String>::new());
}

#[test]
fn set_merged_takes_a_merged_value() {
    let mut stack = SectionStack::new(Level { value: 0 });
    assert_eq!(stack.push_heading(heading(1, "A", 1)), Ok(()));
    let outcome = stack.get_options().merge_serialized("12".to_owned());
    assert_eq!(stack.set_merged(outcome, 3), Ok(()));
    assert_eq!(*stack.get_options(), Level { value: 12 });
}

#[test]
fn set_merged_turns_a_message_into_a_failure() {
    let mut stack = SectionStack::new(Level { value: 5 });
    assert_eq!(
        stack.set_merged(Err("no number".to_owned()), 17),
        Err(ExtractError::ConfigurationParseError { line: 17, message: "no number".to_owned() })
    );
    assert_eq!(*stack.get_options(), Level { value: 5 });
}

#[test]
fn unnamed_case_without_headings() {
    let stack = SectionStack::new(Level { value: 3 });
    let case = TestCase::new(vec!["a".to_owned()], &stack);
    assert_eq!(
        case,
        TestCase {
            name: "(Unnamed test)".to_owned(),
            headings: vec![],
            line_number: 0,
            options: Level { value: 3 },
            args: vec!["a".to_owned()],
        }
    );
}

#[test]
fn case_is_named_by_the_innermost_heading() {
    let mut stack = SectionStack::new(Level { value: 3 });
    assert_eq!(stack.push_heading(heading(1, "A", 2)), Ok(()));
    assert_eq!(stack.push_heading(heading(2, "B", 4)), Ok(()));
    assert_eq!(stack.push_heading(heading(3, "C", 8)), Ok(()));
    stack.set_options(Level { value: 6 });
    let case = TestCase::new(vec!["x".to_owned(), "y".to_owned()], &stack);
    assert_eq!(
        case,
        TestCase {
            name: "C".to_owned(),
            headings: names(&["A", "B"]),
            line_number: 8,
            options: Level { value: 6 },
            args: names(&["x", "y"]),
        }
    );
}

#[test]
fn push_test_case_without_arguments_does_nothing() {
    let stack = SectionStack::new(Level { value: 3 });
    let mut cases: Vec<TestCase<Level>> = vec![];
    let mut args: Vec<String> = vec![];
    push_test_case(&mut cases, &stack, &mut args);
    assert_eq!(cases, vec![]);
    assert_eq!(args, Vec::<String>::new());
}

#[test]
fn push_test_case_takes_the_arguments() {
    let mut stack = SectionStack::new(Level { value: 3 });
    assert_eq!(stack.push_heading(heading(1, "A", 2)), Ok(()));
    let mut cases: Vec<TestCase<Level>> = vec![];
    let mut args = names(&["x", "y"]);
    push_test_case(&mut cases, &stack, &mut args);
    assert_eq!(args, Vec::<String>::new());
    assert_eq!(
        cases,
        vec![TestCase {
            name: "A".to_owned(),
            headings: vec![],
            line_number: 2,
            options: Level { value: 3 },
            args: names(&["x", "y"]),
        }]
    );
    push_test_case(&mut cases, &stack, &mut args);
    assert_eq!(cases.len(), 1);
}

#[test]
fn default_case_is_empty() {
    let case: TestCase<Level> = TestCase::default();
    assert_eq!(case.name, "");
    assert_eq!(case.line_number, 0);
    assert_eq!(case.options, Level { value: 0 });
}
