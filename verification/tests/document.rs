use md_test_cases::{
    extract, get_test_cases, Block, Code, ExtractError, Heading, Inline, MergeSerialized, TestCase,
};
use toml::{from_str, Table};

#[derive(Default, PartialEq, Eq, Debug, Clone, Copy)]
struct Options {
    foo: i64,
    bar: bool,
}

impl MergeSerialized for Options {
    fn merge_serialized(&self, source: String) -> Result<Self, String> {
        let values = from_str::<Table>(&source).map_err(|e| e.to_string())?;
        Ok(Options {
            foo: values
                .get("foo")
                .and_then(|v| v.as_integer())
                .unwrap_or(self.foo),
            bar: values
                .get("bar")
                .and_then(|v| v.as_bool())
                .unwrap_or(self.bar),
        })
    }
}

const FIXTURE: &str = "# Tests

## Fruits

```toml options
foo = 5
bar = true
```

### Apple

```
Granny Smith
```

```
red
```

### Pear

```toml options
bar = false
```

```
Bartlett
```

```
yellow
```

## Vegetables

```toml options
foo = 11
bar = true
```
### Potato

```
Russet
```

```
brown
```
";

fn case(
    name: &str,
    headings: &[&str],
    line_number: usize,
    options: Options,
    args: &[&str],
) -> TestCase<Options> {
    TestCase {
        name: name.to_owned(),
        headings: headings.iter().map(|h| h.to_string()).collect(),
        line_number,
        options,
        args: args.iter().map(|a| a.to_string()).collect(),
    }
}

fn heading(depth: u8, label: &str, line: usize) -> Block {
    Block::Heading(Heading { depth, children: vec![Inline::Text(label.to_owned())], line })
}

fn data(text: &str, line: usize) -> Block {
    Block::Code(Code { meta: None, value: text.to_owned(), line })
}

fn configuration(text: &str, line: usize) -> Block {
    Block::Code(Code { meta: Some("options".to_owned()), value: text.to_owned(), line })
}

#[test]
fn test_basic() {
    let content = FIXTURE.to_owned();
    let result = get_test_cases(content, Options::default()).unwrap();
    let expected = [
        TestCase {
            name: "Apple".to_owned(),
            headings: vec!["Tests".to_owned(), "Fruits".to_owned()],
            line_number: 10,
            options: Options { foo: 5, bar: true },
            args: vec!["Granny Smith".to_owned(), "red".to_owned()],
        },
        TestCase {
            name: "Pear".to_owned(),
            headings: vec!["Tests".to_owned(), "Fruits".to_owned()],
            line_number: 20,
            options: Options { foo: 5, bar: false },
            args: vec!["Bartlett".to_owned(), "yellow".to_owned()],
        },
        TestCase {
            name: "Potato".to_owned(),
            headings: vec!["Tests".to_owned(), "Vegetables".to_owned()],
            line_number: 40,
            options: Options { foo: 11, bar: true },
            args: vec!["Russet".to_owned(), "brown".to_owned()],
        },
    ];
    assert_eq!(result, expected);
}

#[test]
fn end_to_end_on_blocks() {
    let document = vec![
        heading(1, "Tests", 1),
        heading(2, "Fruits", 3),
        configuration("foo = 5\nbar = true", 5),
        heading(3, "Apple", 10),
        data("Granny Smith", 12),
        data("red", 16),
        heading(3, "Pear", 20),
        configuration("bar = false", 22),
        data("Bartlett", 26),
        data("yellow", 30),
    ];
    assert_eq!(
        extract(document, Options::default()),
        Ok(vec![
            case("Apple", &["Tests", "Fruits"], 10, Options { foo: 5, bar: true }, &["Granny Smith", "red"]),
            case("Pear", &["Tests", "Fruits"], 20, Options { foo: 5, bar: false }, &["Bartlett", "yellow"]),
        ])
    );
}

#[test]
fn configuration_after_the_data_still_counts_for_the_case() {
    let document = vec![
        heading(1, "Apple", 1),
        data("red", 3),
        configuration("bar = true", 7),
        heading(1, "Pear", 11),
        data("yellow", 13),
    ];
    assert_eq!(
        extract(document, Options::default()),
        Ok(vec![
            case("Apple", &[], 1, Options { foo: 0, bar: true }, &["red"]),
            case("Pear", &[], 11, Options { foo: 0, bar: false }, &["yellow"]),
        ])
    );
}

#[test]
fn siblings_do_not_share_configuration() {
    let content = "# Tests

## Fruits

```toml options
foo = 5
```

```
apple
```

## Vegetables

```toml options
bar = true
```

```
potato
```
";
    assert_eq!(
        get_test_cases(content.to_owned(), Options::default()),
        Ok(vec![
            case("Fruits", &["Tests"], 3, Options { foo: 5, bar: false }, &["apple"]),
            case("Vegetables", &["Tests"], 13, Options { foo: 0, bar: true }, &["potato"]),
        ])
    );
}

#[test]
fn nested_sections_inherit_and_closing_reverts() {
    let document = vec![
        configuration("foo = 1", 1),
        heading(1, "Outer", 5),
        configuration("bar = true", 7),
        heading(2, "Inner", 11),
        data("inherits", 13),
        configuration("foo = 2", 17),
        heading(3, "Innermost", 21),
        data("inherits more", 23),
        heading(2, "Second", 27),
        data("reverts to outer", 29),
        heading(1, "Next", 33),
        data("reverts to root", 35),
    ];
    assert_eq!(
        extract(document, Options::default()),
        Ok(vec![
            case("Inner", &["Outer"], 11, Options { foo: 2, bar: true }, &["inherits"]),
            case("Innermost", &["Outer", "Inner"], 21, Options { foo: 2, bar: true }, &["inherits more"]),
            case("Second", &["Outer"], 27, Options { foo: 1, bar: true }, &["reverts to outer"]),
            case("Next", &[], 33, Options { foo: 1, bar: false }, &["reverts to root"]),
        ])
    );
}

#[test]
fn rejected_configuration_reports_its_line_and_returns_no_case() {
    let content = "# Tests

```
kept back
```

## Broken

```toml options
foo = = 1
```

```
never reached
```
";
    match get_test_cases(content.to_owned(), Options::default()) {
        Err(ExtractError::ConfigurationParseError { line, message }) => {
            assert_eq!(line, 9);
            assert_eq!(message, from_str::<Table>("foo = = 1").unwrap_err().to_string());
        }
        other => panic!("unexpected result: {:?}", other),
    }
}

#[test]
fn rejected_configuration_carries_the_message() {
    let document = vec![data("a", 1), configuration("[", 4)];
    assert_eq!(
        extract(document, Options::default()),
        Err(ExtractError::ConfigurationParseError {
            line: 4,
            message: from_str::<Table>("[").unwrap_err().to_string(),
        })
    );
}

#[test]
fn heading_with_only_emphasis_is_malformed() {
    let content = "# *Tests*\n\n```\ndata\n```\n";
    assert_eq!(
        get_test_cases(content.to_owned(), Options::default()),
        Err(ExtractError::MalformedHeading)
    );
}

#[test]
fn heading_with_text_and_emphasis_is_malformed() {
    let content = "# Tests *all*\n\n```\ndata\n```\n";
    assert_eq!(
        get_test_cases(content.to_owned(), Options::default()),
        Err(ExtractError::MalformedHeading)
    );
}

#[test]
fn empty_heading_is_malformed() {
    let content = "#\n\n```\ndata\n```\n";
    assert_eq!(
        get_test_cases(content.to_owned(), Options::default()),
        Err(ExtractError::MalformedHeading)
    );
}

#[test]
fn malformed_heading_discards_earlier_cases() {
    let document = vec![
        heading(1, "A", 1),
        data("a", 3),
        Block::Heading(Heading { depth: 1, children: vec![Inline::Other], line: 7 }),
    ];
    assert_eq!(extract(document, Options::default()), Err(ExtractError::MalformedHeading));
}

#[test]
fn empty_document_has_no_cases() {
    assert_eq!(get_test_cases(String::new(), Options::default()), Ok(vec![]));
    assert_eq!(extract(vec![], Options::default()), Ok(vec![]));
}

#[test]
fn paragraphs_and_lists_are_passed_over() {
    let content = "Some prose.\n\n- a list\n- of items\n\n> a quote\n";
    assert_eq!(get_test_cases(content.to_owned(), Options::default()), Ok(vec![]));
}

#[test]
fn headings_without_data_emit_nothing() {
    let content = "# One\n\n## Two\n\n```toml options\nfoo = 3\n```\n\n# Three\n";
    assert_eq!(get_test_cases(content.to_owned(), Options::default()), Ok(vec![]));
}

#[test]
fn heading_with_only_nested_headings_emits_no_case_of_its_own() {
    let document = vec![
        heading(1, "Outer", 1),
        configuration("foo = 3", 3),
        heading(2, "Inner", 7),
        data("x", 9),
    ];
    assert_eq!(
        extract(document, Options::default()),
        Ok(vec![case("Inner", &["Outer"], 7, Options { foo: 3, bar: false }, &["x"])])
    );
}

#[test]
fn data_before_any_heading_is_unnamed() {
    let content = "```\nfirst\n```\n\n```\nsecond\n```\n";
    assert_eq!(
        get_test_cases(content.to_owned(), Options { foo: 7, bar: true }),
        Ok(vec![case("(Unnamed test)", &[], 0, Options { foo: 7, bar: true }, &["first", "second"])])
    );
}

#[test]
fn configuration_before_any_heading_sets_the_root() {
    let content = "```toml options\nfoo = 4\n```\n\n# A\n\n```\na\n```\n\n# B\n\n```\nb\n```\n";
    assert_eq!(
        get_test_cases(content.to_owned(), Options::default()),
        Ok(vec![
            case("A", &[], 5, Options { foo: 4, bar: false }, &["a"]),
            case("B", &[], 11, Options { foo: 4, bar: false }, &["b"]),
        ])
    );
}

#[test]
fn only_the_meta_tag_marks_configuration() {
    let content = "# A\n\n```options\nfoo = 4\n```\n\n```toml other\nbar = true\n```\n\n    indented\n";
    assert_eq!(
        get_test_cases(content.to_owned(), Options::default()),
        Ok(vec![case("A", &[], 1, Options::default(), &["foo = 4", "bar = true", "indented"])])
    );
}

#[test]
fn cases_come_in_document_order() {
    let document = vec![
        data("zero", 1),
        heading(2, "B", 5),
        data("one", 7),
        heading(1, "A", 11),
        data("two", 13),
        heading(2, "B", 17),
        data("three", 19),
    ];
    assert_eq!(
        extract(document, Options::default()),
        Ok(vec![
            case("(Unnamed test)", &[], 0, Options::default(), &["zero"]),
            case("B", &[], 5, Options::default(), &["one"]),
            case("A", &[], 11, Options::default(), &["two"]),
            case("B", &["A"], 17, Options::default(), &["three"]),
        ])
    );
}

#[test]
fn a_prefix_of_the_document_gives_a_prefix_of_the_cases() {
    let blocks = || {
        vec![
            heading(1, "A", 1),
            data("a", 3),
            heading(1, "B", 7),
            data("b", 9),
            heading(1, "C", 13),
            data("c", 15),
        ]
    };
    let all = extract(blocks(), Options::default()).unwrap();
    let mut first_three = blocks();
    first_three.truncate(3);
    let some = extract(first_three, Options::default()).unwrap();
    assert_eq!(some.len(), 1);
    assert_eq!(some[..], all[..1]);
}

#[test]
fn merging_nothing_changes_nothing() {
    let current = Options { foo: 5, bar: true };
    assert_eq!(current.merge_serialized(String::new()), Ok(current));
}

#[test]
fn merging_one_field_changes_only_that_field() {
    let current = Options { foo: 5, bar: true };
    assert_eq!(
        current.merge_serialized("bar = false".to_owned()),
        Ok(Options { foo: 5, bar: false })
    );
    assert_eq!(
        current.merge_serialized("foo = 9".to_owned()),
        Ok(Options { foo: 9, bar: true })
    );
    assert_eq!(current, Options { foo: 5, bar: true });
}

#[test]
fn code_is_configuration_only_with_the_exact_tag() {
    let code = |meta: Option<&str>| Code {
        meta: meta.map(|tag| tag.to_owned()),
        value: String::new(),
        line: 1,
    };
    assert!(code(Some("options")).is_configuration());
    assert!(!code(Some("Options")).is_configuration());
    assert!(!code(Some("options ")).is_configuration());
    assert!(!code(Some("")).is_configuration());
    assert!(!code(None).is_configuration());
}

#[test]
fn parser_output_and_hand_built_blocks_agree() {
    let content = "# A\n\n```toml options\nfoo = 2\n```\n\n```\nx\n```\n";
    let document = vec![heading(1, "A", 1), configuration("foo = 2", 3), data("x", 7)];
    assert_eq!(
        get_test_cases(content.to_owned(), Options::default()),
        extract(document, Options::default())
    );
}
