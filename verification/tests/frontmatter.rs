use toolshed::frontmatter::parse;

#[test]
fn basic_frontmatter() {
    let input = "---\nname: test\ndescription: A test skill\n---\n# Body\nContent here.";
    let (meta, body) = parse(input).unwrap();
    assert_eq!(*meta.get("name").unwrap(), "test");
    assert_eq!(*meta.get("description").unwrap(), "A test skill");
    assert_eq!(body, "# Body\nContent here.");
}

#[test]
fn no_frontmatter() {
    let input = "# Just a regular file\nNo frontmatter here.";
    let (meta, body) = parse(input).unwrap();
    assert!(meta.is_empty());
    assert_eq!(body, input);
}

#[test]
fn quoted_values() {
    let input = "---\nname: \"quoted-name\"\ndescription: 'single quoted'\n---\nBody";
    let (meta, body) = parse(input).unwrap();
    assert_eq!(*meta.get("name").unwrap(), "quoted-name");
    assert_eq!(*meta.get("description").unwrap(), "single quoted");
    assert_eq!(body, "Body");
}

#[test]
fn multiline_value() {
    let input = "---\nname: test\ndescription:\n  line one\n  line two\n---\nBody";
    let (meta, body) = parse(input).unwrap();
    assert_eq!(*meta.get("name").unwrap(), "test");
    assert_eq!(*meta.get("description").unwrap(), "line one\nline two");
    assert_eq!(body, "Body");
}

#[test]
fn no_closing_delimiter() {
    let input = "---\nname: test\nNo closing delimiter";
    let (meta, body) = parse(input).unwrap();
    assert!(meta.is_empty());
    assert_eq!(body, input);
}

#[test]
fn empty_body() {
    let input = "---\nname: test\n---\n";
    let (meta, body) = parse(input).unwrap();
    assert_eq!(*meta.get("name").unwrap(), "test");
    assert_eq!(body, "");
}

#[test]
fn leading_whitespace_before_delimiter_is_allowed() {
    let input = "\n  ---\nname: x\n---\nB";
    let (meta, body) = parse(input).unwrap();
    assert_eq!(*meta.get("name").unwrap(), "x");
    assert_eq!(body, "B");
}
