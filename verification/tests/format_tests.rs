use uwiki_cli::format::{parse, render, ParseError};

fn rendered(title: &str, body: &str) -> Vec<u8> {
    render(
        &Some(title.as_bytes().to_vec()),
        &Some(body.as_bytes().to_vec()),
    )
}

#[test]
fn render_exact_happy() {
    assert_eq!(rendered("Home", "Hi"), b"---\ntitle: Home\n---\nHi".to_vec());
}

#[test]
fn render_empty_slots() {
    assert_eq!(render(&None, &None), b"---\ntitle: \n---\n".to_vec());
    assert_eq!(
        render(&Some(b"T".to_vec()), &None),
        b"---\ntitle: T\n---\n".to_vec()
    );
    assert_eq!(
        render(&None, &Some(b"B".to_vec())),
        b"---\ntitle: \n---\nB".to_vec()
    );
}

#[test]
fn round_trip_simple() {
    let (meta, body) = parse(&rendered("Home", "Hi")).unwrap();
    assert_eq!(meta.title, b"Home".to_vec());
    assert_eq!(body, b"Hi".to_vec());
}

#[test]
fn round_trip_multiline_body_with_delimiter() {
    let text = "first\n---\nsecond\n";
    let (meta, body) = parse(&rendered("A title", text)).unwrap();
    assert_eq!(meta.title, b"A title".to_vec());
    assert_eq!(body, text.as_bytes().to_vec());
}

#[test]
fn round_trip_empty_body() {
    let (meta, body) = parse(&rendered("T", "")).unwrap();
    assert_eq!(meta.title, b"T".to_vec());
    assert_eq!(body, b"".to_vec());
}

#[test]
fn parse_missing_title_on_empty_metadata() {
    assert_eq!(
        parse(&b"---\n---\nbody".to_vec()),
        Err(ParseError::MissingTitle)
    );
}

#[test]
fn parse_missing_title_on_other_keys() {
    assert_eq!(
        parse(&b"---\nauthor: me\n---\nbody".to_vec()),
        Err(ParseError::MissingTitle)
    );
}

#[test]
fn parse_missing_title_on_empty_value() {
    assert_eq!(
        parse(&b"---\ntitle: \n---\nbody".to_vec()),
        Err(ParseError::MissingTitle)
    );
}

#[test]
fn parse_empty_flow_mapping_is_missing_title() {
    assert_eq!(
        parse(&b"---\n{}\n---\nHi".to_vec()),
        Err(ParseError::MissingTitle)
    );
}

#[test]
fn parse_empty_flow_mapping_beside_title_line() {
    let (meta, body) = parse(&b"---\n{}\ntitle: T\n---\nB".to_vec()).unwrap();
    assert_eq!(meta.title, b"T".to_vec());
    assert_eq!(body, b"B".to_vec());
}

#[test]
fn parse_malformed_line_without_colon() {
    assert_eq!(
        parse(&b"---\nnot a pair\n---\nbody".to_vec()),
        Err(ParseError::MalformedMetadata)
    );
}

#[test]
fn parse_no_delimiters() {
    assert_eq!(
        parse(&b"plain text".to_vec()),
        Err(ParseError::MalformedMetadata)
    );
}

#[test]
fn parse_single_delimiter() {
    assert_eq!(
        parse(&b"---\ntitle: X".to_vec()),
        Err(ParseError::MalformedMetadata)
    );
}

#[test]
fn parse_empty_input() {
    assert_eq!(parse(&b"".to_vec()), Err(ParseError::MalformedMetadata));
}

#[test]
fn parse_accepts_preamble() {
    let (meta, body) = parse(&b"junk\n---\ntitle: T\n---\nB".to_vec()).unwrap();
    assert_eq!(meta.title, b"T".to_vec());
    assert_eq!(body, b"B".to_vec());
}

#[test]
fn parse_title_value_keeps_colons() {
    let (meta, _) = parse(&b"---\ntitle: a:b\n---\n".to_vec()).unwrap();
    assert_eq!(meta.title, b"a:b".to_vec());
}

#[test]
fn parse_first_title_wins() {
    let (meta, _) = parse(&b"---\ntitle: one\ntitle: two\n---\n".to_vec()).unwrap();
    assert_eq!(meta.title, b"one".to_vec());
}

#[test]
fn parse_skips_empty_metadata_lines() {
    let (meta, body) = parse(&b"---\n\ntitle: T\n\n---\nB".to_vec()).unwrap();
    assert_eq!(meta.title, b"T".to_vec());
    assert_eq!(body, b"B".to_vec());
}

#[test]
fn parse_value_without_space_after_colon() {
    let (meta, _) = parse(&b"---\ntitle:T\n---\n".to_vec()).unwrap();
    assert_eq!(meta.title, b"T".to_vec());
}

#[test]
fn parse_body_kept_verbatim() {
    let (_, body) = parse(&b"---\ntitle: T\n---\n  spaced\n\nlines\n".to_vec()).unwrap();
    assert_eq!(body, b"  spaced\n\nlines\n".to_vec());
}
