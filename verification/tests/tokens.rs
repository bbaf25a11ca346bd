use leptos_workers::tokens::{
    pattern_match_hole, pattern_match_holes, tokenize, Delimiter, PatternError, TokenTree,
};

fn toks(ws: &[&str]) -> Vec<String> {
    ws.iter().map(|w| w.to_string()).collect()
}

#[test]
fn tokenize_flattens_groups() {
    let trees = vec![
        TokenTree::Ident("impl".to_string()),
        TokenTree::Ident("Fn".to_string()),
        TokenTree::Group { delimiter: Delimiter::Parenthesis, inner: "TestResponse".to_string() },
        TokenTree::Punct("+".to_string()),
        TokenTree::Literal("'static".to_string()),
        TokenTree::Group { delimiter: Delimiter::Bracket, inner: "u8 ; 4".to_string() },
        TokenTree::Group { delimiter: Delimiter::Brace, inner: "x".to_string() },
        TokenTree::Group { delimiter: Delimiter::Invisible, inner: "y".to_string() },
    ];
    assert_eq!(
        tokenize(&trees),
        toks(&["impl", "Fn", "(", "TestResponse", ")", "+", "'static", "[", "u8 ; 4", "]", "{", "x", "}", "", "y", ""])
    );
}

#[test]
fn tokenize_empty() {
    assert!(tokenize(&vec![]).is_empty());
}

#[test]
fn hole_gives_back_what_fills_it() {
    let pattern = toks(&["leptos_workers", ":", ":", "Receiver", "<", "@", ">"]);
    let value = toks(&["leptos_workers", ":", ":", "Receiver", "<", "Vec", "<", "u8", ">", ">"]);
    assert_eq!(pattern_match_hole(&pattern, &value), Ok(Some(toks(&["Vec", "<", "u8", ">"]))));
}

#[test]
fn hole_may_be_filled_with_nothing() {
    let pattern = toks(&["Receiver", "<", "@", ">"]);
    let value = toks(&["Receiver", "<", ">"]);
    assert_eq!(pattern_match_hole(&pattern, &value), Ok(Some(vec![])));
}

#[test]
fn value_that_does_not_fit_does_not_match() {
    let pattern = toks(&["Receiver", "<", "@", ">"]);
    assert_eq!(pattern_match_hole(&pattern, &toks(&["Sender", "<", "u8", ">"])), Ok(None));
    assert_eq!(pattern_match_hole(&pattern, &toks(&["Receiver", "<", "u8", ")"])), Ok(None));
}

#[test]
fn pattern_without_or_with_two_holes_is_refused() {
    let value = toks(&["u8"]);
    assert_eq!(pattern_match_hole(&toks(&["u8"]), &value), Err(PatternError::NotOneHole));
    assert_eq!(pattern_match_hole(&toks(&["@", "@"]), &value), Err(PatternError::NotOneHole));
}

#[test]
fn first_matching_pattern_wins() {
    let patterns = vec![
        toks(&["leptos_workers", ":", ":", "Receiver", "<", "@", ">"]),
        toks(&["flume", ":", ":", "Receiver", "<", "@", ">"]),
        toks(&["Receiver", "<", "@", ">"]),
    ];
    let value = toks(&["flume", ":", ":", "Receiver", "<", "T", ">"]);
    assert_eq!(pattern_match_holes(&patterns, &value), Ok(Some(toks(&["T"]))));
    let value = toks(&["Receiver", "<", "T", ">"]);
    assert_eq!(pattern_match_holes(&patterns, &value), Ok(Some(toks(&["T"]))));
    let value = toks(&["Sender", "<", "T", ">"]);
    assert_eq!(pattern_match_holes(&patterns, &value), Ok(None));
}

#[test]
fn bad_pattern_stops_the_search() {
    let patterns = vec![toks(&["Receiver"]), toks(&["Receiver", "<", "@", ">"])];
    let value = toks(&["Receiver", "<", "T", ">"]);
    assert_eq!(pattern_match_holes(&patterns, &value), Err(PatternError::NotOneHole));
    let patterns = vec![toks(&["Receiver", "<", "@", ">"]), toks(&["Receiver"])];
    assert_eq!(pattern_match_holes(&patterns, &value), Ok(Some(toks(&["T"]))));
}
