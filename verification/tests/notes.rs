//! The notes field's lists and links.

use asst::notes::{links, on_enter, target, Enter};

#[test]
fn lists_carry_on() {
    let go = |s: &str| Enter::Continue(s.into());
    assert_eq!(on_enter("- milk"), Some(go("- ")));
    assert_eq!(on_enter("  * eggs"), Some(go("  * ")));
    assert_eq!(on_enter("- [x] call"), Some(go("- [ ] ")));
    assert_eq!(on_enter("9. step"), Some(go("10. ")));
    assert_eq!(on_enter("2) step"), Some(go("3) ")));
    assert_eq!(on_enter("- "), Some(Enter::End));
    assert_eq!(on_enter("3. "), Some(Enter::End));
    assert_eq!(on_enter("Just a line"), None);
    assert_eq!(on_enter("2026. A year"), None);
    assert_eq!(on_enter("-dash"), None);
}

#[test]
fn an_item_without_words_ends_its_list() {
    for line in ["- milk", "  * eggs", "- [x] call", "9. step", "2) step", "998. x"] {
        match on_enter(line) {
            Some(Enter::Continue(next)) => assert_eq!(on_enter(&next), Some(Enter::End), "{line}"),
            other => panic!("{line}: {other:?}"),
        }
    }
    // After the last number there is none that an item can have.
    assert_eq!(on_enter("999. x"), Some(Enter::Continue("1000. ".into())));
    assert_eq!(on_enter("1000. "), None);
}

#[test]
fn links_without_their_punctuation() {
    let found =
        |t: &str| -> Vec<String> { links(t).into_iter().map(|r| t[r].to_string()).collect() };
    assert_eq!(
        found("See https://example.com/a?b=1, then www.rust-lang.org."),
        ["https://example.com/a?b=1", "www.rust-lang.org"]
    );
    assert_eq!(
        found("(docs at https://en.wikipedia.org/wiki/Rust_(programming_language))"),
        ["https://en.wikipedia.org/wiki/Rust_(programming_language)"]
    );
    assert_eq!(
        found("[site](https://a.b/c) mailto:me@x.org"),
        ["https://a.b/c", "mailto:me@x.org"]
    );
    assert_eq!(found("nothttps://x.y https:// é https://ü.de"), ["https://ü.de"]);
    assert_eq!(target("www.a.org"), "https://www.a.org");
}
