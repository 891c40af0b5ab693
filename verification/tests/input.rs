use voice::daemon::input::{alpha_only, keep_marked, letters, ByteOffsetString, Iter};

fn words(s: &str) -> Vec<(usize, String)> {
    Iter::new(s).words().iter().map(|w| (w.segment_offset(), w.as_str().to_string())).collect()
}

fn pairs(expected: &[(usize, &str)]) -> Vec<(usize, String)> {
    expected.iter().map(|(o, w)| (*o, w.to_string())).collect()
}

#[test]
fn words_with_their_offsets() {
    assert_eq!(words("set mode to standard"), pairs(&[(0, "set"), (3, "mode"), (7, "to"), (9, "standard")]));
    assert_eq!(words("one"), pairs(&[(0, "one")]));
    assert_eq!(words("  a   b"), pairs(&[(0, "a"), (1, "b")]));
    assert_eq!(words("héllo wörld"), pairs(&[(0, "héllo"), (6, "wörld")]));
}

#[test]
fn the_last_character_hands_out_what_is_there() {
    assert_eq!(words("a b "), pairs(&[(0, "a"), (1, "b")]));
    assert_eq!(words("a  "), pairs(&[(0, "a"), (1, "")]));
    assert_eq!(words(" "), pairs(&[(0, "")]));
    assert_eq!(words(""), pairs(&[]));
}

#[test]
fn only_letters_stay() {
    let all = Iter::new("it's 4 o'clock, ok?").words();
    let cleaned: Vec<(usize, String)> = all
        .iter()
        .cloned()
        .map(alpha_only)
        .map(|w| (w.segment_offset(), w.as_str().to_string()))
        .collect();
    assert_eq!(cleaned, pairs(&[(0, "its"), (4, ""), (5, "oclock"), (13, "ok")]));
    let e = ByteOffsetString::default();
    assert!(e.is_empty());
    assert_eq!(e.segment_offset(), 0);
    assert_eq!(alpha_only(e).as_str(), "");
}

#[test]
fn consuming_and_swapping() {
    let mut w = ByteOffsetString::default();
    w.consume('h');
    w.consume('é');
    assert_eq!(w.as_str(), "hé");
    assert_eq!(w.segment_offset(), 0);
    let first = w.swap();
    assert_eq!(first.as_str(), "hé");
    assert_eq!(first.segment_offset(), 0);
    assert!(w.is_empty());
    assert_eq!(w.segment_offset(), 3);
    w.consume('日');
    let second = w.swap();
    assert_eq!(second.as_str(), "日");
    assert_eq!(second.segment_offset(), 3);
    assert_eq!(w.segment_offset(), 6);
    assert_eq!(Iter::new("x").clone(), Iter::new("x"));
}

#[test]
fn marked_characters_stay() {
    assert_eq!(letters("a1 é?"), vec![true, false, false, true, false]);
    assert_eq!(letters(""), Vec::<bool>::new());
    let word = Iter::new("  a1b2").words().remove(0);
    assert_eq!(word.as_str(), "a1b2");
    let kept = keep_marked(word.clone(), &vec![false, true, true, false]);
    assert_eq!(kept.as_str(), "1b");
    assert_eq!(kept.segment_offset(), word.segment_offset());
    assert_eq!(keep_marked(word.clone(), &vec![true; 4]), word);
    assert_eq!(keep_marked(word, &vec![false; 4]).as_str(), "");
}

#[test]
fn words_join_to_the_text_without_whitespace() {
    for s in ["set mode to standard", "  a   b", "a  ", "héllo wörld 日本", "x", " ", "a\tb\nc "] {
        let words = Iter::new(s).words();
        let joined: String = words.iter().map(|w| w.as_str().to_string()).collect();
        let spaceless: String = s.chars().filter(|c| !c.is_whitespace()).collect();
        assert_eq!(joined, spaceless, "on {s:?}");
        let mut end = 0;
        for w in &words {
            assert!(!w.as_str().chars().any(char::is_whitespace));
            assert_eq!(w.segment_offset(), end);
            end += w.as_str().len();
        }
    }
}
