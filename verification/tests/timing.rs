use voice::timing::{collect_sentences, drop_meta, join_continuations, reduce, Timing};

fn t(start: u32, end: u32, text: &str) -> Timing {
    Timing::new(start, end, text.to_string())
}

#[test]
fn timing_accessors() {
    let x = t(10, 250, "  Hello, world!  ");
    assert_eq!(x.start(), 10);
    assert_eq!(x.end(), 250);
    assert_eq!(x.text(), "  Hello, world!  ");
    assert_eq!(x.content(), "Hello, world!");
    assert_eq!(t(0, 0, "   ").content(), "");
    assert_eq!(t(0, 0, "").content(), "");
    assert_eq!(x.clone(), x);
}

#[test]
fn combining_covers_both_spans() {
    assert_eq!(t(0, 1000, "Hello").combine(&t(1000, 2000, " world")), t(0, 2000, "Hello world"));
    assert_eq!(t(500, 600, "b").combine(&t(100, 200, "a")), t(100, 600, "ba"));
    assert_eq!(t(0, 900, "long").combine(&t(100, 200, "in")), t(0, 900, "longin"));
}

#[test]
fn continuations_and_sentence_ends() {
    assert!(t(0, 1, "lo").is_continuation());
    assert!(t(0, 1, "").is_continuation());
    assert!(t(0, 1, "9").is_continuation());
    assert!(!t(0, 1, " lo").is_continuation());
    assert!(!t(0, 1, "\tlo").is_continuation());
    assert!(!t(0, 1, ",").is_continuation());
    assert!(!t(0, 1, "'t").is_continuation());
    assert!(!t(0, 1, "[x").is_continuation());

    assert!(t(0, 1, " end.").ends_sentence());
    assert!(t(0, 1, ".").ends_sentence());
    assert!(t(0, 1, "what?").ends_sentence());
    assert!(t(0, 1, "no!").ends_sentence());
    assert!(!t(0, 1, "").ends_sentence());
    assert!(!t(0, 1, "end. ").ends_sentence());
    assert!(!t(0, 1, "end,").ends_sentence());

    assert!(t(0, 1, "[x]").is_meta());
    assert!(t(0, 1, "  [BLANK_AUDIO] ").is_meta());
    assert!(!t(0, 1, "x[").is_meta());
    assert!(!t(0, 1, "").is_meta());
    assert!(!t(0, 1, "   ").is_meta());
}

#[test]
fn joining_merges_continuations_into_the_piece_before() {
    assert_eq!(join_continuations(&vec![]), vec![]);
    assert_eq!(
        join_continuations(&vec![t(0, 10, " Hel"), t(10, 20, "lo"), t(20, 30, ","), t(30, 50, " wor"), t(50, 60, "ld"), t(60, 61, "!")]),
        vec![t(0, 20, " Hello"), t(20, 30, ","), t(30, 60, " world"), t(60, 61, "!")]
    );
    // The first piece stands for itself even if it continues nothing.
    assert_eq!(
        join_continuations(&vec![t(0, 10, "lo"), t(10, 20, "w")]),
        vec![t(0, 20, "low")]
    );
}

#[test]
fn sentences_run_up_to_their_end() {
    assert_eq!(collect_sentences(&vec![]), vec![]);
    assert_eq!(
        collect_sentences(&vec![t(0, 10, " One"), t(10, 11, "."), t(11, 20, " Two"), t(20, 30, " three"), t(30, 31, "?"), t(31, 40, " Four")]),
        vec![t(0, 11, " One."), t(11, 31, " Two three?"), t(31, 40, " Four")]
    );
    assert_eq!(
        collect_sentences(&vec![t(0, 1, "."), t(1, 2, "."), t(2, 3, "a")]),
        vec![t(0, 1, "."), t(1, 2, "."), t(2, 3, "a")]
    );
}

#[test]
fn meta_pieces_are_dropped() {
    assert_eq!(
        drop_meta(&vec![t(0, 1, " [a]"), t(1, 2, " b"), t(2, 3, "[c"), t(3, 4, "d["), t(4, 5, "")]),
        vec![t(1, 2, " b"), t(3, 4, "d["), t(4, 5, "")]
    );
}

#[test]
fn reducing_merges_everything() {
    assert_eq!(reduce(&vec![]), None);
    assert_eq!(reduce(&vec![t(3, 4, "x")]), Some(t(3, 4, "x")));
    assert_eq!(
        reduce(&vec![t(100, 200, "Hello"), t(200, 200, ","), t(50, 900, " world"), t(300, 400, "!")]),
        Some(t(50, 900, "Hello, world!"))
    );
}
