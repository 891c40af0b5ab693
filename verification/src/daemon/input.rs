//! Words of a text with their offsets, for telling spoken commands apart.

use crate::text::{chars_of, is_whitespace, whitespace};
use vstd::prelude::*;

verus! {

/// Whether a character is alphabetic, as `char::is_alphabetic` of the
/// standard library tells it: by the Unicode property `Alphabetic`.
pub uninterp spec fn alphabetic(c: char) -> bool;

/// `char::is_alphabetic` depends on the character alone.
pub assume_specification[ char::is_alphabetic ](c: char) -> (b: bool)
    ensures
        b == alphabetic(c),
;

/// The number of bytes that a character takes in UTF-8.
pub open spec fn utf8_len(c: char) -> int {
    if (c as u32) < 0x80 {
        1
    } else if (c as u32) < 0x800 {
        2
    } else if (c as u32) < 0x1_0000 {
        3
    } else {
        4
    }
}

pub fn len_utf8(c: char) -> (n: usize)
    ensures
        n == utf8_len(c),
        1 <= n <= 4,
{
    let u: u32 = c as u32;
    if u < 0x80 {
        1
    } else if u < 0x800 {
        2
    } else if u < 0x1_0000 {
        3
    } else {
        4
    }
}

/// A word in the making, as a plain value: where it starts, up to where
/// the text has been read, and the characters gathered so far. Offsets
/// count the bytes of the characters gathered, in this word and in the
/// words before it.
pub struct WordView {
    pub segment_start: int,
    pub cursor: int,
    pub text: Seq<char>,
}

impl WordView {
    pub open spec fn fresh() -> WordView {
        WordView { segment_start: 0, cursor: 0, text: Seq::empty() }
    }

    /// The word with one more character.
    pub open spec fn consume(self, c: char) -> WordView {
        WordView {
            segment_start: self.segment_start,
            cursor: self.cursor + utf8_len(c),
            text: self.text.push(c),
        }
    }

    /// The empty word that starts where this one ends.
    pub open spec fn successor(self) -> WordView {
        WordView { segment_start: self.cursor, cursor: self.cursor, text: Seq::empty() }
    }

    /// The word without its characters that are not alphabetic.
    pub open spec fn alpha_only(self) -> WordView {
        WordView {
            segment_start: self.segment_start,
            cursor: self.cursor,
            text: self.text.filter(|c: char| alphabetic(c)),
        }
    }
}

/// A run of characters and the offset at which it starts.
#[derive(Debug, PartialEq, Eq)]
pub struct ByteOffsetString {
    segment_start: usize,
    cursor: usize,
    sub: String,
}

impl View for ByteOffsetString {
    type V = WordView;

    closed spec fn view(&self) -> WordView {
        WordView {
            segment_start: self.segment_start as int,
            cursor: self.cursor as int,
            text: self.sub@,
        }
    }
}

impl Default for ByteOffsetString {
    fn default() -> (b: Self)
        ensures
            b@ == WordView::fresh(),
    {
        ByteOffsetString { segment_start: 0, cursor: 0, sub: String::new() }
    }
}

impl Clone for ByteOffsetString {
    fn clone(&self) -> (b: Self)
        ensures
            b == *self,
    {
        ByteOffsetString {
            segment_start: self.segment_start,
            cursor: self.cursor,
            sub: self.sub.clone(),
        }
    }
}

impl ByteOffsetString {
    pub fn segment_offset(&self) -> (offset: usize)
        ensures
            offset == self@.segment_start,
    {
        self.segment_start
    }

    /// The characters of the word.
    pub fn as_str(&self) -> (s: &str)
        ensures
            s@ == self@.text,
    {
        self.sub.as_str()
    }

    pub fn is_empty(&self) -> (b: bool)
        ensures
            b == (self@.text.len() == 0),
    {
        self.sub.as_str().is_empty()
    }

    /// Takes one more character into the word.
    pub fn consume(&mut self, c: char)
        requires
            old(self)@.cursor + 4 <= usize::MAX,
        ensures
            final(self)@ == old(self)@.consume(c),
    {
        self.sub.push(c);
        self.cursor += len_utf8(c);
    }

    /// Hands out the word and starts the next one where it ends.
    pub fn swap(&mut self) -> (word: Self)
        ensures
            word@ == old(self)@,
            final(self)@ == old(self)@.successor(),
    {
        let mut word = ByteOffsetString {
            segment_start: self.cursor,
            cursor: self.cursor,
            sub: String::new(),
        };
        std::mem::swap(self, &mut word);
        word
    }
}

/// The characters of `text` whose mark is set, in order.
pub open spec fn marked(text: Seq<char>, marks: Seq<bool>) -> Seq<char>
    decreases text.len(),
{
    if text.len() == 0 || marks.len() != text.len() {
        Seq::empty()
    } else {
        let before = marked(text.drop_last(), marks.drop_last());
        if marks.last() {
            before.push(text.last())
        } else {
            before
        }
    }
}

/// Marks the alphabetic characters of a text.
pub fn letters(text: &str) -> (marks: Vec<bool>)
    ensures
        marks@.len() == text@.len(),
        forall|i: int| 0 <= i < marks@.len() ==> marks@[i] == alphabetic(text@[i]),
{
    let chars = chars_of(text);
    let mut marks: Vec<bool> = Vec::new();
    let mut i: usize = 0;
    while i < chars.len()
        invariant
            i <= chars.len(),
            chars@ == text@,
            marks@.len() == i,
            forall|j: int| 0 <= j < i ==> marks@[j] == alphabetic(text@[j]),
        decreases chars.len() - i,
    {
        marks.push(chars[i].is_alphabetic());
        i += 1;
    }
    marks
}

/// The word with only those of its characters whose mark is set. Its
/// offsets stay.
pub fn keep_marked(bos: ByteOffsetString, marks: &Vec<bool>) -> (out: ByteOffsetString)
    requires
        marks@.len() == bos@.text.len(),
    ensures
        out@ == (WordView {
            segment_start: bos@.segment_start,
            cursor: bos@.cursor,
            text: marked(bos@.text, marks@),
        }),
{
    let chars = chars_of(bos.sub.as_str());
    let mut kept = String::new();
    let mut i: usize = 0;
    assert(kept@ =~= marked(chars@.take(0), marks@.take(0)));
    while i < chars.len()
        invariant
            i <= chars.len(),
            marks@.len() == chars@.len(),
            kept@ == marked(chars@.take(i as int), marks@.take(i as int)),
        decreases chars.len() - i,
    {
        proof {
            assert(chars@.take(i + 1).drop_last() =~= chars@.take(i as int));
            assert(marks@.take(i + 1).drop_last() =~= marks@.take(i as int));
        }
        if marks[i] {
            kept.push(chars[i]);
        }
        i += 1;
    }
    proof {
        assert(chars@.take(chars@.len() as int) =~= chars@);
        assert(marks@.take(marks@.len() as int) =~= marks@);
    }
    ByteOffsetString { segment_start: bos.segment_start, cursor: bos.cursor, sub: kept }
}

proof fn lemma_marked_letters(text: Seq<char>, marks: Seq<bool>)
    requires
        marks.len() == text.len(),
        forall|i: int| 0 <= i < marks.len() ==> marks[i] == alphabetic(text[i]),
    ensures
        marked(text, marks) == text.filter(|c: char| alphabetic(c)),
    decreases text.len(),
{
    reveal(Seq::filter);
    if text.len() > 0 {
        lemma_marked_letters(text.drop_last(), marks.drop_last());
    }
}

/// The word without its characters that are not alphabetic. Its offsets stay.
pub fn alpha_only(bos: ByteOffsetString) -> (out: ByteOffsetString)
    ensures
        out@ == bos@.alpha_only(),
{
    let marks = letters(bos.as_str());
    proof {
        lemma_marked_letters(bos@.text, marks@);
    }
    keep_marked(bos, &marks)
}

/// A text to take words from.
#[derive(Debug, PartialEq, Eq)]
pub struct Iter(pub String);

impl Clone for Iter {
    fn clone(&self) -> (it: Self)
        ensures
            it == *self,
    {
        Iter(self.0.clone())
    }
}

impl View for Iter {
    type V = Seq<char>;

    open spec fn view(&self) -> Seq<char> {
        self.0@
    }
}

/// The words handed out, and the word in the making, after all of `s` has
/// been read: a character that is no whitespace goes into the word in the
/// making; whitespace after a word that is not empty hands the word out.
pub open spec fn words_state(s: Seq<char>) -> (Seq<WordView>, WordView)
    decreases s.len(),
{
    if s.len() == 0 {
        (Seq::empty(), WordView::fresh())
    } else {
        let (done, word) = words_state(s.drop_last());
        if !whitespace(s.last()) {
            (done, word.consume(s.last()))
        } else if word.text.len() > 0 {
            (done.push(word), word.successor())
        } else {
            (done, word)
        }
    }
}

/// The words of `s`. The last character always hands out the word in the
/// making, even an empty one; the empty text has no word.
pub open spec fn words_of(s: Seq<char>) -> Seq<WordView> {
    if s.len() == 0 {
        Seq::empty()
    } else {
        let (done, word) = words_state(s.drop_last());
        if whitespace(s.last()) {
            done.push(word)
        } else {
            done.push(word.consume(s.last()))
        }
    }
}

/// The words of a list as plain values.
pub open spec fn word_views(words: Seq<ByteOffsetString>) -> Seq<WordView> {
    words.map_values(|w: ByteOffsetString| w@)
}

/// The number of bytes that a text takes in UTF-8.
pub open spec fn utf8_len_of(text: Seq<char>) -> int
    decreases text.len(),
{
    if text.len() == 0 {
        0
    } else {
        utf8_len_of(text.drop_last()) + utf8_len(text.last())
    }
}

/// The texts of the words, one after the other.
pub open spec fn joined_words(words: Seq<WordView>) -> Seq<char>
    decreases words.len(),
{
    if words.len() == 0 {
        Seq::empty()
    } else {
        joined_words(words.drop_last()) + words.last().text
    }
}

/// A word holds no whitespace, and it ends as many bytes after its start
/// as its characters take.
pub open spec fn is_word(w: WordView) -> bool {
    &&& w.cursor == w.segment_start + utf8_len_of(w.text)
    &&& forall|j: int| 0 <= j < w.text.len() ==> !whitespace(#[trigger] w.text[j])
}

/// The words stand one after the other: the first starts at offset 0, and
/// each of the others starts where the word before it ends.
pub open spec fn in_order(words: Seq<WordView>) -> bool {
    &&& forall|i: int| 0 <= i < words.len() ==> is_word(#[trigger] words[i])
    &&& words.len() > 0 ==> words[0].segment_start == 0
    &&& forall|i: int|
        0 <= i < words.len() - 1 ==> (#[trigger] words[i + 1]).segment_start == words[i].cursor
}

proof fn lemma_in_order_push(words: Seq<WordView>, w: WordView)
    requires
        in_order(words),
        is_word(w),
        w.segment_start == if words.len() > 0 {
            words.last().cursor
        } else {
            0
        },
    ensures
        in_order(words.push(w)),
        joined_words(words.push(w)) == joined_words(words) + w.text,
{
    let all = words.push(w);
    assert(all.drop_last() =~= words);
    assert forall|i: int| 0 <= i < all.len() implies is_word(#[trigger] all[i]) by {
        if i < words.len() {
            assert(all[i] == words[i]);
        }
    }
    assert forall|i: int| 0 <= i < all.len() - 1 implies (#[trigger] all[i + 1]).segment_start
        == all[i].cursor by {
        if i + 1 < words.len() {
            assert(all[i + 1] == words[i + 1]);
            assert(all[i] == words[i]);
        }
    }
}

proof fn lemma_words_state(s: Seq<char>)
    ensures
        in_order(words_state(s).0),
        is_word(words_state(s).1),
        words_state(s).1.segment_start == if words_state(s).0.len() > 0 {
            words_state(s).0.last().cursor
        } else {
            0
        },
        joined_words(words_state(s).0) + words_state(s).1.text == s.filter(
            |c: char| !whitespace(c),
        ),
        forall|i: int|
            0 <= i < words_state(s).0.len() ==> (#[trigger] words_state(s).0[i]).text.len() > 0,
    decreases s.len(),
{
    reveal(Seq::filter);
    if s.len() == 0 {
        assert(joined_words(Seq::<WordView>::empty()) + WordView::fresh().text =~= s.filter(
            |c: char| !whitespace(c),
        ));
    } else {
        let before = s.drop_last();
        lemma_words_state(before);
        let (done, word) = words_state(before);
        let c = s.last();
        let spaceless = before.filter(|c: char| !whitespace(c));
        if !whitespace(c) {
            let next = word.consume(c);
            assert(next.text.drop_last() =~= word.text);
            assert forall|j: int| 0 <= j < next.text.len() implies !whitespace(
                #[trigger] next.text[j],
            ) by {
                if j < word.text.len() {
                    assert(next.text[j] == word.text[j]);
                }
            }
            assert(joined_words(done) + next.text =~= spaceless.push(c));
        } else if word.text.len() > 0 {
            lemma_in_order_push(done, word);
            assert(joined_words(done.push(word)) + word.successor().text =~= spaceless);
        }
    }
}

/// What the words of a text are: none of them holds whitespace; one after
/// the other they give the text without its whitespace; the first starts
/// at offset 0 and each other word starts where the word before it ends,
/// offsets counting the bytes of the characters in the words; and only
/// the last word can be empty.
pub proof fn lemma_words(s: Seq<char>)
    ensures
        in_order(words_of(s)),
        joined_words(words_of(s)) == s.filter(|c: char| !whitespace(c)),
        forall|i: int|
            0 <= i < words_of(s).len() - 1 ==> (#[trigger] words_of(s)[i]).text.len() > 0,
        forall|i: int|
            0 <= i < words_of(s).len() - 1 ==> (#[trigger] words_of(s)[i + 1]).segment_start
                >= words_of(s)[i].segment_start + utf8_len_of(words_of(s)[i].text),
{
    reveal(Seq::filter);
    if s.len() == 0 {
        assert(joined_words(words_of(s)) =~= s.filter(|c: char| !whitespace(c)));
    } else {
        let before = s.drop_last();
        lemma_words_state(before);
        let (done, word) = words_state(before);
        let c = s.last();
        let spaceless = before.filter(|c: char| !whitespace(c));
        let last = if whitespace(c) {
            word
        } else {
            word.consume(c)
        };
        if !whitespace(c) {
            assert(last.text.drop_last() =~= word.text);
            assert forall|j: int| 0 <= j < last.text.len() implies !whitespace(
                #[trigger] last.text[j],
            ) by {
                if j < word.text.len() {
                    assert(last.text[j] == word.text[j]);
                }
            }
            assert(joined_words(done) + last.text =~= spaceless.push(c));
        }
        lemma_in_order_push(done, last);
        let all = words_of(s);
        assert(all == done.push(last));
        assert forall|i: int| 0 <= i < all.len() - 1 implies (#[trigger] all[i]).text.len()
            > 0 by {
            assert(all[i] == done[i]);
        }
        assert forall|i: int| 0 <= i < all.len() - 1 implies (#[trigger] all[i + 1]).segment_start
            >= all[i].segment_start + utf8_len_of(all[i].text) by {
            assert(is_word(all[i]));
        }
    }
}

proof fn lemma_cursor_bound(s: Seq<char>)
    ensures
        0 <= words_state(s).1.segment_start <= words_state(s).1.cursor <= 4 * s.len(),
    decreases s.len(),
{
    if s.len() > 0 {
        lemma_cursor_bound(s.drop_last());
    }
}

impl Iter {
    pub fn new(s: &str) -> (it: Self)
        ensures
            it@ == s@,
    {
        Iter(s.to_owned())
    }

    /// The words of the text, in order, each with the offset at which it starts.
    pub fn words(&self) -> (out: Vec<ByteOffsetString>)
        requires
            4 * self@.len() <= usize::MAX,
        ensures
            word_views(out@) == words_of(self@),
    {
        let chars = chars_of(self.0.as_str());
        let mut out: Vec<ByteOffsetString> = Vec::new();
        if chars.len() == 0 {
            assert(word_views(out@) =~= Seq::<WordView>::empty());
            return out;
        }
        let last: usize = chars.len() - 1;
        let mut bos = ByteOffsetString::default();
        let mut i: usize = 0;
        assert(word_views(out@) =~= words_state(chars@.take(0)).0);
        while i < last
            invariant
                i <= last,
                last == chars.len() - 1,
                4 * chars@.len() <= usize::MAX,
                word_views(out@) == words_state(chars@.take(i as int)).0,
                bos@ == words_state(chars@.take(i as int)).1,
            decreases last - i,
        {
            let c = chars[i];
            proof {
                assert(chars@.take(i + 1).drop_last() =~= chars@.take(i as int));
                lemma_cursor_bound(chars@.take(i as int));
            }
            if !is_whitespace(c) {
                bos.consume(c);
            } else if !bos.is_empty() {
                let ghost before = out@;
                let word = bos.swap();
                out.push(word);
                assert(word_views(before.push(word)) =~= word_views(before).push(word@));
            }
            i += 1;
        }
        let c = chars[last];
        proof {
            assert(chars@.drop_last() =~= chars@.take(last as int));
            lemma_cursor_bound(chars@.take(last as int));
        }
        if !is_whitespace(c) {
            bos.consume(c);
        }
        let ghost before = out@;
        let word = bos.swap();
        out.push(word);
        assert(word_views(before.push(word)) =~= word_views(before).push(word@));
        out
    }
}

} // verus!
