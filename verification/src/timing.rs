//! Timings: pieces of a transcription with their span in milliseconds,
//! and the steps that turn the tokens of a recording into what was said.

use crate::text::{chars_of, is_punctuation, is_whitespace, punctuation, trim_bounds, trimmed, whitespace};
use vstd::prelude::*;
use vstd::string::{StrSliceExecFns, StringExecFns};

verus! {

/// A timing as a plain value.
pub struct TimingView {
    pub start: int,
    pub end: int,
    pub text: Seq<char>,
}

impl TimingView {
    /// The text without the whitespace around it.
    pub open spec fn content(self) -> Seq<char> {
        trimmed(self.text)
    }

    /// The span is in order and starts at or after the recording's start.
    pub open spec fn well_formed(self) -> bool {
        0 <= self.start <= self.end
    }

    /// Both pieces as one: the smallest span that covers the two, and the
    /// first text followed by the second.
    pub open spec fn merge(self, other: TimingView) -> TimingView {
        TimingView {
            start: if self.start <= other.start {
                self.start
            } else {
                other.start
            },
            end: if self.end >= other.end {
                self.end
            } else {
                other.end
            },
            text: self.text + other.text,
        }
    }

    /// The piece goes on where the one before it ended: its text starts
    /// with neither whitespace nor punctuation.
    pub open spec fn is_continuation(self) -> bool {
        self.text.len() == 0 || !(whitespace(self.text[0]) || punctuation(self.text[0]))
    }

    /// The text ends in a full stop, an exclamation mark or a question mark.
    pub open spec fn ends_sentence(self) -> bool {
        self.text.len() > 0 && (self.text.last() == '.' || self.text.last() == '!'
            || self.text.last() == '?')
    }

    /// The content starts with an opening bracket: the engine's own
    /// remarks, which are no speech.
    pub open spec fn is_meta(self) -> bool {
        self.content().len() > 0 && self.content()[0] == '['
    }
}

/// A piece of a transcription: a text and the span in which it was said,
/// in milliseconds from the start of the recording.
#[derive(Debug, PartialEq, Eq)]
pub struct Timing {
    start: u32,
    end: u32,
    text: String,
}

impl View for Timing {
    type V = TimingView;

    closed spec fn view(&self) -> TimingView {
        TimingView { start: self.start as int, end: self.end as int, text: self.text@ }
    }
}

impl Clone for Timing {
    fn clone(&self) -> (t: Self)
        ensures
            t == *self,
    {
        Timing { start: self.start, end: self.end, text: self.text.clone() }
    }
}

impl Timing {
    pub fn new(start: u32, end: u32, text: String) -> (t: Self)
        ensures
            t@ == (TimingView { start: start as int, end: end as int, text: text@ }),
    {
        Timing { start, end, text }
    }

    pub fn start(&self) -> (ms: u32)
        ensures
            ms == self@.start,
    {
        self.start
    }

    pub fn end(&self) -> (ms: u32)
        ensures
            ms == self@.end,
    {
        self.end
    }

    /// The text as it was given.
    pub fn text(&self) -> (s: &str)
        ensures
            s@ == self@.text,
    {
        self.text.as_str()
    }

    /// The text without the whitespace around it.
    pub fn content(&self) -> (s: &str)
        ensures
            s@ == self@.content(),
    {
        let chars = chars_of(self.text.as_str());
        let (from, to) = trim_bounds(chars.as_slice());
        self.text.as_str().substring_char(from, to)
    }

    pub fn combine(&self, other: &Timing) -> (t: Timing)
        ensures
            t@ == self@.merge(other@),
    {
        let mut text = self.text.clone();
        text.append(other.text.as_str());
        Timing {
            start: if self.start <= other.start {
                self.start
            } else {
                other.start
            },
            end: if self.end >= other.end {
                self.end
            } else {
                other.end
            },
            text,
        }
    }

    pub fn is_continuation(&self) -> (b: bool)
        ensures
            b == self@.is_continuation(),
    {
        if self.text.as_str().is_empty() {
            return true;
        }
        let first = self.text.as_str().get_char(0);
        !(is_whitespace(first) || is_punctuation(first))
    }

    pub fn ends_sentence(&self) -> (b: bool)
        ensures
            b == self@.ends_sentence(),
    {
        let chars = chars_of(self.text.as_str());
        if chars.len() == 0 {
            return false;
        }
        let last = chars[chars.len() - 1];
        last == '.' || last == '!' || last == '?'
    }

    pub fn is_meta(&self) -> (b: bool)
        ensures
            b == self@.is_meta(),
    {
        let chars = chars_of(self.text.as_str());
        let (from, to) = trim_bounds(chars.as_slice());
        from < to && chars[from] == '['
    }
}

/// The timings of a list as plain values.
pub open spec fn views(ts: Seq<Timing>) -> Seq<TimingView> {
    ts.map_values(|t: Timing| t@)
}

/// Every piece that continues the piece before it is merged into it. The
/// first piece always stands for itself.
pub open spec fn joined(ts: Seq<TimingView>) -> Seq<TimingView>
    decreases ts.len(),
{
    if ts.len() == 0 {
        ts
    } else {
        let before = joined(ts.drop_last());
        if before.len() > 0 && ts.last().is_continuation() {
            before.drop_last().push(before.last().merge(ts.last()))
        } else {
            before.push(ts.last())
        }
    }
}

/// The pieces grouped into sentences: a sentence runs up to and with the
/// first piece that ends one. What follows the last such piece is a
/// sentence too.
pub open spec fn sentences(ts: Seq<TimingView>) -> Seq<TimingView>
    decreases ts.len(),
{
    if ts.len() == 0 {
        ts
    } else {
        let before = sentences(ts.drop_last());
        if before.len() > 0 && !ts[ts.len() - 2].ends_sentence() {
            before.drop_last().push(before.last().merge(ts.last()))
        } else {
            before.push(ts.last())
        }
    }
}

/// All pieces merged into one, in order; nothing where there is no piece.
pub open spec fn reduced(ts: Seq<TimingView>) -> Option<TimingView>
    decreases ts.len(),
{
    if ts.len() == 0 {
        None
    } else {
        match reduced(ts.drop_last()) {
            None => Some(ts.last()),
            Some(acc) => Some(acc.merge(ts.last())),
        }
    }
}

/// The pieces that are speech: those whose content does not start with an
/// opening bracket.
pub open spec fn speech(ts: Seq<TimingView>) -> Seq<TimingView> {
    ts.filter(|t: TimingView| !t.is_meta())
}

proof fn lemma_views_push(ts: Seq<Timing>, t: Timing)
    ensures
        views(ts.push(t)) == views(ts).push(t@),
{
    assert(views(ts.push(t)) =~= views(ts).push(t@));
}

proof fn lemma_views_step(ts: Seq<Timing>, i: int)
    requires
        0 <= i < ts.len(),
    ensures
        views(ts).take(i + 1).drop_last() == views(ts).take(i),
        views(ts).take(i + 1).last() == ts[i]@,
        views(ts).take(i + 1).len() == i + 1,
{
    assert(views(ts).take(i + 1).drop_last() =~= views(ts).take(i));
}

/// Merges every continuation into the piece before it.
pub fn join_continuations(ts: &Vec<Timing>) -> (out: Vec<Timing>)
    ensures
        views(out@) == joined(views(ts@)),
{
    let mut out: Vec<Timing> = Vec::new();
    let mut i: usize = 0;
    assert(views(out@) =~= joined(views(ts@).take(0)));
    while i < ts.len()
        invariant
            i <= ts.len(),
            views(out@) == joined(views(ts@).take(i as int)),
        decreases ts.len() - i,
    {
        let ghost before = out@;
        proof {
            lemma_views_step(ts@, i as int);
        }
        if out.len() > 0 && ts[i].is_continuation() {
            let last = out.pop().unwrap();
            let merged = last.combine(&ts[i]);
            out.push(merged);
            proof {
                assert(before.drop_last() == before.take(before.len() - 1));
                assert(views(before.drop_last()) =~= views(before).drop_last());
                lemma_views_push(before.drop_last(), merged);
            }
        } else {
            let t = ts[i].clone();
            out.push(t);
            proof {
                lemma_views_push(before, t);
            }
        }
        i += 1;
    }
    assert(views(ts@).take(ts@.len() as int) =~= views(ts@));
    out
}

/// Groups the pieces into sentences.
pub fn collect_sentences(ts: &Vec<Timing>) -> (out: Vec<Timing>)
    ensures
        views(out@) == sentences(views(ts@)),
{
    let mut out: Vec<Timing> = Vec::new();
    let mut i: usize = 0;
    assert(views(out@) =~= sentences(views(ts@).take(0)));
    while i < ts.len()
        invariant
            i <= ts.len(),
            views(out@) == sentences(views(ts@).take(i as int)),
        decreases ts.len() - i,
    {
        let ghost before = out@;
        proof {
            lemma_views_step(ts@, i as int);
        }
        if out.len() > 0 && i > 0 && !ts[i - 1].ends_sentence() {
            let last = out.pop().unwrap();
            let merged = last.combine(&ts[i]);
            out.push(merged);
            proof {
                assert(before.drop_last() == before.take(before.len() - 1));
                assert(views(before.drop_last()) =~= views(before).drop_last());
                lemma_views_push(before.drop_last(), merged);
                assert(views(ts@).take(i + 1)[i - 1] == ts@[i - 1]@);
            }
        } else {
            let t = ts[i].clone();
            out.push(t);
            proof {
                lemma_views_push(before, t);
                if i > 0 {
                    assert(views(ts@).take(i + 1)[i - 1] == ts@[i - 1]@);
                } else {
                    assert(sentences(views(ts@).take(0)).len() == 0);
                }
            }
        }
        i += 1;
    }
    assert(views(ts@).take(ts@.len() as int) =~= views(ts@));
    out
}

/// Keeps the pieces that are speech.
pub fn drop_meta(ts: &Vec<Timing>) -> (out: Vec<Timing>)
    ensures
        views(out@) == speech(views(ts@)),
{
    let mut out: Vec<Timing> = Vec::new();
    let mut i: usize = 0;
    proof {
        reveal(Seq::filter);
        assert(views(out@) =~= speech(views(ts@).take(0)));
    }
    while i < ts.len()
        invariant
            i <= ts.len(),
            views(out@) == speech(views(ts@).take(i as int)),
        decreases ts.len() - i,
    {
        let ghost before = out@;
        proof {
            reveal(Seq::filter);
            lemma_views_step(ts@, i as int);
        }
        if !ts[i].is_meta() {
            let t = ts[i].clone();
            out.push(t);
            proof {
                lemma_views_push(before, t);
            }
        }
        i += 1;
    }
    assert(views(ts@).take(ts@.len() as int) =~= views(ts@));
    out
}

/// Merges all pieces into one.
pub fn reduce(ts: &Vec<Timing>) -> (r: Option<Timing>)
    ensures
        r is Some == reduced(views(ts@)) is Some,
        r is Some ==> r->0@ == reduced(views(ts@))->0,
{
    let mut acc: Option<Timing> = None;
    let mut i: usize = 0;
    assert(views(ts@).take(0).len() == 0);
    while i < ts.len()
        invariant
            i <= ts.len(),
            acc is Some == reduced(views(ts@).take(i as int)) is Some,
            acc is Some ==> acc->0@ == reduced(views(ts@).take(i as int))->0,
        decreases ts.len() - i,
    {
        proof {
            lemma_views_step(ts@, i as int);
        }
        acc = match acc {
            None => Some(ts[i].clone()),
            Some(t) => Some(t.combine(&ts[i])),
        };
        i += 1;
    }
    assert(views(ts@).take(ts@.len() as int) =~= views(ts@));
    acc
}

/// Every piece of the list has its span in order.
pub open spec fn all_well_formed(ts: Seq<TimingView>) -> bool {
    forall|i: int| 0 <= i < ts.len() ==> (#[trigger] ts[i]).well_formed()
}

/// Merging keeps spans in order: the steps that turn tokens into what was
/// said never give a piece whose span is out of order, unless they were
/// given one.
pub proof fn lemma_steps_keep_spans_in_order(ts: Seq<TimingView>)
    requires
        all_well_formed(ts),
    ensures
        all_well_formed(joined(ts)),
        all_well_formed(sentences(ts)),
        all_well_formed(speech(ts)),
        reduced(ts) is Some ==> reduced(ts)->0.well_formed(),
    decreases ts.len(),
{
    reveal(Seq::filter);
    if ts.len() > 0 {
        let before = ts.drop_last();
        assert(all_well_formed(before)) by {
            assert forall|i: int| 0 <= i < before.len() implies (#[trigger] before[i]).well_formed() by {
                assert(before[i] == ts[i]);
            }
        }
        lemma_steps_keep_spans_in_order(before);
        assert(ts.last().well_formed());
        let j = joined(before);
        if j.len() > 0 {
            assert(j.last().well_formed());
            assert forall|i: int| 0 <= i < j.drop_last().len() implies (#[trigger] j.drop_last()[i]).well_formed() by {
                assert(j.drop_last()[i] == j[i]);
            }
        }
        let g = sentences(before);
        if g.len() > 0 {
            assert(g.last().well_formed());
            assert forall|i: int| 0 <= i < g.drop_last().len() implies (#[trigger] g.drop_last()[i]).well_formed() by {
                assert(g.drop_last()[i] == g[i]);
            }
        }
    }
}

} // verus!
