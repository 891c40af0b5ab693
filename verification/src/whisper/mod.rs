//! The transcription worker's decisions: which tokens of the inference
//! engine reach the user and with what timing, which models are loaded,
//! and how a run of the engine is judged.

pub mod transcription;

use crate::text::{chars_of, ends_with, starts_with};
use crate::timing::{views, Timing, TimingView};
use std::collections::HashMap;
use transcription::Model;
use vstd::prelude::*;

verus! {

/// The engine's own tokens, which never reach the user: those that start
/// with `[_`, and those that start with `<|` and end with `|>`.
pub open spec fn internal_token(text: Seq<char>) -> bool {
    seq!['[', '_'].is_prefix_of(text) || (seq!['<', '|'].is_prefix_of(text) && seq![
        '|',
        '>',
    ].is_suffix_of(text))
}

pub fn is_internal_token(text: &str) -> (b: bool)
    ensures
        b == internal_token(text@),
{
    let chars = chars_of(text);
    let bracket = vec!['[', '_'];
    let open = vec!['<', '|'];
    let close = vec!['|', '>'];
    assert(bracket@ =~= seq!['[', '_']);
    assert(open@ =~= seq!['<', '|']);
    assert(close@ =~= seq!['|', '>']);
    starts_with(chars.as_slice(), bracket.as_slice()) || (starts_with(
        chars.as_slice(),
        open.as_slice(),
    ) && ends_with(chars.as_slice(), close.as_slice()))
}

/// A token as the engine reports it: its text, and its span in the
/// engine's ticks of ten milliseconds.
#[derive(Debug, PartialEq, Eq)]
pub struct Token {
    pub text: String,
    pub t0: i64,
    pub t1: i64,
}

/// A token as a plain value.
pub struct TokenView {
    pub text: Seq<char>,
    pub t0: int,
    pub t1: int,
}

impl View for Token {
    type V = TokenView;

    open spec fn view(&self) -> TokenView {
        TokenView { text: self.text@, t0: self.t0 as int, t1: self.t1 as int }
    }
}

impl TokenView {
    /// Both ends of the span, in milliseconds, are non-negative and fit 32 bits.
    pub open spec fn in_range(self) -> bool {
        0 <= 10 * self.t0 <= u32::MAX && 0 <= 10 * self.t1 <= u32::MAX
    }

    /// The token reaches the user.
    pub open spec fn is_spoken(self) -> bool {
        !internal_token(self.text)
    }

    /// The token's timing: a tick is ten milliseconds.
    pub open spec fn timing(self) -> TimingView {
        TimingView { start: 10 * self.t0, end: 10 * self.t1, text: self.text }
    }
}

impl Token {
    pub fn new(text: String, t0: i64, t1: i64) -> (t: Self)
        ensures
            t == (Token { text, t0, t1 }),
    {
        Token { text, t0, t1 }
    }

    /// Whether the token's span can be told in milliseconds.
    pub fn in_range(&self) -> (b: bool)
        ensures
            b == self@.in_range(),
    {
        0 <= self.t0 && self.t0 <= 429_496_729 && 0 <= self.t1 && self.t1 <= 429_496_729
    }

    /// The token's timing in milliseconds. Where the token's ticks are in
    /// order, so is the timing.
    pub fn timing(&self) -> (t: Timing)
        requires
            self@.in_range(),
        ensures
            t@ == self@.timing(),
            t@.start == 10 * self.t0,
            t@.end == 10 * self.t1,
            self.t0 <= self.t1 ==> t@.well_formed(),
    {
        Timing::new((10 * self.t0) as u32, (10 * self.t1) as u32, self.text.clone())
    }
}

/// The tokens of a list as plain values.
pub open spec fn token_views(tokens: Seq<Token>) -> Seq<TokenView> {
    tokens.map_values(|t: Token| t@)
}

/// The timings of the tokens that reach the user, in order.
pub open spec fn spoken(tokens: Seq<TokenView>) -> Seq<TimingView> {
    tokens.filter(|t: TokenView| t.is_spoken()).map_values(|t: TokenView| t.timing())
}

/// Every token that reaches the user can be told in milliseconds.
pub open spec fn all_in_range(tokens: Seq<TokenView>) -> bool {
    forall|i: int| 0 <= i < tokens.len() && (#[trigger] tokens[i]).is_spoken() ==> tokens[i].in_range()
}

/// Whether `timings` can be called on the tokens.
pub fn tokens_in_range(tokens: &Vec<Token>) -> (b: bool)
    ensures
        b == all_in_range(token_views(tokens@)),
{
    let mut i: usize = 0;
    while i < tokens.len()
        invariant
            i <= tokens.len(),
            forall|j: int|
                0 <= j < i && (#[trigger] token_views(tokens@)[j]).is_spoken() ==> token_views(
                    tokens@,
                )[j].in_range(),
        decreases tokens.len() - i,
    {
        if !is_internal_token(tokens[i].text.as_str()) && !tokens[i].in_range() {
            assert(token_views(tokens@)[i as int] == tokens@[i as int]@);
            return false;
        }
        i += 1;
    }
    true
}

/// Walks the tokens of one segment: skips the engine's own tokens and
/// gives every other token its timing in milliseconds.
pub fn timings(tokens: &Vec<Token>) -> (out: Vec<Timing>)
    requires
        all_in_range(token_views(tokens@)),
    ensures
        views(out@) == spoken(token_views(tokens@)),
{
    let mut out: Vec<Timing> = Vec::new();
    let mut i: usize = 0;
    let ghost all = token_views(tokens@);
    proof {
        reveal(Seq::filter);
        assert(views(out@) =~= spoken(all.take(0)));
    }
    while i < tokens.len()
        invariant
            i <= tokens.len(),
            all == token_views(tokens@),
            all_in_range(all),
            views(out@) == spoken(all.take(i as int)),
        decreases tokens.len() - i,
    {
        let ghost before = out@;
        proof {
            reveal(Seq::filter);
            assert(all.take(i + 1).drop_last() =~= all.take(i as int));
            assert(all.take(i + 1).last() == tokens@[i as int]@);
            assert(all[i as int] == tokens@[i as int]@);
        }
        if !is_internal_token(tokens[i].text.as_str()) {
            let t = tokens[i].timing();
            out.push(t);
            proof {
                let kept = all.take(i as int).filter(|t: TokenView| t.is_spoken());
                assert(all.take(i + 1).filter(|t: TokenView| t.is_spoken()) == kept.push(
                    tokens@[i as int]@,
                ));
                assert(views(before.push(t)) =~= views(before).push(t@));
                assert(kept.push(tokens@[i as int]@).map_values(|t: TokenView| t.timing())
                    =~= kept.map_values(|t: TokenView| t.timing()).push(t@));
            }
        }
        i += 1;
    }
    assert(all.take(all.len() as int) =~= all);
    out
}

/// The tokens of the segments of a list as plain values.
pub open spec fn segment_views(segments: Seq<Vec<Token>>) -> Seq<Seq<TokenView>> {
    segments.map_values(|s: Vec<Token>| token_views(s@))
}

/// The timings of the tokens that reach the user, segment after segment.
pub open spec fn spoken_all(segments: Seq<Seq<TokenView>>) -> Seq<TimingView>
    decreases segments.len(),
{
    if segments.len() == 0 {
        Seq::empty()
    } else {
        spoken_all(segments.drop_last()) + spoken(segments.last())
    }
}

/// Whether `segment_timings` can be called on the segments.
pub fn segments_in_range(segments: &Vec<Vec<Token>>) -> (b: bool)
    ensures
        b == forall|i: int|
            0 <= i < segments@.len() ==> all_in_range(#[trigger] segment_views(segments@)[i]),
{
    let mut i: usize = 0;
    while i < segments.len()
        invariant
            i <= segments.len(),
            forall|j: int| 0 <= j < i ==> all_in_range(#[trigger] segment_views(segments@)[j]),
        decreases segments.len() - i,
    {
        if !tokens_in_range(&segments[i]) {
            assert(!all_in_range(segment_views(segments@)[i as int]));
            return false;
        }
        i += 1;
    }
    true
}

/// Walks the segments of one run of the engine, and in each its tokens.
pub fn segment_timings(segments: &Vec<Vec<Token>>) -> (out: Vec<Timing>)
    requires
        forall|i: int|
            0 <= i < segments@.len() ==> all_in_range(#[trigger] segment_views(segments@)[i]),
    ensures
        views(out@) == spoken_all(segment_views(segments@)),
{
    let mut out: Vec<Timing> = Vec::new();
    let mut i: usize = 0;
    let ghost all = segment_views(segments@);
    assert(views(out@) =~= spoken_all(all.take(0)));
    while i < segments.len()
        invariant
            i <= segments.len(),
            all == segment_views(segments@),
            forall|j: int| 0 <= j < all.len() ==> all_in_range(#[trigger] all[j]),
            views(out@) == spoken_all(all.take(i as int)),
        decreases segments.len() - i,
    {
        let ghost before = out@;
        assert(all_in_range(all[i as int]));
        let mut part = timings(&segments[i]);
        let ghost added = part@;
        out.append(&mut part);
        proof {
            assert(all.take(i + 1).drop_last() =~= all.take(i as int));
            assert(all.take(i + 1).last() == all[i as int]);
            assert(views(before + added) =~= views(before) + views(added));
        }
        i += 1;
    }
    assert(all.take(all.len() as int) =~= all);
    out
}

/// A failure of the inference engine.
#[derive(Debug, PartialEq, Eq)]
pub enum WhisperError {
    /// The engine ended with this status, which is not zero.
    GenericError(i32),
    /// Any other failure, in the engine's words.
    Other(String),
}

/// Judges a run of the engine by its status: zero is success, every
/// other status is a failure of its own, and a failure stays what it is.
pub fn judge(status: Result<i32, WhisperError>) -> (r: Result<(), WhisperError>)
    ensures
        r == match status {
            Ok(code) => if code == 0 {
                Ok(())
            } else {
                Err(WhisperError::GenericError(code))
            },
            Err(e) => Err(e),
        },
{
    match status {
        Ok(code) => if code == 0 {
            Ok(())
        } else {
            Err(WhisperError::GenericError(code))
        },
        Err(e) => Err(e),
    }
}

/// Why the worker failed.
#[derive(Debug, PartialEq, Eq)]
pub enum Error {
    Lib(WhisperError),
    Transcription(transcription::Error),
    Send,
    CatchAll,
}

/// The inference contexts that the worker has loaded, one for each model
/// at most, in a hash map keyed by the model's number. A context stays
/// for as long as the cache does.
#[derive(Debug)]
pub struct ModelCache<C> {
    contexts: HashMap<u64, C>,
}

/// The number that stands for a model in the cache.
pub open spec fn key_of(model: Model) -> u64 {
    match model {
        Model::Base => 0,
        Model::Small => 1,
        Model::Medium => 2,
        Model::Large => 3,
    }
}

fn key(model: Model) -> (k: u64)
    ensures
        k == key_of(model),
{
    match model {
        Model::Base => 0,
        Model::Small => 1,
        Model::Medium => 2,
        Model::Large => 3,
    }
}

impl<C> ModelCache<C> {
    /// The context of a model, if it is loaded.
    pub closed spec fn entry(self, model: Model) -> Option<C> {
        if self.contexts@.contains_key(key_of(model)) {
            Some(self.contexts@[key_of(model)])
        } else {
            None
        }
    }

    /// The cache as a map from the models that are loaded to their contexts.
    pub open spec fn as_map(self) -> Map<Model, C> {
        Map::new(|m: Model| self.entry(m) is Some, |m: Model| self.entry(m)->0)
    }

    /// A cache with no model loaded.
    pub fn new() -> (cache: Self)
        ensures
            forall|m: Model| cache.entry(m) is None,
            cache.as_map() == Map::<Model, C>::empty(),
    {
        let cache = ModelCache { contexts: HashMap::new() };
        assert(cache.as_map() =~= Map::<Model, C>::empty());
        cache
    }

    pub fn contains(&self, model: Model) -> (b: bool)
        ensures
            b == self.entry(model) is Some,
            b == self.as_map().dom().contains(model),
    {
        broadcast use vstd::std_specs::hash::group_hash_axioms;

        let k = key(model);
        self.contexts.contains_key(&k)
    }

    pub fn get(&self, model: Model) -> (r: Option<&C>)
        ensures
            r is Some == self.entry(model) is Some,
            r is Some ==> *r->0 == self.entry(model)->0,
    {
        broadcast use vstd::std_specs::hash::group_hash_axioms;

        let k = key(model);
        self.contexts.get(&k)
    }

    /// Puts the context of a model into the cache and hands back the one
    /// that it replaces, if any.
    pub fn insert(&mut self, model: Model, context: C) -> (previous: Option<C>)
        ensures
            previous == old(self).entry(model),
            forall|m: Model|
                final(self).entry(m) == if m == model {
                    Some(context)
                } else {
                    old(self).entry(m)
                },
            final(self).as_map() == old(self).as_map().insert(model, context),
    {
        broadcast use vstd::std_specs::hash::group_hash_axioms;

        let previous = self.contexts.insert(key(model), context);
        assert(self.as_map() =~= old(self).as_map().insert(model, context));
        previous
    }
}

} // verus!
