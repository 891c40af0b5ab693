//! Models, sampling strategies and transcription jobs.

use crate::number::{
    float_error, float_text_error, i32_of_text, i32_string, is_float_text,
    lemma_decimal_is_digits, lemma_float_text_chars, lemma_int_of_text_of_decimal, parse_i32,
    signed_decimal, FloatErrorKind, IntErrorKind,
};
use crate::audio::recording::{as_deref, clone_text, joined_text};
use crate::text::{
    chars_of, fields, lemma_fields_join, lemma_fields_single, same_text, split, string_of,
};
use vstd::prelude::*;
use vstd::string::StringExecFns;

verus! {

/// The speech models that the daemon can load.
#[derive(Debug, Clone, Copy, PartialEq, Eq, Hash, Structural)]
pub enum Model {
    Base,
    Small,
    Medium,
    Large,
}

impl Default for Model {
    fn default() -> (m: Self)
        ensures
            m == Model::Base,
    {
        Model::Base
    }
}

impl Model {
    /// The name of the file that holds the model, below the model directory.
    pub open spec fn filename_text(self) -> Seq<char> {
        match self {
            Model::Base => "ggml-base.en.bin"@,
            Model::Small => "ggml-small.en.bin"@,
            Model::Medium => "ggml-medium.bin"@,
            Model::Large => "ggml-large-v3-turbo.bin"@,
        }
    }

    #[must_use]
    pub fn filename(&self) -> (name: String)
        ensures
            name@ == self.filename_text(),
    {
        match self {
            Model::Base => "ggml-base.en.bin".to_owned(),
            Model::Small => "ggml-small.en.bin".to_owned(),
            Model::Medium => "ggml-medium.bin".to_owned(),
            Model::Large => "ggml-large-v3-turbo.bin".to_owned(),
        }
    }
}

/// The patience of a beam search, kept as the float literal that denotes
/// it. Its numeric value is computed where floating point is at hand.
#[derive(Debug, PartialEq, Eq)]
pub struct Patience {
    text: String,
}

impl View for Patience {
    type V = Seq<char>;

    closed spec fn view(&self) -> Seq<char> {
        self.text@
    }
}

impl Patience {
    #[verifier::type_invariant]
    spec fn is_literal(self) -> bool {
        is_float_text(self.text@)
    }

    /// The literal `0.0`.
    pub fn zero() -> (p: Self)
        ensures
            p@ == "0.0"@,
    {
        let text = "0.0".to_owned();
        proof {
            lemma_zero_is_float_text();
        }
        Patience { text }
    }

    /// Keeps `s` if it is a float literal.
    pub fn parse(s: &str) -> (r: Result<Self, FloatErrorKind>)
        ensures
            r matches Ok(p) ==> p@ == s@ && float_text_error(s@) is None,
            r matches Err(k) ==> float_text_error(s@) == Some(k),
    {
        let chars = chars_of(s);
        Patience::from_chars(chars.as_slice())
    }

    /// Keeps the text `s` if it is a float literal.
    pub fn from_chars(s: &[char]) -> (r: Result<Self, FloatErrorKind>)
        ensures
            r matches Ok(p) ==> p@ == s@ && float_text_error(s@) is None,
            r matches Err(k) ==> float_text_error(s@) == Some(k),
    {
        match float_error(s) {
            Some(k) => Err(k),
            None => Ok(Patience { text: string_of(s) }),
        }
    }

    /// The literal, which `str::parse` reads as a floating-point number.
    pub fn as_str(&self) -> (s: &str)
        ensures
            s@ == self@,
            is_float_text(s@),
    {
        proof {
            use_type_invariant(self);
        }
        self.text.as_str()
    }
}

impl Clone for Patience {
    fn clone(&self) -> (p: Self)
        ensures
            p == *self,
    {
        proof {
            use_type_invariant(self);
        }
        Patience { text: self.text.clone() }
    }
}

/// The literal `0.0` is a float literal.
pub proof fn lemma_zero_is_float_text()
    ensures
        is_float_text("0.0"@),
{
    reveal_strlit("0.0");
    let s = "0.0"@;
    reveal_with_fuel(crate::number::digits_end, 4);
    assert(crate::number::digits_end(s, 0) == 1);
    assert(crate::number::digits_end(s, 2) == 3);
    assert(crate::number::is_number(s));
}

/// How the inference engine picks tokens.
#[derive(Debug, PartialEq, Eq)]
pub enum StrategyOpt {
    /// Keep the best of `best_of` samples; at least one.
    Greedy { best_of: i32 },
    /// Search with `beam_size` beams, at least one, and the given patience.
    Beam { beam_size: i32, patience: Patience },
}

/// A strategy as a plain value: the numbers, and the patience as a text.
pub enum StrategyView {
    Greedy { best_of: int },
    Beam { beam_size: int, patience: Seq<char> },
}

impl View for StrategyOpt {
    type V = StrategyView;

    open spec fn view(&self) -> StrategyView {
        match *self {
            StrategyOpt::Greedy { best_of } => StrategyView::Greedy { best_of: best_of as int },
            StrategyOpt::Beam { beam_size, patience } => StrategyView::Beam {
                beam_size: beam_size as int,
                patience: patience@,
            },
        }
    }
}

impl Default for StrategyOpt {
    /// A beam search with five beams and no patience.
    fn default() -> (o: Self)
        ensures
            o@ == (StrategyView::Beam { beam_size: 5, patience: "0.0"@ }),
    {
        StrategyOpt::Beam { beam_size: 5, patience: Patience::zero() }
    }
}

impl Clone for StrategyOpt {
    fn clone(&self) -> (o: Self)
        ensures
            o == *self,
    {
        match self {
            StrategyOpt::Greedy { best_of } => StrategyOpt::Greedy { best_of: *best_of },
            StrategyOpt::Beam { beam_size, patience } => StrategyOpt::Beam {
                beam_size: *beam_size,
                patience: patience.clone(),
            },
        }
    }
}

/// Why a text names no strategy.
#[derive(Debug, PartialEq, Eq)]
pub enum StrategyParseError {
    /// The kind is neither `greedy` nor `beam`.
    Unsupported(String),
    /// The text has no kind at all.
    Malformed,
    /// The named count is below one.
    AtLeastOne(String),
    /// The count is no 32-bit integer.
    ParseIntError(IntErrorKind),
    /// The patience is no float literal.
    ParseFloatError(FloatErrorKind),
}

/// A parse error as a plain value.
pub enum StrategyParseErrorView {
    Unsupported(Seq<char>),
    Malformed,
    AtLeastOne(Seq<char>),
    ParseIntError(IntErrorKind),
    ParseFloatError(FloatErrorKind),
}

impl View for StrategyParseError {
    type V = StrategyParseErrorView;

    open spec fn view(&self) -> StrategyParseErrorView {
        match *self {
            StrategyParseError::Unsupported(kind) => StrategyParseErrorView::Unsupported(kind@),
            StrategyParseError::Malformed => StrategyParseErrorView::Malformed,
            StrategyParseError::AtLeastOne(what) => StrategyParseErrorView::AtLeastOne(what@),
            StrategyParseError::ParseIntError(k) => StrategyParseErrorView::ParseIntError(k),
            StrategyParseError::ParseFloatError(k) => StrategyParseErrorView::ParseFloatError(k),
        }
    }
}

/// The count that the second field gives, if there is a second field.
pub open spec fn count_of_fields(parts: Seq<Seq<char>>) -> Result<Option<int>, IntErrorKind> {
    if parts.len() > 1 {
        match i32_of_text(parts[1]) {
            Ok(v) => Ok(Some(v)),
            Err(k) => Err(k),
        }
    } else {
        Ok(None)
    }
}

/// The strategy that a text names: `greedy` or `beam`, then, each after a
/// colon, an optional count and, for `beam`, an optional patience. Where
/// the count is left out it is 2 for `greedy` and 5 for `beam`; where the
/// patience is left out it is `0.0`. The count is read before the kind is
/// looked at; further fields are ignored.
pub open spec fn strategy_of_text(s: Seq<char>) -> Result<StrategyView, StrategyParseErrorView> {
    let parts = fields(s, ':');
    let kind = parts[0];
    match count_of_fields(parts) {
        Err(k) => Err(StrategyParseErrorView::ParseIntError(k)),
        Ok(count) => if kind == "greedy"@ {
            let n = if count is Some {
                count->0
            } else {
                2
            };
            if n < 1 {
                Err(StrategyParseErrorView::AtLeastOne("best_of"@))
            } else {
                Ok(StrategyView::Greedy { best_of: n })
            }
        } else if kind == "beam"@ {
            let n = if count is Some {
                count->0
            } else {
                5
            };
            if n < 1 {
                Err(StrategyParseErrorView::AtLeastOne("beam_size"@))
            } else if parts.len() > 2 {
                match float_text_error(parts[2]) {
                    Some(k) => Err(StrategyParseErrorView::ParseFloatError(k)),
                    None => Ok(StrategyView::Beam { beam_size: n, patience: parts[2] }),
                }
            } else {
                Ok(StrategyView::Beam { beam_size: n, patience: "0.0"@ })
            }
        } else {
            Err(StrategyParseErrorView::Unsupported(kind))
        },
    }
}

/// Reads a strategy from the text of a command-line option.
pub fn parse_strategy(s: &str) -> (r: Result<StrategyOpt, StrategyParseError>)
    ensures
        r matches Ok(o) ==> strategy_of_text(s@) == Ok::<StrategyView, StrategyParseErrorView>(o@),
        r matches Err(e) ==> strategy_of_text(s@) == Err::<StrategyView, StrategyParseErrorView>(
            e@,
        ),
{
    let chars = chars_of(s);
    let parts = split(chars.as_slice(), ':');
    let count: Option<i32> = if parts.len() > 1 {
        match parse_i32(parts[1].as_slice()) {
            Ok(v) => Some(v),
            Err(k) => {
                return Err(StrategyParseError::ParseIntError(k));
            },
        }
    } else {
        None
    };
    let kind = parts[0].as_slice();
    if same_text(kind, chars_of("greedy").as_slice()) {
        let n: i32 = match count {
            Some(v) => v,
            None => 2,
        };
        if n < 1 {
            return Err(StrategyParseError::AtLeastOne("best_of".to_owned()));
        }
        Ok(StrategyOpt::Greedy { best_of: n })
    } else if same_text(kind, chars_of("beam").as_slice()) {
        let n: i32 = match count {
            Some(v) => v,
            None => 5,
        };
        if n < 1 {
            return Err(StrategyParseError::AtLeastOne("beam_size".to_owned()));
        }
        let patience = if parts.len() > 2 {
            match Patience::from_chars(parts[2].as_slice()) {
                Ok(p) => p,
                Err(k) => {
                    return Err(StrategyParseError::ParseFloatError(k));
                },
            }
        } else {
            Patience::zero()
        };
        Ok(StrategyOpt::Beam { beam_size: n, patience })
    } else {
        Err(StrategyParseError::Unsupported(string_of(kind)))
    }
}

impl StrategyView {
    /// The strategies that the engine can run: a count of at least one that
    /// fits 32 bits, and for a beam search a patience that is a float literal.
    pub open spec fn valid(self) -> bool {
        match self {
            StrategyView::Greedy { best_of } => 1 <= best_of <= i32::MAX,
            StrategyView::Beam { beam_size, patience } => 1 <= beam_size <= i32::MAX
                && is_float_text(patience),
        }
    }

    /// How a strategy is written on the command line, with every field in it.
    pub open spec fn text(self) -> Seq<char> {
        match self {
            StrategyView::Greedy { best_of } => "greedy"@.push(':') + signed_decimal(best_of),
            StrategyView::Beam { beam_size, patience } => "beam"@.push(':') + (signed_decimal(
                beam_size,
            ).push(':') + patience),
        }
    }
}

impl StrategyOpt {
    /// Writes the strategy as `parse_strategy` reads it.
    pub fn to_text(&self) -> (s: String)
        ensures
            s@ == self@.text(),
    {
        match self {
            StrategyOpt::Greedy { best_of } => {
                let mut s = "greedy".to_owned();
                s.push(':');
                s.append(i32_string(*best_of).as_str());
                s
            },
            StrategyOpt::Beam { beam_size, patience } => {
                let mut s = "beam".to_owned();
                s.push(':');
                s.append(i32_string(*beam_size).as_str());
                s.push(':');
                s.append(patience.as_str());
                assert(s@ =~= self@.text());
                s
            },
        }
    }
}

/// Reading back a written strategy gives the strategy: for every valid
/// strategy `x`, the text of `x` names `x`.
pub proof fn lemma_parse_inverts_text(x: StrategyView)
    requires
        x.valid(),
    ensures
        strategy_of_text(x.text()) == Ok::<StrategyView, StrategyParseErrorView>(x),
{
    reveal_strlit("greedy");
    reveal_strlit("beam");
    match x {
        StrategyView::Greedy { best_of } => {
            let digits = signed_decimal(best_of);
            lemma_decimal_is_digits(best_of as nat);
            lemma_fields_join("greedy"@, digits, ':');
            lemma_fields_single(digits, ':');
            lemma_int_of_text_of_decimal(best_of, true, i32::MIN as int, i32::MAX as int);
            let parts = fields(x.text(), ':');
            assert(parts =~= seq!["greedy"@, digits]);
        },
        StrategyView::Beam { beam_size, patience } => {
            let digits = signed_decimal(beam_size);
            lemma_decimal_is_digits(beam_size as nat);
            lemma_float_text_chars(patience);
            lemma_fields_join("beam"@, digits.push(':') + patience, ':');
            lemma_fields_join(digits, patience, ':');
            lemma_fields_single(patience, ':');
            lemma_int_of_text_of_decimal(beam_size, true, i32::MIN as int, i32::MAX as int);
            let parts = fields(x.text(), ':');
            assert(parts =~= seq!["beam"@, digits, patience]);
            assert("beam"@.len() != "greedy"@.len());
        },
    }
}

/// Why a transcription did not come about.
#[derive(Debug, PartialEq, Eq)]
pub enum Error {
    /// The result could not be handed back.
    Sync,
    /// The inference engine failed, with its message.
    Whisper(String),
    /// A job was built without the named field.
    JobBuild(String),
}

/// One request to the worker: the audio of a recording at its sample
/// rate, and how to transcribe it. The kind of sample is left open.
#[derive(Debug)]
pub struct Job<A> {
    pub model: Model,
    pub audio: Vec<A>,
    pub strategy: StrategyOpt,
    pub sample_rate: u32,
    pub prompt: Option<String>,
}

/// A job in the making: each field is set or not yet.
#[derive(Debug)]
pub struct JobBuilder<A> {
    pub model: Option<Model>,
    pub audio: Option<Vec<A>>,
    pub strategy: Option<StrategyOpt>,
    pub sample_rate: Option<u32>,
    pub prompt: Option<Option<String>>,
}

impl<A> JobBuilder<A> {
    /// The name of the first field, in the order of the job's fields, that
    /// is not set yet.
    pub open spec fn missing(self) -> Option<Seq<char>> {
        if self.model is None {
            Some("model"@)
        } else if self.audio is None {
            Some("audio"@)
        } else if self.strategy is None {
            Some("strategy"@)
        } else if self.sample_rate is None {
            Some("sample_rate"@)
        } else if self.prompt is None {
            Some("prompt"@)
        } else {
            None
        }
    }

    pub fn model(self, model: Model) -> (b: Self)
        ensures
            b == (JobBuilder { model: Some(model), ..self }),
    {
        JobBuilder { model: Some(model), ..self }
    }

    pub fn audio(self, audio: Vec<A>) -> (b: Self)
        ensures
            b == (JobBuilder { audio: Some(audio), ..self }),
    {
        JobBuilder { audio: Some(audio), ..self }
    }

    pub fn strategy(self, strategy: StrategyOpt) -> (b: Self)
        ensures
            b == (JobBuilder { strategy: Some(strategy), ..self }),
    {
        JobBuilder { strategy: Some(strategy), ..self }
    }

    pub fn sample_rate(self, sample_rate: u32) -> (b: Self)
        ensures
            b == (JobBuilder { sample_rate: Some(sample_rate), ..self }),
    {
        JobBuilder { sample_rate: Some(sample_rate), ..self }
    }

    pub fn prompt(self, prompt: Option<String>) -> (b: Self)
        ensures
            b == (JobBuilder { prompt: Some(prompt), ..self }),
    {
        JobBuilder { prompt: Some(prompt), ..self }
    }

    /// The job, once every field is set; else the first field that is missing.
    pub fn build(self) -> (r: Result<Job<A>, Error>)
        ensures
            r is Ok <==> self.missing() is None,
            r matches Ok(job) ==> job == (Job {
                model: self.model->0,
                audio: self.audio->0,
                strategy: self.strategy->0,
                sample_rate: self.sample_rate->0,
                prompt: self.prompt->0,
            }),
            r matches Err(e) ==> e matches Error::JobBuild(name) && Some(name@) == self.missing(),
    {
        let model = match self.model {
            Some(model) => model,
            None => {
                return Err(Error::JobBuild("model".to_owned()));
            },
        };
        let audio = match self.audio {
            Some(audio) => audio,
            None => {
                return Err(Error::JobBuild("audio".to_owned()));
            },
        };
        let strategy = match self.strategy {
            Some(strategy) => strategy,
            None => {
                return Err(Error::JobBuild("strategy".to_owned()));
            },
        };
        let sample_rate = match self.sample_rate {
            Some(sample_rate) => sample_rate,
            None => {
                return Err(Error::JobBuild("sample_rate".to_owned()));
            },
        };
        let prompt = match self.prompt {
            Some(prompt) => prompt,
            None => {
                return Err(Error::JobBuild("prompt".to_owned()));
            },
        };
        Ok(Job { model, audio, strategy, sample_rate, prompt })
    }
}

impl<A> Job<A> {
    /// A builder with no field set.
    #[must_use]
    pub fn builder() -> (b: JobBuilder<A>)
        ensures
            b == (JobBuilder::<A> {
                model: None,
                audio: None,
                strategy: None,
                sample_rate: None,
                prompt: None,
            }),
    {
        JobBuilder { model: None, audio: None, strategy: None, sample_rate: None, prompt: None }
    }

    #[must_use]
    pub fn prompt(&self) -> (r: Option<&str>)
        ensures
            r is Some == self.prompt is Some,
            r is Some ==> r->0@ == self.prompt->0@,
    {
        as_deref(&self.prompt)
    }

    #[must_use]
    pub fn strategy(&self) -> (s: StrategyOpt)
        ensures
            s == self.strategy,
    {
        self.strategy.clone()
    }

    #[must_use]
    pub fn audio(&self) -> (a: &[A])
        ensures
            a@ == self.audio@,
    {
        self.audio.as_slice()
    }

    #[must_use]
    pub fn model(&self) -> (m: Model)
        ensures
            m == self.model,
    {
        self.model
    }

    #[must_use]
    pub fn sample_rate(&self) -> (r: u32)
        ensures
            r == self.sample_rate,
    {
        self.sample_rate
    }

    /// The settings of the engine for this job: the job's strategy and
    /// prompt, a timestamp on every token, and segments of one word.
    pub fn inference_params(&self) -> (p: InferenceParams)
        ensures
            p == (InferenceParams {
                strategy: self.strategy,
                token_timestamps: true,
                max_len: 1,
                split_on_word: true,
                initial_prompt: self.prompt,
            }),
    {
        InferenceParams {
            strategy: self.strategy.clone(),
            token_timestamps: true,
            max_len: 1,
            split_on_word: true,
            initial_prompt: clone_text(&self.prompt),
        }
    }
}

/// How the engine is set up for one job.
#[derive(Debug, PartialEq, Eq)]
pub struct InferenceParams {
    pub strategy: StrategyOpt,
    pub token_timestamps: bool,
    pub max_len: i32,
    pub split_on_word: bool,
    pub initial_prompt: Option<String>,
}

impl StrategyParseErrorView {
    pub open spec fn message_text(self) -> Seq<char> {
        match self {
            StrategyParseErrorView::Unsupported(kind) => "'"@ + kind
                + "' is not among the supported strategies: 'greedy', 'beam'"@,
            StrategyParseErrorView::Malformed => "strategy must be of the form 'qkind' or 'kind:n'"@,
            StrategyParseErrorView::AtLeastOne(what) => what + " must be at least 1"@,
            StrategyParseErrorView::ParseIntError(_) => "error parsing integer"@,
            StrategyParseErrorView::ParseFloatError(_) => "error parsing float"@,
        }
    }
}

impl StrategyParseError {
    /// The error in words.
    pub fn message(&self) -> (s: String)
        ensures
            s@ == self@.message_text(),
    {
        match self {
            StrategyParseError::Unsupported(kind) => {
                let mut s = joined_text("'", kind.as_str());
                s.append("' is not among the supported strategies: 'greedy', 'beam'");
                s
            },
            StrategyParseError::Malformed => "strategy must be of the form 'qkind' or 'kind:n'".to_owned(),
            StrategyParseError::AtLeastOne(what) => joined_text(what.as_str(), " must be at least 1"),
            StrategyParseError::ParseIntError(_) => "error parsing integer".to_owned(),
            StrategyParseError::ParseFloatError(_) => "error parsing float".to_owned(),
        }
    }
}

} // verus!
