//! Moonshine backend: greedy decoding, the state of the cached decoder, and
//! how its scores are read. The networks run outside.

use vstd::prelude::*;

use crate::backend::moonshine::model::{CachedNames, MoonshineFlavor};
use crate::backend::moonshine::names::{
    cached_input_shape, element_text, find_input, input_at, input_shape, ElementModel, ElementType,
    InputInfo,
};
use crate::backend::traits::{outcome_is, ErrorModel, TranscriptionError};
use crate::backend::{BackendCapabilities, BackendConfig};
use crate::text::numbers::{decimal, decimal_text};
use crate::text::strings::{
    concat, concat3, contains, contains_str, join, joined, views,
};

verus! {

/// Sample rate of a model without a preprocessor configuration.
pub const DEFAULT_SAMPLE_RATE: usize = 16000;

/// Most tokens of a model whose flavor is not known.
pub const DEFAULT_MAX_TOKENS: usize = 256;

/// Moonshine backend.
#[derive(Debug, Clone)]
pub struct MoonshineBackend {
    /// Configuration used to create this backend.
    pub config: BackendConfig,
}

/// The rate at which a model takes audio.
pub open spec fn expected_rate(configured: Option<usize>) -> usize {
    match configured {
        Some(rate) => rate,
        None => 16000,
    }
}

impl MoonshineBackend {
    /// What the backend can do: audio of any length, any language, streaming.
    pub fn capabilities(&self) -> (r: BackendCapabilities)
        ensures
            r.name@ == "Moonshine"@,
            r.max_audio_duration is None,
            r.supported_languages is None,
            r.supports_streaming,
            r.gpu_available == self.config.gpu_enabled,
    {
        BackendCapabilities {
            name: "Moonshine",
            max_audio_duration: None,
            supported_languages: None,
            supports_streaming: true,
            gpu_available: self.config.gpu_enabled,
        }
    }

    /// Checks that audio comes at the rate that the model takes, given the one
    /// in its preprocessor configuration, if any.
    pub fn check_sample_rate(configured: Option<usize>, sample_rate: usize) -> (r: Result<
        (),
        TranscriptionError,
    >)
        ensures
            outcome_is(
                r,
                if sample_rate == expected_rate(configured) {
                    None
                } else {
                    Some(
                        ErrorModel::InvalidAudio(
                            "Moonshine expects "@ + decimal(expected_rate(configured) as nat)
                                + "Hz audio, got "@ + decimal(sample_rate as nat) + "Hz"@,
                        ),
                    )
                },
            ),
    {
        let expected: usize = match configured {
            Some(rate) => rate,
            None => DEFAULT_SAMPLE_RATE,
        };
        if sample_rate != expected {
            let start = concat3(
                "Moonshine expects ",
                decimal_text(expected as u64).as_str(),
                "Hz audio, got ",
            );
            return Err(
                TranscriptionError::InvalidAudio(
                    concat3(start.as_str(), decimal_text(sample_rate as u64).as_str(), "Hz"),
                ),
            );
        }
        Ok(())
    }

    /// The error that the model cannot be loaded.
    pub fn load_error(reason: &str) -> (r: TranscriptionError)
        ensures
            r@ == ErrorModel::ModelNotAvailable("Moonshine model load failed: "@ + reason@),
    {
        TranscriptionError::ModelNotAvailable(concat("Moonshine model load failed: ", reason))
    }
}

/// The tokens after the decoder's answers in turn: each is appended, until one
/// is the end token or there are enough.
pub open spec fn greedy_tokens(
    tokens: Seq<u32>,
    eos: u32,
    left: nat,
    answers: Seq<u32>,
) -> Seq<u32>
    decreases answers.len(),
{
    if left == 0 || answers.len() == 0 || answers[0] == eos {
        tokens
    } else {
        greedy_tokens(tokens.push(answers[0]), eos, (left - 1) as nat, answers.skip(1))
    }
}

/// Greedy decoding under way.
#[derive(Debug)]
pub struct GreedyDecoder {
    tokens: Vec<u32>,
    eos_token_id: u32,
    left: usize,
}

/// What a [`GreedyDecoder`] holds.
#[verifier::ext_equal]
pub struct GreedyModel {
    pub tokens: Seq<u32>,
    pub eos: u32,
    /// How many more answers are asked for, at most.
    pub left: nat,
}

impl View for GreedyDecoder {
    type V = GreedyModel;

    closed spec fn view(&self) -> GreedyModel {
        GreedyModel { tokens: self.tokens@, eos: self.eos_token_id, left: self.left as nat }
    }
}

impl GreedyDecoder {
    /// Begins decoding, with the begin token.
    pub fn new(bos_token_id: u32, eos_token_id: u32, max_tokens: usize) -> (r: Self)
        ensures
            r@ == (GreedyModel {
                tokens: seq![bos_token_id],
                eos: eos_token_id,
                left: max_tokens as nat,
            }),
    {
        let mut tokens: Vec<u32> = Vec::new();
        tokens.push(bos_token_id);
        assert(tokens@ =~= seq![bos_token_id]);
        GreedyDecoder { tokens, eos_token_id, left: max_tokens }
    }

    /// Whether the decoder is to be asked for another token.
    pub fn goes_on(&self) -> (r: bool)
        ensures
            r == (self@.left > 0),
    {
        self.left > 0
    }

    /// The tokens so far: what an uncached decoder is fed, and, of these, the
    /// last is what a cached one is fed.
    pub fn tokens(&self) -> (r: &Vec<u32>)
        ensures
            r@ == self@.tokens,
    {
        &self.tokens
    }

    /// Takes in the decoder's answer.
    pub fn answered(&mut self, next_token: u32)
        requires
            old(self)@.left > 0,
        ensures
            final(self)@ == (if next_token == old(self)@.eos {
                GreedyModel { left: 0, ..old(self)@ }
            } else {
                GreedyModel {
                    tokens: old(self)@.tokens.push(next_token),
                    left: (old(self)@.left - 1) as nat,
                    ..old(self)@
                }
            }),
    {
        if next_token == self.eos_token_id {
            self.left = 0;
        } else {
            self.tokens.push(next_token);
            self.left = self.left - 1;
        }
    }
}

/// Greedy decoding, given the decoder's answers in turn.
pub fn greedy_decode(
    bos_token_id: u32,
    eos_token_id: u32,
    max_tokens: usize,
    answers: &[u32],
) -> (r: Vec<u32>)
    ensures
        r@ == greedy_tokens(seq![bos_token_id], eos_token_id, max_tokens as nat, answers@),
{
    let mut decoder = GreedyDecoder::new(bos_token_id, eos_token_id, max_tokens);
    let mut i: usize = 0;
    assert(answers@.skip(0) =~= answers@);
    while i < answers.len() && decoder.goes_on()
        invariant
            i <= answers@.len(),
            decoder@.eos == eos_token_id,
            greedy_tokens(seq![bos_token_id], eos_token_id, max_tokens as nat, answers@)
                == greedy_tokens(
                decoder@.tokens,
                eos_token_id,
                decoder@.left,
                answers@.skip(i as int),
            ),
        decreases answers@.len() - i,
    {
        let ghost before = decoder@;
        assert(answers@.skip(i as int)[0] == answers@[i as int]);
        assert(answers@.skip(i as int).skip(1) =~= answers@.skip(i + 1));
        decoder.answered(answers[i]);
        assert(greedy_tokens(decoder@.tokens, eos_token_id, decoder@.left, answers@.skip(i + 1))
            == greedy_tokens(before.tokens, eos_token_id, before.left, answers@.skip(i as int)));
        i += 1;
    }
    decoder.tokens
}

/// Decoding keeps what it began with, never holds the end token beyond that,
/// and appends no more tokens than it may.
pub proof fn law_greedy_decoding_stops(
    tokens: Seq<u32>,
    eos: u32,
    left: nat,
    answers: Seq<u32>,
)
    ensures
        ({
            let end = greedy_tokens(tokens, eos, left, answers);
            &&& tokens.len() <= end.len() <= tokens.len() + left
            &&& end.take(tokens.len() as int) == tokens
            &&& forall|i: int| tokens.len() <= i < end.len() ==> #[trigger] end[i] != eos
        }),
    decreases answers.len(),
{
    if left == 0 || answers.len() == 0 || answers[0] == eos {
        assert(tokens.take(tokens.len() as int) =~= tokens);
    } else {
        let more = tokens.push(answers[0]);
        law_greedy_decoding_stops(more, eos, (left - 1) as nat, answers.skip(1));
        let end = greedy_tokens(tokens, eos, left, answers);
        assert(end.take(more.len() as int) == more);
        assert(end.take(tokens.len() as int) =~= tokens) by {
            assert forall|i: int| 0 <= i < tokens.len() implies end[i] == tokens[i] by {
                assert(end.take(more.len() as int)[i] == more[i]);
            }
        }
        assert(end[tokens.len() as int] == answers[0]) by {
            assert(end.take(more.len() as int)[tokens.len() as int] == more[tokens.len() as int]);
        }
    }
}

/// Why a model has no cached decoding, if it does not: without a cached
/// decoder, or with unequal numbers of past and present states.
pub open spec fn cache_fault(cached: Option<CachedNames>) -> Option<ErrorModel> {
    match cached {
        None => Some(
            ErrorModel::BackendNotImplemented("Moonshine cached decoder not available"@),
        ),
        Some(n) => if n.past_inputs@.len() > 0 && n.past_inputs@.len()
            != n.present_outputs@.len() {
            Some(
                ErrorModel::InferenceError(
                    "Moonshine cached decoder past/present mismatch ("@ + decimal(
                        n.past_inputs@.len(),
                    ) + " vs "@ + decimal(n.present_outputs@.len()) + ")"@,
                ),
            )
        } else {
            None
        },
    }
}

/// Checks that a model can decode with its cache.
pub fn check_cached_decoder(cached: &Option<CachedNames>) -> (r: Result<(), TranscriptionError>)
    ensures
        outcome_is(r, cache_fault(*cached)),
{
    match cached {
        None => Err(
            TranscriptionError::BackendNotImplemented(
                "Moonshine cached decoder not available".to_owned(),
            ),
        ),
        Some(n) => {
            let past: usize = n.past_inputs.len();
            let present: usize = n.present_outputs.len();
            if past > 0 && past != present {
                let start = concat3(
                    "Moonshine cached decoder past/present mismatch (",
                    decimal_text(past as u64).as_str(),
                    " vs ",
                );
                Err(
                    TranscriptionError::InferenceError(
                        concat3(start.as_str(), decimal_text(present as u64).as_str(), ")"),
                    ),
                )
            } else {
                Ok(())
            }
        },
    }
}

/// A shape with its open dimensions closed: one for the first, none for the
/// others.
pub open spec fn closed_dims(shape: Seq<i64>) -> Seq<int> {
    Seq::new(
        shape.len(),
        |i: int|
            if shape[i] >= 0 {
                shape[i] as int
            } else if i == 0 {
                1
            } else {
                0
            },
    )
}

/// Whether the shape of an input's initial state follows from the flavor.
pub open spec fn flavored(name: Seq<char>, flavor: Option<MoonshineFlavor>) -> bool {
    flavor is Some && contains(name, "past_key_values"@)
}

/// The dimensions of the initial state of an input: from the flavor where it
/// is known, else from the input's shape; or why there is none.
pub open spec fn cache_dims(
    inputs: Seq<InputInfo>,
    name: Seq<char>,
    flavor: Option<MoonshineFlavor>,
) -> Result<Seq<int>, ErrorModel> {
    if !flavored(name, flavor) && input_shape(inputs, name) is Err {
        Err(
            ErrorModel::InferenceError(
                "Failed to read cached decoder input shape: "@ + input_shape(
                    inputs,
                    name,
                )->Err_0,
            ),
        )
    } else {
        match input_at(inputs, name, 0) {
            None => Err(
                ErrorModel::InferenceError("Missing cached decoder input metadata: "@ + name),
            ),
            Some(i) => match inputs[i].tensor {
                None => Err(
                    ErrorModel::InferenceError("Cached decoder input is not a tensor: "@ + name),
                ),
                Some(t) => if t.element@ != ElementModel::Float32 {
                    Err(
                        ErrorModel::InferenceError(
                            "Cached decoder input "@ + name + " has unsupported type "@
                                + element_text(t.element@),
                        ),
                    )
                } else if flavored(name, flavor) {
                    Ok(
                        seq![
                            0,
                            flavor->0.num_key_value_heads as int,
                            1,
                            flavor->0.head_dim as int,
                        ],
                    )
                } else {
                    Ok(closed_dims(t.shape@))
                },
            },
        }
    }
}

/// Dimensions as integers.
pub open spec fn dims_of(v: Seq<u64>) -> Seq<int> {
    v.map_values(|d: u64| d as int)
}

fn close_dims(shape: &Vec<i64>) -> (r: Vec<u64>)
    ensures
        dims_of(r@) == closed_dims(shape@),
{
    let mut r: Vec<u64> = Vec::new();
    let mut i: usize = 0;
    while i < shape.len()
        invariant
            i <= shape@.len(),
            r@.len() == i,
            forall|j: int| 0 <= j < i ==> #[trigger] r@[j] == closed_dims(shape@)[j],
        decreases shape@.len() - i,
    {
        let d: i64 = shape[i];
        r.push(if d >= 0 { d as u64 } else if i == 0 { 1 } else { 0 });
        i += 1;
    }
    assert(dims_of(r@) =~= closed_dims(shape@));
    r
}

/// The dimensions of the initial state of an input of the cached decoder.
pub fn initial_cache_dims(
    inputs: &Vec<InputInfo>,
    name: &str,
    flavor: Option<MoonshineFlavor>,
) -> (r: Result<Vec<u64>, TranscriptionError>)
    ensures
        match cache_dims(inputs@, name@, flavor) {
            Ok(dims) => r matches Ok(d) && dims_of(d@) == dims,
            Err(m) => r matches Err(e) && e@ == m,
        },
{
    let known = match flavor {
        Some(f) => if contains_str(name, "past_key_values") {
            Some(f)
        } else {
            None
        },
        None => None,
    };
    if known.is_none() {
        match cached_input_shape(inputs, name) {
            Ok(_) => {},
            Err(e) => return Err(
                TranscriptionError::InferenceError(
                    concat("Failed to read cached decoder input shape: ", e.as_str()),
                ),
            ),
        }
    }
    let at = match find_input(inputs, name) {
        Some(i) => i,
        None => return Err(
            TranscriptionError::InferenceError(
                concat("Missing cached decoder input metadata: ", name),
            ),
        ),
    };
    match &inputs[at].tensor {
        None => Err(
            TranscriptionError::InferenceError(
                concat("Cached decoder input is not a tensor: ", name),
            ),
        ),
        Some(t) => {
            match &t.element {
                ElementType::Float32 => {},
                other => {
                    let start = concat3("Cached decoder input ", name, " has unsupported type ");
                    return Err(
                        TranscriptionError::InferenceError(
                            concat(start.as_str(), other.to_string().as_str()),
                        ),
                    );
                },
            }
            match known {
                Some(f) => {
                    let mut dims: Vec<u64> = Vec::new();
                    dims.push(0);
                    dims.push(f.num_key_value_heads as u64);
                    dims.push(1);
                    dims.push(f.head_dim as u64);
                    assert(dims_of(dims@) =~= seq![
                        0,
                        f.num_key_value_heads as int,
                        1,
                        f.head_dim as int,
                    ]);
                    Ok(dims)
                },
                None => Ok(close_dims(&t.shape)),
            }
        },
    }
}

/// A flag in one of the types that networks take it in.
#[derive(Debug, Clone, Copy, PartialEq, Eq, Structural)]
pub enum ScalarFlag {
    Bool(bool),
    Int64(i64),
    Int32(i32),
}

/// A flag in an element type.
pub open spec fn flag_in(value: bool, element: ElementModel) -> Option<ScalarFlag> {
    match element {
        ElementModel::Bool => Some(ScalarFlag::Bool(value)),
        ElementModel::Int64 => Some(ScalarFlag::Int64(if value { 1 } else { 0 })),
        ElementModel::Int32 => Some(ScalarFlag::Int32(if value { 1 } else { 0 })),
        _ => None,
    }
}

/// A flag in an element type, where it can be expressed.
pub fn build_scalar_bool(value: bool, element_type: &ElementType) -> (r: Result<
    ScalarFlag,
    TranscriptionError,
>)
    ensures
        match flag_in(value, element_type@) {
            Some(flag) => r matches Ok(f) && f == flag,
            None => r matches Err(e) && e@ == ErrorModel::InferenceError(
                "Unsupported use_cache_branch type: "@ + element_text(element_type@),
            ),
        },
{
    match element_type {
        ElementType::Bool => Ok(ScalarFlag::Bool(value)),
        ElementType::Int64 => Ok(ScalarFlag::Int64(if value { 1 } else { 0 })),
        ElementType::Int32 => Ok(ScalarFlag::Int32(if value { 1 } else { 0 })),
        other => Err(
            TranscriptionError::InferenceError(
                concat("Unsupported use_cache_branch type: ", other.to_string().as_str()),
            ),
        ),
    }
}

/// The numbers of a list in decimal.
pub open spec fn decimals(v: Seq<usize>) -> Seq<Seq<char>> {
    v.map_values(|n: usize| decimal(n as nat))
}

/// Where the scores of the last position stand in scores of a shape, as a
/// range: the scores themselves, or the last row of them, of the first batch.
pub open spec fn last_row(shape: Seq<usize>) -> Option<(int, int)> {
    if shape.len() == 1 {
        Some((0, shape[0] as int))
    } else if shape.len() == 2 {
        Some(((shape[0] - 1) * shape[1], shape[0] * shape[1]))
    } else if shape.len() == 3 {
        Some(((shape[1] - 1) * shape[2], shape[1] * shape[2]))
    } else {
        None
    }
}

fn decimal_list(v: &[usize]) -> (r: Vec<String>)
    ensures
        views(r@) == decimals(v@),
{
    let mut r: Vec<String> = Vec::new();
    let mut i: usize = 0;
    while i < v.len()
        invariant
            i <= v@.len(),
            r@.len() == i,
            forall|j: int| 0 <= j < i ==> (#[trigger] r@[j])@ == decimal(v@[j] as nat),
        decreases v@.len() - i,
    {
        r.push(decimal_text(v[i] as u64));
        i += 1;
    }
    assert(views(r@) =~= decimals(v@)) by {
        assert forall|j: int| 0 <= j < views(r@).len() implies views(r@)[j] == decimals(v@)[j] by {
            assert(views(r@)[j] == r@[j]@);
        }
    }
    r
}

/// Where the scores of the next token stand in scores of a shape.
pub fn next_token_scores(shape: &[usize]) -> (r: Result<(usize, usize), TranscriptionError>)
    requires
        shape@.len() == 2 ==> shape@[0] > 0 && shape@[0] * shape@[1] <= usize::MAX,
        shape@.len() == 3 ==> shape@[0] > 0 && shape@[1] > 0 && shape@[1] * shape@[2]
            <= usize::MAX,
    ensures
        match last_row(shape@) {
            Some((from, to)) => r matches Ok((a, b)) && a == from && b == to && a <= b,
            None => r matches Err(e) && e@ == ErrorModel::InferenceError(
                "Unsupported logits shape: ["@ + join(decimals(shape@), ", "@) + "]"@,
            ),
        },
{
    let n: usize = shape.len();
    if n == 1 {
        Ok((0, shape[0]))
    } else if n == 2 || n == 3 {
        let rows: usize = shape[n - 2];
        let cols: usize = shape[n - 1];
        assert((rows - 1) * cols == rows * cols - cols) by (nonlinear_arith);
        assert(0 <= (rows - 1) * cols) by (nonlinear_arith)
            requires
                rows > 0,
                cols >= 0,
        ;
        Ok(((rows - 1) * cols, rows * cols))
    } else {
        let start = concat3(
            "Unsupported logits shape: [",
            joined(&decimal_list(shape), ", ").as_str(),
            "]",
        );
        Err(TranscriptionError::InferenceError(start))
    }
}

/// Decoding takes the answers as they come, repeated ones included: what it
/// appends is the answers from the first on, up to the end token, the most it
/// may append, or the last answer, whichever is first.
pub proof fn law_greedy_decoding_follows_the_answers(
    tokens: Seq<u32>,
    eos: u32,
    left: nat,
    answers: Seq<u32>,
)
    ensures
        ({
            let end = greedy_tokens(tokens, eos, left, answers);
            let n = end.len() - tokens.len();
            &&& 0 <= n <= left
            &&& n <= answers.len()
            &&& end == tokens + answers.take(n)
            &&& forall|k: int| 0 <= k < n ==> #[trigger] answers[k] != eos
            &&& n == left || n == answers.len() || answers[n] == eos
        }),
    decreases answers.len(),
{
    let end = greedy_tokens(tokens, eos, left, answers);
    if left == 0 || answers.len() == 0 || answers[0] == eos {
        assert(tokens + answers.take(0) =~= tokens);
    } else {
        let rest = answers.skip(1);
        law_greedy_decoding_follows_the_answers(
            tokens.push(answers[0]),
            eos,
            (left - 1) as nat,
            rest,
        );
        let n = end.len() - tokens.len();
        assert(tokens.push(answers[0]) + rest.take(n - 1) =~= tokens + answers.take(n));
        assert forall|k: int| 0 <= k < n implies #[trigger] answers[k] != eos by {
            if k > 0 {
                assert(rest[k - 1] == answers[k]);
            }
        }
        if n < answers.len() {
            assert(rest[n - 1] == answers[n]);
        }
    }
}

/// The next token is scored at the last position of the first batch: by as many
/// scores as there are tokens, the last of the batch's.
pub proof fn law_next_token_is_scored_last(shape: Seq<usize>)
    requires
        1 <= shape.len() <= 3,
    ensures
        ({
            let tokens = shape[shape.len() - 1] as int;
            let positions = if shape.len() == 1 { 1 } else { shape[shape.len() - 2] as int };
            &&& last_row(shape) matches Some((from, to))
            &&& to - from == tokens
            &&& to == positions * tokens
        }),
{
    let tokens = shape[shape.len() - 1] as int;
    let positions = if shape.len() == 1 { 1 } else { shape[shape.len() - 2] as int };
    assert((positions - 1) * tokens == positions * tokens - tokens) by (nonlinear_arith);
}

/// A flag says the same in every type that it can be expressed in: one for true
/// and zero for false.
pub proof fn law_flags_say_the_same(value: bool, element: ElementModel)
    ensures
        match flag_in(value, element) {
            Some(ScalarFlag::Bool(b)) => element == ElementModel::Bool && b == value,
            Some(ScalarFlag::Int64(n)) => element == ElementModel::Int64 && n == (if value {
                1i64
            } else {
                0
            }),
            Some(ScalarFlag::Int32(n)) => element == ElementModel::Int32 && n == (if value {
                1i32
            } else {
                0
            }),
            None => element is Float32 || element is Other,
        },
{
}

/// The initial state of an input has no past: its dimensions are those of the
/// input, with one batch where that is open and nothing where another is; or, of
/// a model whose flavor is known, no past of as many heads as it has.
pub proof fn law_initial_state_has_no_past(
    inputs: Seq<InputInfo>,
    name: Seq<char>,
    flavor: Option<MoonshineFlavor>,
)
    ensures
        cache_dims(inputs, name, flavor) matches Ok(dims) ==> {
            &&& input_at(inputs, name, 0) is Some
            &&& flavor matches Some(f) ==> (contains(name, "past_key_values"@) ==> dims == seq![
                0int,
                f.num_key_value_heads as int,
                1,
                f.head_dim as int,
            ])
            &&& flavor is None || !contains(name, "past_key_values"@) ==> {
                let shape = inputs[input_at(inputs, name, 0)->0].tensor->0.shape@;
                &&& dims.len() == shape.len()
                &&& forall|i: int|
                    0 <= i < shape.len() ==> #[trigger] dims[i] == (if shape[i] >= 0 {
                        shape[i] as int
                    } else if i == 0 {
                        1
                    } else {
                        0
                    })
            }
        },
{
}

} // verus!
