//! The `#[worker(..)]` attribute: what its options mean, and what it makes of a function.
//!
//! The attribute's arguments come as a list of tokens and the function as the shape of its
//! signature. Positions in errors are token indices; the index past the last token is the end of
//! the arguments.

use vstd::prelude::*;
use crate::kernel::backoff::BackoffStrategy;
use crate::kernel::job::optional_text;
use crate::scripts::move_to_active::Limiter;
use crate::text::{all_white, law_trimmed_of_padded, IntError};
use crate::text::{as_unsigned, chars_of, is_enclosed, join, parse_unsigned, parts, same_text, split, split_at_each, strip, text_of, trim, trimmed};
use crate::text::{decimal, int_error_message, int_error_text, is_digit, law_decimal_reads_back, law_parts_without_separator, law_split_joined, lemma_decimal_digits, lemma_split_chars, lemma_split_pair, lemma_split_whole};

verus! {

// The texts of the options `backoff` and `limiter`.

/// What a text says of a limiter: two numbers with a comma between them. Errors are messages.
pub open spec fn limiter_of(s: Seq<char>) -> Result<Limiter, Seq<char>> {
    let list = split_at_each(s, ',');
    if list.len() != 2 {
        Err("limiter requires two arguments: max, duration (e.g. \"10, 1000\")"@)
    } else {
        match (
            as_unsigned(trimmed(list[0]), u32::MAX as nat),
            as_unsigned(trimmed(list[1]), u64::MAX as nat),
        ) {
            (Err(_), _) => Err("invalid limiter max: "@ + trimmed(list[0])),
            (Ok(_), Err(_)) => Err("invalid limiter duration: "@ + trimmed(list[1])),
            (Ok(max), Ok(duration)) => Ok(
                Limiter { max: max as u32, duration: duration as u64 },
            ),
        }
    }
}

/// A message with a text at its end.
fn message(start: &str, end: &Vec<char>) -> (text: String)
    ensures
        text@ == start@ + end@,
{
    join(start, text_of(end).as_str())
}

/// Reads the text of the option `limiter`, such as `10, 1000`.
pub fn parse_limiter(s: &str) -> (r: Result<Limiter, String>)
    ensures
        match r {
            Ok(limiter) => limiter_of(s@) == Ok::<Limiter, Seq<char>>(limiter),
            Err(e) => limiter_of(s@) == Err::<Limiter, Seq<char>>(e@),
        },
{
    let list = split(&chars_of(s), ',');
    proof {
        assert(parts(list@).len() == list@.len());
    }
    if list.len() != 2 {
        return Err(
            "limiter requires two arguments: max, duration (e.g. \"10, 1000\")".to_string(),
        );
    }
    proof {
        assert(parts(list@)[0] == list@[0]@);
        assert(parts(list@)[1] == list@[1]@);
    }
    let max_text = trim(&list[0]);
    let max: u32 = match parse_unsigned(&max_text, u32::MAX as u64) {
        Ok(n) => n as u32,
        Err(_) => return Err(message("invalid limiter max: ", &max_text)),
    };
    let duration_text = trim(&list[1]);
    let duration: u64 = match parse_unsigned(&duration_text, u64::MAX) {
        Ok(n) => n,
        Err(_) => return Err(message("invalid limiter duration: ", &duration_text)),
    };
    Ok(Limiter { max, duration })
}

/// What stands in the brackets of `name(..)`.
pub open spec fn argument_text(s: Seq<char>, open: Seq<char>) -> Seq<char> {
    s.subrange(open.len() as int, s.len() - 1)
}

/// What a text says of a backoff: `fixed(<ms>)` or `exponential(<base>, <max>)`, with white
/// space around it and around the numbers. Errors are messages.
pub open spec fn backoff_of(text: Seq<char>) -> Result<BackoffStrategy, Seq<char>> {
    let s = trimmed(text);
    if is_enclosed(s, "fixed("@, ')') {
        let inner = argument_text(s, "fixed("@);
        match as_unsigned(trimmed(inner), u64::MAX as nat) {
            Ok(ms) => Ok(BackoffStrategy::Fixed(ms as u64)),
            Err(_) => Err("invalid fixed backoff value: "@ + inner),
        }
    } else if is_enclosed(s, "exponential("@, ')') {
        let list = split_at_each(argument_text(s, "exponential("@), ',');
        if list.len() != 2 {
            Err("exponential backoff requires two arguments: base, max"@)
        } else {
            match (
                as_unsigned(trimmed(list[0]), u64::MAX as nat),
                as_unsigned(trimmed(list[1]), u64::MAX as nat),
            ) {
                (Err(_), _) => Err("invalid exponential base: "@ + trimmed(list[0])),
                (Ok(_), Err(_)) => Err("invalid exponential max: "@ + trimmed(list[1])),
                (Ok(base), Ok(max)) => Ok(
                    BackoffStrategy::Exponential { base: base as u64, max: max as u64 },
                ),
            }
        }
    } else {
        Err("backoff must be \"fixed(<ms>)\" or \"exponential(<base>, <max>)\""@)
    }
}

/// Reads the text of the option `backoff`.
pub fn parse_backoff(s: &str) -> (r: Result<BackoffStrategy, String>)
    ensures
        match r {
            Ok(strategy) => backoff_of(s@) == Ok::<BackoffStrategy, Seq<char>>(strategy),
            Err(e) => backoff_of(s@) == Err::<BackoffStrategy, Seq<char>>(e@),
        },
{
    let s = trim(&chars_of(s));
    if let Some(inner) = strip(&s, &chars_of("fixed("), ')') {
        return match parse_unsigned(&trim(&inner), u64::MAX) {
            Ok(ms) => Ok(BackoffStrategy::Fixed(ms)),
            Err(_) => Err(message("invalid fixed backoff value: ", &inner)),
        };
    }
    if let Some(inner) = strip(&s, &chars_of("exponential("), ')') {
        let list = split(&inner, ',');
        proof {
            assert(parts(list@).len() == list@.len());
        }
        if list.len() != 2 {
            return Err("exponential backoff requires two arguments: base, max".to_string());
        }
        proof {
            assert(parts(list@)[0] == list@[0]@);
            assert(parts(list@)[1] == list@[1]@);
        }
        let base_text = trim(&list[0]);
        let base: u64 = match parse_unsigned(&base_text, u64::MAX) {
            Ok(n) => n,
            Err(_) => return Err(message("invalid exponential base: ", &base_text)),
        };
        let max_text = trim(&list[1]);
        let max: u64 = match parse_unsigned(&max_text, u64::MAX) {
            Ok(n) => n,
            Err(_) => return Err(message("invalid exponential max: ", &max_text)),
        };
        return Ok(BackoffStrategy::Exponential { base, max });
    }
    Err("backoff must be \"fixed(<ms>)\" or \"exponential(<base>, <max>)\"".to_string())
}

// The options of the attribute.

/// A token of the attribute's arguments. A string comes as its value, an integer as its decimal
/// digits, with a minus sign where it has one.
#[derive(Debug)]
pub enum OptToken {
    Ident(String),
    Keyword(String),
    Eq,
    Comma,
    Str(String),
    Int(String),
    Other,
}

/// A token with its text as a character sequence.
#[verifier::ext_equal]
pub enum OptTokenView {
    Ident(Seq<char>),
    Keyword(Seq<char>),
    Eq,
    Comma,
    Str(Seq<char>),
    Int(Seq<char>),
    Other,
}

impl View for OptToken {
    type V = OptTokenView;

    open spec fn view(&self) -> OptTokenView {
        match *self {
            OptToken::Ident(s) => OptTokenView::Ident(s@),
            OptToken::Keyword(s) => OptTokenView::Keyword(s@),
            OptToken::Eq => OptTokenView::Eq,
            OptToken::Comma => OptTokenView::Comma,
            OptToken::Str(s) => OptTokenView::Str(s@),
            OptToken::Int(s) => OptTokenView::Int(s@),
            OptToken::Other => OptTokenView::Other,
        }
    }
}

/// The contents of a list of tokens.
pub open spec fn token_views(tokens: Seq<OptToken>) -> Seq<OptTokenView> {
    tokens.map_values(|t: OptToken| t@)
}

/// An error at a token.
#[derive(Debug)]
pub struct OptError {
    pub at: usize,
    pub message: String,
}

/// An error with its message as a character sequence.
#[verifier::ext_equal]
pub struct OptErrorView {
    pub at: nat,
    pub message: Seq<char>,
}

impl View for OptError {
    type V = OptErrorView;

    open spec fn view(&self) -> OptErrorView {
        OptErrorView { at: self.at as nat, message: self.message@ }
    }
}

/// The options that are set so far.
#[derive(Debug)]
pub struct WorkerOptsBuilder {
    pub queue: Option<String>,
    pub concurrency: Option<u32>,
    pub retry: Option<u32>,
    pub backoff: Option<BackoffStrategy>,
    pub lock_duration: Option<u64>,
    pub limiter: Option<Limiter>,
}

/// The options that are set so far, with the queue's name as a character sequence.
#[verifier::ext_equal]
pub struct OptsView {
    pub queue: Option<Seq<char>>,
    pub concurrency: Option<u32>,
    pub retry: Option<u32>,
    pub backoff: Option<BackoffStrategy>,
    pub lock_duration: Option<u64>,
    pub limiter: Option<Limiter>,
}

impl View for WorkerOptsBuilder {
    type V = OptsView;

    open spec fn view(&self) -> OptsView {
        OptsView {
            queue: optional_text(self.queue),
            concurrency: self.concurrency,
            retry: self.retry,
            backoff: self.backoff,
            lock_duration: self.lock_duration,
            limiter: self.limiter,
        }
    }
}

/// The options of a worker.
#[derive(Debug)]
pub struct WorkerOpts {
    pub queue: String,
    pub concurrency: u32,
    pub retry: u32,
    pub backoff: Option<BackoffStrategy>,
    pub lock_duration: u64,
    pub limiter: Option<Limiter>,
}

/// The options of a worker, with the queue's name as a character sequence.
#[verifier::ext_equal]
pub struct WorkerOptsView {
    pub queue: Seq<char>,
    pub concurrency: u32,
    pub retry: u32,
    pub backoff: Option<BackoffStrategy>,
    pub lock_duration: u64,
    pub limiter: Option<Limiter>,
}

impl View for WorkerOpts {
    type V = WorkerOptsView;

    open spec fn view(&self) -> WorkerOptsView {
        WorkerOptsView {
            queue: self.queue@,
            concurrency: self.concurrency,
            retry: self.retry,
            backoff: self.backoff,
            lock_duration: self.lock_duration,
            limiter: self.limiter,
        }
    }
}

/// The value that is set, else the default.
pub open spec fn or_default<T>(value: Option<T>, default: T) -> T {
    match value {
        Some(value) => value,
        None => default,
    }
}

impl OptsView {
    pub open spec fn none() -> OptsView {
        OptsView {
            queue: None,
            concurrency: None,
            retry: None,
            backoff: None,
            lock_duration: None,
            limiter: None,
        }
    }

    /// The options with the defaults filled in. The queue has no default.
    pub open spec fn complete(self) -> Result<WorkerOptsView, OptErrorView> {
        match self.queue {
            Some(queue) => Ok(
                WorkerOptsView {
                    queue,
                    concurrency: or_default(self.concurrency, 1),
                    retry: or_default(self.retry, 0),
                    backoff: self.backoff,
                    lock_duration: or_default(self.lock_duration, 30_000),
                    limiter: self.limiter,
                },
            ),
            None => Err(OptErrorView { at: 0, message: "missing required option: queue"@ }),
        }
    }
}

/// Options or an error, as views.
pub open spec fn opts_result(r: Result<WorkerOpts, OptError>) -> Result<
    WorkerOptsView,
    OptErrorView,
> {
    match r {
        Ok(opts) => Ok(opts@),
        Err(e) => Err(e@),
    }
}

impl WorkerOptsBuilder {
    pub fn new() -> (builder: Self)
        ensures
            builder@ == OptsView::none(),
    {
        WorkerOptsBuilder {
            queue: None,
            concurrency: None,
            retry: None,
            backoff: None,
            lock_duration: None,
            limiter: None,
        }
    }

    /// Fills in the defaults; fails where the queue is not set.
    pub fn build(self) -> (r: Result<WorkerOpts, OptError>)
        ensures
            opts_result(r) == self@.complete(),
    {
        match self.queue {
            Some(queue) => Ok(
                WorkerOpts {
                    queue,
                    concurrency: match self.concurrency {
                        Some(n) => n,
                        None => 1,
                    },
                    retry: match self.retry {
                        Some(n) => n,
                        None => 0,
                    },
                    backoff: self.backoff,
                    lock_duration: match self.lock_duration {
                        Some(ms) => ms,
                        None => 30_000,
                    },
                    limiter: self.limiter,
                },
            ),
            None => Err(
                OptError { at: 0, message: "missing required option: queue".to_string() },
            ),
        }
    }
}

/// The message for a missing piece: at the end of the arguments it says so.
pub open spec fn wanted(what: Seq<char>, at_end: bool) -> Seq<char> {
    if at_end {
        "unexpected end of input, "@ + what
    } else {
        what
    }
}

/// The name of the option that starts at `at`.
pub open spec fn name_at(tokens: Seq<OptTokenView>, at: nat) -> Result<Seq<char>, OptErrorView> {
    if at >= tokens.len() {
        Err(OptErrorView { at, message: wanted("expected identifier"@, true) })
    } else {
        match tokens[at as int] {
            OptTokenView::Ident(name) => Ok(name),
            OptTokenView::Keyword(word) => Err(
                OptErrorView {
                    at,
                    message: "expected identifier, found keyword `"@ + word + "`"@,
                },
            ),
            _ => Err(OptErrorView { at, message: wanted("expected identifier"@, false) }),
        }
    }
}

/// The string at `at`.
pub open spec fn str_at(tokens: Seq<OptTokenView>, at: nat) -> Result<Seq<char>, OptErrorView> {
    if at < tokens.len() && tokens[at as int] is Str {
        Ok(tokens[at as int]->Str_0)
    } else {
        Err(OptErrorView { at, message: wanted("expected string literal"@, at >= tokens.len()) })
    }
}

/// The integer at `at`, at most `max`.
pub open spec fn int_at(tokens: Seq<OptTokenView>, at: nat, max: nat) -> Result<nat, OptErrorView> {
    if at < tokens.len() && tokens[at as int] is Int {
        match as_unsigned(tokens[at as int]->Int_0, max) {
            Ok(n) => Ok(n),
            Err(e) => Err(OptErrorView { at, message: int_error_text(e) }),
        }
    } else {
        Err(OptErrorView { at, message: wanted("expected integer literal"@, at >= tokens.len()) })
    }
}

/// The options after the one whose name stands at `at` and whose value stands at `at + 2`.
pub open spec fn option_set(
    tokens: Seq<OptTokenView>,
    at: nat,
    name: Seq<char>,
    opts: OptsView,
) -> Result<OptsView, OptErrorView> {
    let value = at + 2;
    if name == "queue"@ {
        match str_at(tokens, value) {
            Ok(text) => Ok(OptsView { queue: Some(text), ..opts }),
            Err(e) => Err(e),
        }
    } else if name == "concurrency"@ {
        match int_at(tokens, value, u32::MAX as nat) {
            Ok(n) => Ok(OptsView { concurrency: Some(n as u32), ..opts }),
            Err(e) => Err(e),
        }
    } else if name == "retry"@ {
        match int_at(tokens, value, u32::MAX as nat) {
            Ok(n) => Ok(OptsView { retry: Some(n as u32), ..opts }),
            Err(e) => Err(e),
        }
    } else if name == "backoff"@ {
        match str_at(tokens, value) {
            Ok(text) => match backoff_of(text) {
                Ok(strategy) => Ok(OptsView { backoff: Some(strategy), ..opts }),
                Err(message) => Err(OptErrorView { at: value, message }),
            },
            Err(e) => Err(e),
        }
    } else if name == "lock_duration"@ {
        match int_at(tokens, value, u64::MAX as nat) {
            Ok(n) => Ok(OptsView { lock_duration: Some(n as u64), ..opts }),
            Err(e) => Err(e),
        }
    } else if name == "limiter"@ {
        match str_at(tokens, value) {
            Ok(text) => match limiter_of(text) {
                Ok(limiter) => Ok(OptsView { limiter: Some(limiter), ..opts }),
                Err(message) => Err(OptErrorView { at: value, message }),
            },
            Err(e) => Err(e),
        }
    } else {
        Err(OptErrorView { at, message: "unexpected option: "@ + name })
    }
}

/// The options that the tokens from `at` on set: `name = value`, with commas between them and
/// perhaps one at the end. Of two values for one option the later counts.
pub open spec fn options_from(tokens: Seq<OptTokenView>, at: nat, opts: OptsView) -> Result<
    OptsView,
    OptErrorView,
>
    decreases tokens.len() - at,
{
    if at >= tokens.len() {
        Ok(opts)
    } else {
        match name_at(tokens, at) {
            Err(e) => Err(e),
            Ok(name) => if at + 1 >= tokens.len() || tokens[(at + 1) as int] !is Eq {
                Err(OptErrorView { at: at + 1, message: "expected `=`"@ })
            } else {
                match option_set(tokens, at, name, opts) {
                    Err(e) => Err(e),
                    Ok(next) => if at + 3 >= tokens.len() {
                        Ok(next)
                    } else if tokens[(at + 3) as int] !is Comma {
                        Err(OptErrorView { at: at + 3, message: "expected `,`"@ })
                    } else {
                        options_from(tokens, at + 4, next)
                    },
                }
            },
        }
    }
}

/// What the attribute's arguments mean.
pub open spec fn worker_opts_of(tokens: Seq<OptTokenView>) -> Result<WorkerOptsView, OptErrorView> {
    match options_from(tokens, 0, OptsView::none()) {
        Ok(opts) => opts.complete(),
        Err(e) => Err(e),
    }
}

fn wanted_error(what: &str, at: usize, at_end: bool) -> (e: OptError)
    ensures
        e@ == (OptErrorView { at: at as nat, message: wanted(what@, at_end) }),
{
    let message = if at_end {
        join("unexpected end of input, ", what)
    } else {
        what.to_string()
    };
    OptError { at, message }
}

fn read_str(tokens: &Vec<OptToken>, at: usize) -> (r: Result<String, OptError>)
    ensures
        match r {
            Ok(text) => str_at(token_views(tokens@), at as nat) == Ok::<Seq<char>, OptErrorView>(
                text@,
            ),
            Err(e) => str_at(token_views(tokens@), at as nat) == Err::<Seq<char>, OptErrorView>(e@),
        },
{
    if at >= tokens.len() {
        return Err(wanted_error("expected string literal", at, true));
    }
    match &tokens[at] {
        OptToken::Str(text) => Ok(text.clone()),
        _ => Err(wanted_error("expected string literal", at, false)),
    }
}

fn read_int(tokens: &Vec<OptToken>, at: usize, max: u64) -> (r: Result<u64, OptError>)
    ensures
        match r {
            Ok(n) => int_at(token_views(tokens@), at as nat, max as nat) == Ok::<nat, OptErrorView>(
                n as nat,
            ) && n <= max,
            Err(e) => int_at(token_views(tokens@), at as nat, max as nat) == Err::<
                nat,
                OptErrorView,
            >(e@),
        },
{
    if at >= tokens.len() {
        return Err(wanted_error("expected integer literal", at, true));
    }
    match &tokens[at] {
        OptToken::Int(digits) => match parse_unsigned(&chars_of(digits.as_str()), max) {
            Ok(n) => Ok(n),
            Err(e) => Err(OptError { at, message: int_error_message(e).to_string() }),
        },
        _ => Err(wanted_error("expected integer literal", at, false)),
    }
}

/// Options or an error, as views.
pub open spec fn builder_result(r: Result<WorkerOptsBuilder, OptError>) -> Result<
    OptsView,
    OptErrorView,
> {
    match r {
        Ok(builder) => Ok(builder@),
        Err(e) => Err(e@),
    }
}

/// Reads the value of one option.
fn read_option(
    tokens: &Vec<OptToken>,
    at: usize,
    name: &str,
    opts: WorkerOptsBuilder,
) -> (r: Result<WorkerOptsBuilder, OptError>)
    requires
        at + 1 < tokens.len(),
    ensures
        builder_result(r) == option_set(token_views(tokens@), at as nat, name@, opts@),
{
    let value: usize = at + 2;
    if same_text(name, "queue") {
        match read_str(tokens, value) {
            Ok(text) => Ok(WorkerOptsBuilder { queue: Some(text), ..opts }),
            Err(e) => Err(e),
        }
    } else if same_text(name, "concurrency") {
        match read_int(tokens, value, u32::MAX as u64) {
            Ok(n) => Ok(WorkerOptsBuilder { concurrency: Some(n as u32), ..opts }),
            Err(e) => Err(e),
        }
    } else if same_text(name, "retry") {
        match read_int(tokens, value, u32::MAX as u64) {
            Ok(n) => Ok(WorkerOptsBuilder { retry: Some(n as u32), ..opts }),
            Err(e) => Err(e),
        }
    } else if same_text(name, "backoff") {
        match read_str(tokens, value) {
            Ok(text) => match parse_backoff(text.as_str()) {
                Ok(strategy) => Ok(WorkerOptsBuilder { backoff: Some(strategy), ..opts }),
                Err(message) => Err(OptError { at: value, message }),
            },
            Err(e) => Err(e),
        }
    } else if same_text(name, "lock_duration") {
        match read_int(tokens, value, u64::MAX) {
            Ok(n) => Ok(WorkerOptsBuilder { lock_duration: Some(n), ..opts }),
            Err(e) => Err(e),
        }
    } else if same_text(name, "limiter") {
        match read_str(tokens, value) {
            Ok(text) => match parse_limiter(text.as_str()) {
                Ok(limiter) => Ok(WorkerOptsBuilder { limiter: Some(limiter), ..opts }),
                Err(message) => Err(OptError { at: value, message }),
            },
            Err(e) => Err(e),
        }
    } else {
        Err(OptError { at, message: join("unexpected option: ", name) })
    }
}

impl WorkerOpts {
    /// Reads the attribute's arguments.
    pub fn parse(tokens: &Vec<OptToken>) -> (r: Result<WorkerOpts, OptError>)
        ensures
            opts_result(r) == worker_opts_of(token_views(tokens@)),
    {
        let ghost views = token_views(tokens@);
        let mut opts = WorkerOptsBuilder::new();
        let mut at: usize = 0;
        while at < tokens.len()
            invariant
                views == token_views(tokens@),
                options_from(views, at as nat, opts@) == options_from(views, 0, OptsView::none()),
            decreases tokens.len() - at,
        {
            proof {
                assert(views[at as int] == tokens@[at as int]@);
            }
            let name = match &tokens[at] {
                OptToken::Ident(name) => name,
                OptToken::Keyword(word) => {
                    let mut message = join("expected identifier, found keyword `", word.as_str());
                    message.append("`");
                    return Err(OptError { at, message });
                },
                _ => return Err(wanted_error("expected identifier", at, false)),
            };
            if tokens.len() - at < 2 || !matches!(tokens[at + 1], OptToken::Eq) {
                proof {
                    if at + 1 < tokens.len() {
                        assert(views[at + 1] == tokens@[at + 1]@);
                    }
                }
                return Err(OptError { at: at + 1, message: "expected `=`".to_string() });
            }
            proof {
                assert(views[at + 1] == tokens@[at + 1]@);
            }
            opts = match read_option(tokens, at, name.as_str(), opts) {
                Ok(next) => next,
                Err(e) => return Err(e),
            };
            if tokens.len() - at <= 3 {
                return opts.build();
            }
            proof {
                assert(views[at + 3] == tokens@[at + 3]@);
            }
            if !matches!(tokens[at + 3], OptToken::Comma) {
                return Err(OptError { at: at + 3, message: "expected `,`".to_string() });
            }
            at = at + 4;
        }
        opts.build()
    }
}

// The function that the attribute stands on.

/// A type, as far as the attribute looks into it.
#[derive(Debug)]
pub enum TypeShape {
    Reference(Box<TypeShape>),
    Path(Vec<SegmentShape>),
    Other,
}

/// A segment of a path, by its arguments.
#[derive(Debug)]
pub enum SegmentShape {
    /// With arguments in angle brackets.
    Generic(Vec<GenericShape>),
    /// Without arguments, or with arguments in round brackets.
    Plain,
}

/// An argument in angle brackets. A type comes as its text.
#[derive(Debug)]
pub enum GenericShape {
    Type(String),
    Other,
}

/// An argument of a function.
#[derive(Debug)]
pub enum ArgShape {
    Receiver,
    Typed(TypeShape),
}

/// The signature of a function.
#[derive(Debug)]
pub struct SignatureShape {
    pub name: String,
    pub inputs: Vec<ArgShape>,
    pub output: Option<TypeShape>,
}

/// The part of a signature that an error is about.
#[derive(Debug, Clone, Copy, PartialEq, Eq, Structural)]
pub enum SignaturePart {
    Argument,
    Return,
}

/// What in that part the error is about.
#[derive(Debug, Clone, Copy, PartialEq, Eq, Structural)]
pub enum ErrorSite {
    /// The signature as a whole, because the part is not there.
    Signature,
    /// The argument as a whole.
    Part,
    /// The type of the argument or of what is returned.
    Type,
    /// The type behind the reference.
    ReferencedType,
    /// The path that the type is.
    Path,
    LastSegment,
    GenericArguments,
    FirstGeneric,
}

/// Why a function cannot be a worker's processor.
#[derive(Debug)]
pub struct ShapeError {
    pub part: SignaturePart,
    pub site: ErrorSite,
    pub message: &'static str,
}

/// An error with its message as a character sequence.
#[verifier::ext_equal]
pub struct ShapeErrorView {
    pub part: SignaturePart,
    pub site: ErrorSite,
    pub message: Seq<char>,
}

impl View for ShapeError {
    type V = ShapeErrorView;

    open spec fn view(&self) -> ShapeErrorView {
        ShapeErrorView { part: self.part, site: self.site, message: self.message@ }
    }
}

/// A text or an error, as character sequences.
pub open spec fn shape_result(r: Result<String, ShapeError>) -> Result<Seq<char>, ShapeErrorView> {
    match r {
        Ok(text) => Ok(text@),
        Err(e) => Err(e@),
    }
}

/// An error about a shape.
pub open spec fn shape_err<T>(part: SignaturePart, site: ErrorSite, message: Seq<char>) -> Result<
    T,
    ShapeErrorView,
> {
    Err(ShapeErrorView { part, site, message })
}

/// The first type argument of the last segment of a path. The messages say what was expected,
/// without and with its parameter, and that the parameter is required.
pub open spec fn type_argument(
    part: SignaturePart,
    path: Seq<SegmentShape>,
    expected: Seq<char>,
    with_parameter: Seq<char>,
    required: Seq<char>,
) -> Result<Seq<char>, ShapeErrorView> {
    if path.len() == 0 {
        shape_err(part, ErrorSite::Path, expected)
    } else {
        match path.last() {
            SegmentShape::Plain => shape_err(part, ErrorSite::LastSegment, with_parameter),
            SegmentShape::Generic(args) => if args@.len() == 0 {
                shape_err(part, ErrorSite::GenericArguments, required)
            } else {
                match args@[0] {
                    GenericShape::Type(text) => Ok(text@),
                    GenericShape::Other => shape_err(
                        part,
                        ErrorSite::FirstGeneric,
                        "expected type argument"@,
                    ),
                }
            },
        }
    }
}

/// The type `T` of a first argument `&Job<T>`.
pub open spec fn job_data_type(func: SignatureShape) -> Result<Seq<char>, ShapeErrorView> {
    if func.inputs@.len() == 0 {
        shape_err(
            SignaturePart::Argument,
            ErrorSite::Signature,
            "worker function must take &Job<Data> as first argument"@,
        )
    } else {
        match func.inputs@[0] {
            ArgShape::Receiver => shape_err(
                SignaturePart::Argument,
                ErrorSite::Part,
                "expected typed argument, not self"@,
            ),
            ArgShape::Typed(TypeShape::Reference(elem)) => match *elem {
                TypeShape::Path(path) => type_argument(
                    SignaturePart::Argument,
                    path@,
                    "expected Job<Data>"@,
                    "expected Job<Data> with type parameter"@,
                    "Job requires a type parameter"@,
                ),
                _ => shape_err(SignaturePart::Argument, ErrorSite::ReferencedType, "expected Job<Data>"@),
            },
            ArgShape::Typed(_) => shape_err(SignaturePart::Argument, ErrorSite::Type, "expected &Job<Data>"@),
        }
    }
}

/// The type `T` of a return type `Result<T>`.
pub open spec fn result_type(func: SignatureShape) -> Result<Seq<char>, ShapeErrorView> {
    match func.output {
        None => shape_err(SignaturePart::Return, ErrorSite::Signature, "worker function must return Result<T>"@),
        Some(TypeShape::Path(path)) => type_argument(
            SignaturePart::Return,
            path@,
            "expected Result<T>"@,
            "expected Result<T> with type parameter"@,
            "Result requires a type parameter"@,
        ),
        Some(_) => shape_err(SignaturePart::Return, ErrorSite::Type, "expected Result<T>"@),
    }
}

fn extract_type_argument(
    part: SignaturePart,
    path: &Vec<SegmentShape>,
    expected: &'static str,
    with_parameter: &'static str,
    required: &'static str,
) -> (r: Result<String, ShapeError>)
    ensures
        shape_result(r) == type_argument(part, path@, expected@, with_parameter@, required@),
{
    if path.len() == 0 {
        return Err(ShapeError { part, site: ErrorSite::Path, message: expected });
    }
    let args = match &path[path.len() - 1] {
        SegmentShape::Generic(args) => args,
        SegmentShape::Plain => return Err(
            ShapeError { part, site: ErrorSite::LastSegment, message: with_parameter },
        ),
    };
    if args.len() == 0 {
        return Err(ShapeError { part, site: ErrorSite::GenericArguments, message: required });
    }
    match &args[0] {
        GenericShape::Type(text) => Ok(text.clone()),
        GenericShape::Other => Err(
            ShapeError { part, site: ErrorSite::FirstGeneric, message: "expected type argument" },
        ),
    }
}

/// Extracts the type `T` from `&Job<T>` in the first argument.
pub fn extract_job_data_type(func: &SignatureShape) -> (r: Result<String, ShapeError>)
    ensures
        shape_result(r) == job_data_type(*func),
{
    if func.inputs.len() == 0 {
        return Err(
            ShapeError {
                part: SignaturePart::Argument,
                site: ErrorSite::Signature,
                message: "worker function must take &Job<Data> as first argument",
            },
        );
    }
    let ty = match &func.inputs[0] {
        ArgShape::Typed(ty) => ty,
        ArgShape::Receiver => return Err(
            ShapeError {
                part: SignaturePart::Argument,
                site: ErrorSite::Part,
                message: "expected typed argument, not self",
            },
        ),
    };
    let elem = match ty {
        TypeShape::Reference(elem) => elem,
        _ => return Err(
            ShapeError { part: SignaturePart::Argument, site: ErrorSite::Type, message: "expected &Job<Data>" },
        ),
    };
    match &**elem {
        TypeShape::Path(path) => extract_type_argument(
            SignaturePart::Argument,
            path,
            "expected Job<Data>",
            "expected Job<Data> with type parameter",
            "Job requires a type parameter",
        ),
        _ => Err(ShapeError { part: SignaturePart::Argument, site: ErrorSite::ReferencedType, message: "expected Job<Data>" }),
    }
}

/// Extracts the type `T` from `Result<T>` in the return type.
pub fn extract_return_type(func: &SignatureShape) -> (r: Result<String, ShapeError>)
    ensures
        shape_result(r) == result_type(*func),
{
    let ty = match &func.output {
        Some(ty) => ty,
        None => return Err(
            ShapeError {
                part: SignaturePart::Return,
                site: ErrorSite::Signature,
                message: "worker function must return Result<T>",
            },
        ),
    };
    match ty {
        TypeShape::Path(path) => extract_type_argument(
            SignaturePart::Return,
            path,
            "expected Result<T>",
            "expected Result<T> with type parameter",
            "Result requires a type parameter",
        ),
        _ => Err(ShapeError { part: SignaturePart::Return, site: ErrorSite::Type, message: "expected Result<T>" }),
    }
}

// The name of the generated type.

/// The upper case of a character, which can be more than one.
pub uninterp spec fn upper_case(c: char) -> Seq<char>;

/// The lower case of a text.
pub uninterp spec fn lower_case(s: Seq<char>) -> Seq<char>;

/// The upper case of an ASCII character.
pub open spec fn ascii_upper(c: char) -> char {
    if 'a' <= c <= 'z' {
        (c as int - 32) as char
    } else {
        c
    }
}

/// The lower case of an ASCII character.
pub open spec fn ascii_lower(c: char) -> char {
    if 'A' <= c <= 'Z' {
        (c as int + 32) as char
    } else {
        c
    }
}

/// Whether every character is an ASCII character.
pub open spec fn all_ascii(s: Seq<char>) -> bool {
    forall|i: int| 0 <= i < s.len() ==> (#[trigger] s[i]) as int <= 0x7f
}

/// `char::to_uppercase` gives the upper case of a character; an ASCII letter in lower case
/// becomes the letter in upper case, and any other ASCII character stays.
#[verifier::external_body]
fn upper(c: char) -> (s: String)
    ensures
        s@ == upper_case(c),
        c as int <= 0x7f ==> s@ == seq![ascii_upper(c)],
{
    c.to_uppercase().to_string()
}

/// `str::to_lowercase` gives the lower case of a text; in a text of ASCII characters the letters
/// in upper case become those in lower case, and the others stay.
#[verifier::external_body]
fn lower(text: &str) -> (s: String)
    ensures
        s@ == lower_case(text@),
        all_ascii(text@) ==> s@ == text@.map_values(|c: char| ascii_lower(c)),
{
    text.to_lowercase()
}

/// A word with its first character in upper case and the others in lower case.
pub open spec fn capitalized(word: Seq<char>) -> Seq<char> {
    if word.len() == 0 {
        word
    } else {
        upper_case(word[0]) + lower_case(word.skip(1))
    }
}

/// Words one after the other, each capitalized.
pub open spec fn all_capitalized(words: Seq<Seq<char>>) -> Seq<char>
    decreases words.len(),
{
    if words.len() == 0 {
        seq![]
    } else {
        all_capitalized(words.drop_last()) + capitalized(words.last())
    }
}

/// A name in snake case as a name in Pascal case.
pub open spec fn pascal_case(s: Seq<char>) -> Seq<char> {
    all_capitalized(split_at_each(s, '_'))
}

/// An ASCII word with its first character in upper case and the others in lower case.
pub open spec fn ascii_capitalized(word: Seq<char>) -> Seq<char> {
    if word.len() == 0 {
        word
    } else {
        seq![ascii_upper(word[0])] + word.skip(1).map_values(|c: char| ascii_lower(c))
    }
}

/// ASCII words one after the other, each capitalized.
pub open spec fn all_ascii_capitalized(words: Seq<Seq<char>>) -> Seq<char>
    decreases words.len(),
{
    if words.len() == 0 {
        seq![]
    } else {
        all_ascii_capitalized(words.drop_last()) + ascii_capitalized(words.last())
    }
}

/// An ASCII name in snake case as a name in Pascal case.
pub open spec fn ascii_pascal_case(s: Seq<char>) -> Seq<char> {
    all_ascii_capitalized(split_at_each(s, '_'))
}

fn capitalize(word: &Vec<char>) -> (s: String)
    ensures
        s@ == capitalized(word@),
        all_ascii(word@) ==> s@ == ascii_capitalized(word@),
{
    if word.len() == 0 {
        return String::new();
    }
    let mut s = upper(word[0]);
    let rest = crate::text::chars_between(word, 1, word.len());
    proof {
        assert(rest@ =~= word@.skip(1));
        if all_ascii(word@) {
            assert(word@[0] as int <= 0x7f);
            assert forall|i: int| 0 <= i < rest@.len() implies (#[trigger] rest@[i]) as int
                <= 0x7f by {
                assert(rest@[i] == word@[i + 1]);
            }
        }
    }
    s.append(lower(text_of(&rest).as_str()).as_str());
    s
}

/// The words of an ASCII name are ASCII.
proof fn lemma_words_ascii(s: Seq<char>, word: int)
    requires
        all_ascii(s),
        0 <= word < split_at_each(s, '_').len(),
    ensures
        all_ascii(split_at_each(s, '_')[word]),
{
    let w = split_at_each(s, '_')[word];
    assert forall|i: int| 0 <= i < w.len() implies (#[trigger] w[i]) as int <= 0x7f by {
        lemma_split_chars(s, '_', word, i);
        let j = choose|j: int| 0 <= j < s.len() && s[j] == w[i];
        assert(s[j] as int <= 0x7f);
    }
}

/// Converts a name from snake case to Pascal case.
pub fn to_pascal_case(s: &str) -> (name: String)
    ensures
        name@ == pascal_case(s@),
        all_ascii(s@) ==> name@ == ascii_pascal_case(s@),
{
    let words = split(&chars_of(s), '_');
    let ghost views = parts(words@);
    let mut name = String::new();
    let mut i: usize = 0;
    proof {
        assert(views.take(0) =~= seq![]);
    }
    while i < words.len()
        invariant
            i <= words.len(),
            views == parts(words@),
            views == split_at_each(s@, '_'),
            name@ == all_capitalized(views.take(i as int)),
            all_ascii(s@) ==> name@ == all_ascii_capitalized(views.take(i as int)),
        decreases words.len() - i,
    {
        proof {
            if all_ascii(s@) {
                lemma_words_ascii(s@, i as int);
            }
            assert(views.take(i + 1).drop_last() =~= views.take(i as int));
            assert(views.take(i + 1).last() == words@[i as int]@);
        }
        name.append(capitalize(&words[i]).as_str());
        i = i + 1;
    }
    proof {
        assert(views.take(views.len() as int) =~= views);
    }
    name
}

/// Words that follow other words are capitalized after them.
proof fn lemma_capitalized_joined(a: Seq<Seq<char>>, b: Seq<Seq<char>>)
    ensures
        all_capitalized(a + b) == all_capitalized(a) + all_capitalized(b),
        all_ascii_capitalized(a + b) == all_ascii_capitalized(a) + all_ascii_capitalized(b),
    decreases b.len(),
{
    if b.len() == 0 {
        assert(a + b =~= a);
        assert(all_capitalized(a) + all_capitalized(b) =~= all_capitalized(a));
        assert(all_ascii_capitalized(a) + all_ascii_capitalized(b) =~= all_ascii_capitalized(a));
    } else {
        lemma_capitalized_joined(a, b.drop_last());
        assert((a + b).drop_last() =~= a + b.drop_last());
        assert((a + b).last() == b.last());
        let (p, q) = (all_capitalized(a), all_capitalized(b.drop_last()));
        let last = capitalized(b.last());
        assert((p + q) + last =~= p + (q + last));
        let (p, q) = (all_ascii_capitalized(a), all_ascii_capitalized(b.drop_last()));
        let last = ascii_capitalized(b.last());
        assert((p + q) + last =~= p + (q + last));
    }
}

/// Two names joined by an underscore become the one name followed by the other.
pub proof fn law_pascal_case_joined(a: Seq<char>, b: Seq<char>)
    ensures
        pascal_case(a.push('_') + b) == pascal_case(a) + pascal_case(b),
        ascii_pascal_case(a.push('_') + b) == ascii_pascal_case(a) + ascii_pascal_case(b),
{
    law_split_joined(a, b, '_');
    lemma_capitalized_joined(split_at_each(a, '_'), split_at_each(b, '_'));
}

/// A name without an underscore becomes one capitalized word, and the empty name stays empty.
pub proof fn law_pascal_case_word(word: Seq<char>)
    requires
        forall|i: int| 0 <= i < word.len() ==> #[trigger] word[i] != '_',
    ensures
        pascal_case(word) == capitalized(word),
        ascii_pascal_case(word) == ascii_capitalized(word),
        word.len() == 0 ==> pascal_case(word) == word,
        word.len() > 0 ==> pascal_case(word) == upper_case(word[0]) + lower_case(word.skip(1)),
{
    lemma_split_whole(word, '_');
    reveal_with_fuel(all_capitalized, 2);
    reveal_with_fuel(all_ascii_capitalized, 2);
    let words = seq![word];
    assert(words.drop_last() =~= Seq::empty());
    assert(all_capitalized(words) == Seq::<char>::empty() + capitalized(word));
    assert(all_ascii_capitalized(words) == Seq::<char>::empty() + ascii_capitalized(word));
    assert(Seq::<char>::empty() + capitalized(word) =~= capitalized(word));
    assert(Seq::<char>::empty() + ascii_capitalized(word) =~= ascii_capitalized(word));
}

/// Underscores at the start, at the end and next to each other vanish, in any name.
pub proof fn law_pascal_case_extra_underscores(a: Seq<char>, b: Seq<char>)
    ensures
        pascal_case(seq!['_'] + b) == pascal_case(b),
        pascal_case(a.push('_')) == pascal_case(a),
        pascal_case(a.push('_').push('_') + b) == pascal_case(a.push('_') + b),
{
    let nothing = Seq::<char>::empty();
    law_pascal_case_word(nothing);
    law_pascal_case_joined(nothing, b);
    assert(nothing.push('_') + b =~= seq!['_'] + b);
    assert(pascal_case(nothing) + pascal_case(b) =~= pascal_case(b));
    law_pascal_case_joined(a, nothing);
    assert(a.push('_') + nothing =~= a.push('_'));
    assert(pascal_case(a) + pascal_case(nothing) =~= pascal_case(a));
    law_pascal_case_joined(a.push('_'), b);
    law_pascal_case_joined(a, b);
}

/// No underscore of a name is kept: the words hold none, and the result has one only where the
/// upper case of a word's first character or the lower case of its rest does.
pub proof fn law_pascal_case_drops_underscores(s: Seq<char>)
    ensures
        forall|w: int|
            0 <= w < split_at_each(s, '_').len() ==> !(#[trigger] split_at_each(s, '_')[w]).contains(
                '_',
            ),
        pascal_case(s).contains('_') ==> exists|w: int|
            0 <= w < split_at_each(s, '_').len() && {
                let word = #[trigger] split_at_each(s, '_')[w];
                word.len() > 0 && (upper_case(word[0]).contains('_') || lower_case(
                    word.skip(1),
                ).contains('_'))
            },
{
    let words = split_at_each(s, '_');
    assert forall|w: int| 0 <= w < words.len() implies !(#[trigger] words[w]).contains('_') by {
        if words[w].contains('_') {
            let i = choose|i: int| 0 <= i < words[w].len() && words[w][i] == '_';
            law_parts_without_separator(s, '_', w, i);
        }
    }
    if pascal_case(s).contains('_') {
        lemma_underscore_of_word(words);
    }
}

/// An underscore in capitalized words is in the upper or the lower case of one of them.
proof fn lemma_underscore_of_word(words: Seq<Seq<char>>)
    requires
        all_capitalized(words).contains('_'),
    ensures
        exists|w: int|
            0 <= w < words.len() && {
                let word = #[trigger] words[w];
                word.len() > 0 && (upper_case(word[0]).contains('_') || lower_case(
                    word.skip(1),
                ).contains('_'))
            },
    decreases words.len(),
{
    let init = words.drop_last();
    let (before, word) = (all_capitalized(init), words.last());
    let all = all_capitalized(words);
    let at = choose|i: int| 0 <= i < all.len() && all[i] == '_';
    if at < before.len() {
        assert(before[at] == '_');
        lemma_underscore_of_word(init);
        let w = choose|w: int|
            0 <= w < init.len() && {
                let word = #[trigger] init[w];
                word.len() > 0 && (upper_case(word[0]).contains('_') || lower_case(
                    word.skip(1),
                ).contains('_'))
            };
        assert(words[w] == init[w]);
    } else {
        let first = upper_case(word[0]);
        let i = at - before.len();
        if i < first.len() {
            assert(first[i] == '_');
        } else {
            assert(lower_case(word.skip(1))[i - first.len()] == '_');
        }
        assert(words[words.len() - 1] == word);
    }
}

/// An ASCII name keeps no underscore, wherever it stands and however often.
pub proof fn law_pascal_case_without_underscore(s: Seq<char>)
    requires
        all_ascii(s),
    ensures
        !ascii_pascal_case(s).contains('_'),
{
    let words = split_at_each(s, '_');
    assert forall|w: int, i: int| 0 <= w < words.len() && 0 <= i < words[w].len() implies
        #[trigger] words[w][i] != '_' by {
        law_parts_without_separator(s, '_', w, i);
    }
    lemma_capitalized_without_underscore(words);
}

/// The same for words that hold none.
proof fn lemma_capitalized_without_underscore(words: Seq<Seq<char>>)
    requires
        forall|w: int, i: int|
            0 <= w < words.len() && 0 <= i < words[w].len() ==> #[trigger] words[w][i] != '_',
    ensures
        !all_ascii_capitalized(words).contains('_'),
    decreases words.len(),
{
    if words.len() > 0 {
        let init = words.drop_last();
        assert forall|w: int, i: int| 0 <= w < init.len() && 0 <= i < init[w].len() implies
            #[trigger] init[w][i] != '_' by {
            assert(words[w][i] != '_');
        }
        lemma_capitalized_without_underscore(init);
        let last = words.last();
        let out = ascii_capitalized(last);
        assert forall|i: int| 0 <= i < out.len() implies out[i] != '_' by {
            assert(words[words.len() - 1][i] != '_');
            if i > 0 {
                assert(out[i] == ascii_lower(last[i]));
            } else {
                assert(out[i] == ascii_upper(last[0]));
            }
        }
        let all = all_ascii_capitalized(words);
        let before = all_ascii_capitalized(init);
        assert(all == before + out);
        assert forall|i: int| 0 <= i < all.len() implies all[i] != '_' by {
            if i < before.len() {
                assert(before.contains(before[i]));
            } else {
                assert(all[i] == out[i - before.len()]);
            }
        }
    }
}

// What is generated.

/// A struct that wraps a worker of the given function.
#[derive(Debug)]
pub struct WorkerPlan {
    pub struct_name: String,
    pub fn_name: String,
    pub data_type: String,
    pub return_type: String,
    pub queue: String,
    pub concurrency: usize,
    /// As the attribute gives it. It has no effect on the generated worker: how often a job is
    /// tried stands in the job's own options.
    pub retry: u32,
    pub lock_duration: u64,
    pub backoff: Option<BackoffStrategy>,
    pub limiter: Option<Limiter>,
}

/// A plan with its texts as character sequences.
#[verifier::ext_equal]
pub struct WorkerPlanView {
    pub struct_name: Seq<char>,
    pub fn_name: Seq<char>,
    pub data_type: Seq<char>,
    pub return_type: Seq<char>,
    pub queue: Seq<char>,
    pub concurrency: nat,
    pub retry: u32,
    pub lock_duration: u64,
    pub backoff: Option<BackoffStrategy>,
    pub limiter: Option<Limiter>,
}

impl View for WorkerPlan {
    type V = WorkerPlanView;

    open spec fn view(&self) -> WorkerPlanView {
        WorkerPlanView {
            struct_name: self.struct_name@,
            fn_name: self.fn_name@,
            data_type: self.data_type@,
            return_type: self.return_type@,
            queue: self.queue@,
            concurrency: self.concurrency as nat,
            retry: self.retry,
            lock_duration: self.lock_duration,
            backoff: self.backoff,
            limiter: self.limiter,
        }
    }
}

/// What the attribute makes of a function: the struct is named after the function, and the
/// worker has the options. An unsuitable argument is reported before an unsuitable return type.
pub open spec fn plan_for(opts: WorkerOptsView, func: SignatureShape) -> Result<
    WorkerPlanView,
    ShapeErrorView,
> {
    match (job_data_type(func), result_type(func)) {
        (Err(e), _) => Err(e),
        (Ok(_), Err(e)) => Err(e),
        (Ok(data_type), Ok(return_type)) => Ok(
            WorkerPlanView {
                struct_name: pascal_case(func.name@) + "Worker"@,
                fn_name: func.name@,
                data_type,
                return_type,
                queue: opts.queue,
                concurrency: opts.concurrency as nat,
                retry: opts.retry,
                lock_duration: opts.lock_duration,
                backoff: opts.backoff,
                limiter: opts.limiter,
            },
        ),
    }
}

/// A plan or an error, as views.
pub open spec fn plan_result(r: Result<WorkerPlan, ShapeError>) -> Result<
    WorkerPlanView,
    ShapeErrorView,
> {
    match r {
        Ok(plan) => Ok(plan@),
        Err(e) => Err(e@),
    }
}

/// Plans what is generated for a function.
pub fn generate_worker(opts: &WorkerOpts, func: &SignatureShape) -> (r: Result<
    WorkerPlan,
    ShapeError,
>)
    ensures
        plan_result(r) == plan_for(opts@, *func),
        r matches Ok(plan) ==> all_ascii(func.name@) ==> plan.struct_name@ == ascii_pascal_case(
            func.name@,
        ) + "Worker"@,
{
    let data_type = match extract_job_data_type(func) {
        Ok(ty) => ty,
        Err(e) => return Err(e),
    };
    let return_type = match extract_return_type(func) {
        Ok(ty) => ty,
        Err(e) => return Err(e),
    };
    let mut struct_name = to_pascal_case(func.name.as_str());
    struct_name.append("Worker");
    Ok(
        WorkerPlan {
            struct_name,
            fn_name: func.name.clone(),
            data_type,
            return_type,
            queue: opts.queue.clone(),
            concurrency: opts.concurrency as usize,
            retry: opts.retry,
            lock_duration: opts.lock_duration,
            backoff: opts.backoff,
            limiter: opts.limiter,
        },
    )
}

// The documented forms of the option texts.

/// Digits are neither white space nor a comma nor a bracket.
proof fn lemma_decimal_plain(n: nat)
    ensures
        decimal(n).len() > 0,
        trimmed(decimal(n)) == decimal(n),
        trimmed(seq![' '] + decimal(n)) == decimal(n),
        forall|i: int| 0 <= i < decimal(n).len() ==> #[trigger] decimal(n)[i] != ',',
{
    lemma_decimal_digits(n);
    let s = decimal(n);
    assert(is_digit(s[0]));
    assert(is_digit(s[s.len() - 1]));
    let t = seq![' '] + s;
    assert(t.skip(1) =~= s);
    reveal_with_fuel(crate::text::trimmed_front, 2);
    assert forall|i: int| 0 <= i < s.len() implies #[trigger] s[i] != ',' by {
        assert(is_digit(s[i]));
    }
}

/// `fixed(<ms>)` means a fixed backoff, for every number of milliseconds.
pub proof fn law_fixed_backoff_text(ms: u64)
    ensures
        backoff_of("fixed("@ + decimal(ms as nat) + ")"@) == Ok::<BackoffStrategy, Seq<char>>(
            BackoffStrategy::Fixed(ms),
        ),
{
    reveal_strlit("fixed(");
    reveal_strlit(")");
    let n = decimal(ms as nat);
    let s = "fixed("@ + n + ")"@;
    assert(s[0] == 'f');
    assert(s.last() == ')');
    assert(trimmed(s) == s);
    assert("fixed("@ =~= s.subrange(0, 6));
    assert(is_enclosed(s, "fixed("@, ')'));
    assert(argument_text(s, "fixed("@) =~= n);
    lemma_decimal_plain(ms as nat);
    law_decimal_reads_back(ms as nat, u64::MAX as nat);
}

/// `exponential(<base>, <max>)` means an exponential backoff, for every base and maximum.
pub proof fn law_exponential_backoff_text(base: u64, max: u64)
    ensures
        backoff_of(
            "exponential("@ + decimal(base as nat) + ", "@ + decimal(max as nat) + ")"@,
        ) == Ok::<BackoffStrategy, Seq<char>>(BackoffStrategy::Exponential { base, max }),
{
    reveal_strlit("fixed(");
    reveal_strlit("exponential(");
    reveal_strlit(", ");
    reveal_strlit(")");
    let a = decimal(base as nat);
    let b = decimal(max as nat);
    let s = "exponential("@ + a + ", "@ + b + ")"@;
    assert(s[0] == 'e');
    assert("fixed("@[0] == 'f');
    assert(s.last() == ')');
    assert(trimmed(s) == s);
    assert("exponential("@ =~= s.subrange(0, 12));
    assert(is_enclosed(s, "exponential("@, ')'));
    assert(!is_enclosed(s, "fixed("@, ')'));
    let spaced = seq![' '] + b;
    assert(argument_text(s, "exponential("@) =~= a.push(',') + spaced);
    lemma_pair_of_numbers(base as nat, max as nat);
    law_decimal_reads_back(base as nat, u64::MAX as nat);
    law_decimal_reads_back(max as nat, u64::MAX as nat);
}

/// `<max>, <duration>` means a limiter, for every maximum and duration.
pub proof fn law_limiter_text(max: u32, duration: u64)
    ensures
        limiter_of(decimal(max as nat) + ", "@ + decimal(duration as nat)) == Ok::<
            Limiter,
            Seq<char>,
        >(Limiter { max, duration }),
{
    reveal_strlit(", ");
    let a = decimal(max as nat);
    let b = decimal(duration as nat);
    assert(a + ", "@ + b =~= a.push(',') + (seq![' '] + b));
    lemma_pair_of_numbers(max as nat, duration as nat);
    law_decimal_reads_back(max as nat, u32::MAX as nat);
    law_decimal_reads_back(duration as nat, u64::MAX as nat);
}

/// Two numbers with a comma and a space between them split into the two.
proof fn lemma_pair_of_numbers(a: nat, b: nat)
    ensures
        split_at_each(decimal(a).push(',') + (seq![' '] + decimal(b)), ',') == seq![
            decimal(a),
            seq![' '] + decimal(b),
        ],
        trimmed(decimal(a)) == decimal(a),
        trimmed(seq![' '] + decimal(b)) == decimal(b),
{
    lemma_decimal_plain(a);
    lemma_decimal_plain(b);
    let spaced = seq![' '] + decimal(b);
    assert forall|i: int| 0 <= i < spaced.len() implies #[trigger] spaced[i] != ',' by {
        if i > 0 {
            assert(spaced[i] == decimal(b)[i - 1]);
        }
    }
    lemma_split_pair(decimal(a), spaced, ',');
}

// The order of the options.

/// The options, by which of them is set.
enum OptionTag {
    Queue,
    Concurrency,
    Retry,
    Backoff,
    LockDuration,
    Limiter,
    Unknown,
}

/// The option with a name.
spec fn option_tag(name: Seq<char>) -> OptionTag {
    if name == "queue"@ {
        OptionTag::Queue
    } else if name == "concurrency"@ {
        OptionTag::Concurrency
    } else if name == "retry"@ {
        OptionTag::Retry
    } else if name == "backoff"@ {
        OptionTag::Backoff
    } else if name == "lock_duration"@ {
        OptionTag::LockDuration
    } else if name == "limiter"@ {
        OptionTag::Limiter
    } else {
        OptionTag::Unknown
    }
}

/// One option: its name and its value.
#[verifier::ext_equal]
pub struct NamedOption {
    pub name: Seq<char>,
    pub value: OptTokenView,
}

/// Whether tokens are a list of options, `name = value` with commas between them and perhaps one
/// at the end.
pub open spec fn is_option_list(tokens: Seq<OptTokenView>, options: Seq<NamedOption>) -> bool {
    &&& options.len() == 0 ==> tokens.len() == 0
    &&& options.len() > 0 ==> tokens.len() == 4 * options.len() - 1 || tokens.len() == 4
        * options.len()
    &&& forall|i: int|
        0 <= i < options.len() ==> {
            &&& tokens[4 * i] == OptTokenView::Ident(#[trigger] options[i].name)
            &&& tokens[4 * i + 1] is Eq
            &&& tokens[4 * i + 2] == options[i].value
            &&& 4 * i + 3 < tokens.len() ==> tokens[4 * i + 3] is Comma
        }
}

/// Whether no two options have the same name.
pub open spec fn names_distinct(options: Seq<NamedOption>) -> bool {
    forall|i: int, j: int|
        0 <= i < j < options.len() ==> (#[trigger] options[i]).name != (#[trigger] options[j]).name
}

/// Whether every option of the one list is in the other.
pub open spec fn options_within(a: Seq<NamedOption>, b: Seq<NamedOption>) -> bool {
    forall|i: int| 0 <= i < a.len() ==> b.contains(#[trigger] a[i])
}

/// The value of an option, by itself.
spec fn value_alone(option: NamedOption, opts: OptsView) -> Result<OptsView, OptErrorView> {
    option_set(
        seq![OptTokenView::Ident(option.name), OptTokenView::Eq, option.value],
        0,
        option.name,
        opts,
    )
}

/// Whether two option sets agree in one option.
spec fn agree_in(tag: OptionTag, a: OptsView, b: OptsView) -> bool {
    match tag {
        OptionTag::Queue => a.queue == b.queue,
        OptionTag::Concurrency => a.concurrency == b.concurrency,
        OptionTag::Retry => a.retry == b.retry,
        OptionTag::Backoff => a.backoff == b.backoff,
        OptionTag::LockDuration => a.lock_duration == b.lock_duration,
        OptionTag::Limiter => a.limiter == b.limiter,
        OptionTag::Unknown => true,
    }
}

/// `a` with one option as in `b`.
spec fn taking(tag: OptionTag, a: OptsView, b: OptsView) -> OptsView {
    match tag {
        OptionTag::Queue => OptsView { queue: b.queue, ..a },
        OptionTag::Concurrency => OptsView { concurrency: b.concurrency, ..a },
        OptionTag::Retry => OptsView { retry: b.retry, ..a },
        OptionTag::Backoff => OptsView { backoff: b.backoff, ..a },
        OptionTag::LockDuration => OptsView { lock_duration: b.lock_duration, ..a },
        OptionTag::Limiter => OptsView { limiter: b.limiter, ..a },
        OptionTag::Unknown => a,
    }
}

/// Whether an option is valid and `result` has its value.
spec fn has_value(option: NamedOption, result: OptsView) -> bool {
    value_alone(option, result) == Ok::<OptsView, OptErrorView>(result)
}

/// Reading one option, in terms of the option alone: it fails or sets that option and no other.
proof fn lemma_option_set(
    tokens: Seq<OptTokenView>,
    at: nat,
    option: NamedOption,
    before: OptsView,
    result: OptsView,
)
    requires
        at + 2 < tokens.len(),
        tokens[(at + 2) as int] == option.value,
    ensures
        option_set(tokens, at, option.name, before) is Ok <==> value_alone(option, result) is Ok,
        option_set(tokens, at, option.name, before) matches Ok(next) ==> {
            let tag = option_tag(option.name);
            &&& has_value(option, result) <==> agree_in(tag, next, result)
            &&& next == taking(tag, before, next)
        },
{
}

/// Whether an option of the list from `from` on has a tag.
spec fn named_from(options: Seq<NamedOption>, from: nat, tag: OptionTag) -> bool {
    exists|i: int| from <= i < options.len() && option_tag((#[trigger] options[i]).name) == tag
}

/// Reading a list from an option on succeeds with a result exactly if that result has the value
/// of each of those options and is as before in all others.
proof fn lemma_options_from(
    tokens: Seq<OptTokenView>,
    options: Seq<NamedOption>,
    from: nat,
    before: OptsView,
    result: OptsView,
)
    requires
        is_option_list(tokens, options),
        names_distinct(options),
        from <= options.len(),
    ensures
        options_from(tokens, 4 * from, before) == Ok::<OptsView, OptErrorView>(result) <==> {
            &&& forall|i: int|
                from <= i < options.len() ==> has_value(#[trigger] options[i], result)
            &&& forall|tag: OptionTag|
                !named_from(options, from, tag) ==> #[trigger] agree_in(tag, before, result)
        },
    decreases options.len() - from,
{
    if from == options.len() {
        assert(options_from(tokens, 4 * from, before) == Ok::<OptsView, OptErrorView>(before));
        if forall|tag: OptionTag|
            !named_from(options, from, tag) ==> #[trigger] agree_in(tag, before, result) {
            assert(agree_in(OptionTag::Queue, before, result));
            assert(agree_in(OptionTag::Concurrency, before, result));
            assert(agree_in(OptionTag::Retry, before, result));
            assert(agree_in(OptionTag::Backoff, before, result));
            assert(agree_in(OptionTag::LockDuration, before, result));
            assert(agree_in(OptionTag::Limiter, before, result));
        }
    } else {
        let option = options[from as int];
        let tag = option_tag(option.name);
        let read = option_set(tokens, 4 * from, option.name, before);
        assert(tokens[4 * from as int] == OptTokenView::Ident(options[from as int].name));
        lemma_option_set(tokens, 4 * from, option, before, result);
        assert(named_from(options, from, tag));
        assert forall|t: OptionTag| named_from(options, from, t) implies t == tag
            || named_from(options, from + 1, t) by {
            let i = choose|i: int|
                from <= i < options.len() && option_tag((#[trigger] options[i]).name) == t;
            if i > from {
                assert(from + 1 <= i && option_tag(options[i].name) == t);
            }
        }
        assert forall|t: OptionTag| named_from(options, from + 1, t) implies named_from(
            options,
            from,
            t,
        ) by {
            let i = choose|i: int|
                from + 1 <= i < options.len() && option_tag((#[trigger] options[i]).name) == t;
            assert(from <= i && option_tag(options[i].name) == t);
        }
        if let Ok(next) = read {
            if tag != OptionTag::Unknown && named_from(options, from + 1, tag) {
                let i = choose|i: int|
                    from + 1 <= i < options.len() && option_tag((#[trigger] options[i]).name)
                        == tag;
                assert(options[from as int].name != options[i].name);
                assert(false);
            }
            lemma_options_from(tokens, options, from + 1, next, result);
            lemma_list_step(tokens, options, from, before, next);
            lemma_agreement_step(options, from, before, next, result);
        } else {
            assert(!has_value(options[from as int], result));
        }
    }
}

/// One step of reading a list.
proof fn lemma_list_step(
    tokens: Seq<OptTokenView>,
    options: Seq<NamedOption>,
    from: nat,
    before: OptsView,
    next: OptsView,
)
    requires
        is_option_list(tokens, options),
        from < options.len(),
        option_set(tokens, 4 * from, options[from as int].name, before) == Ok::<
            OptsView,
            OptErrorView,
        >(next),
    ensures
        options_from(tokens, 4 * from, before) == options_from(tokens, 4 * (from + 1), next),
{
    let i = from as int;
    assert(tokens[4 * i] == OptTokenView::Ident(options[i].name));
}

/// One step of comparing a result with the options.
proof fn lemma_agreement_step(
    options: Seq<NamedOption>,
    from: nat,
    before: OptsView,
    next: OptsView,
    result: OptsView,
)
    requires
        from < options.len(),
        ({
            let tag = option_tag(options[from as int].name);
            &&& next == taking(tag, before, next)
            &&& has_value(options[from as int], result) <==> agree_in(tag, next, result)
            &&& tag == OptionTag::Unknown || !named_from(options, from + 1, tag)
            &&& named_from(options, from, tag)
            &&& forall|t: OptionTag|
                named_from(options, from, t) <==> t == tag || named_from(
                    options,
                    from + 1,
                    t,
                )
        }),
    ensures
        ({
            &&& forall|i: int|
                from <= i < options.len() ==> has_value(#[trigger] options[i], result)
            &&& forall|t: OptionTag|
                !named_from(options, from, t) ==> #[trigger] agree_in(t, before, result)
        }) <==> ({
            &&& forall|i: int|
                from + 1 <= i < options.len() ==> has_value(#[trigger] options[i], result)
            &&& forall|t: OptionTag|
                !named_from(options, from + 1, t) ==> #[trigger] agree_in(t, next, result)
        }),
{
    let tag = option_tag(options[from as int].name);
    if forall|t: OptionTag|
        !named_from(options, from, t) ==> #[trigger] agree_in(t, before, result) {
        if has_value(options[from as int], result) {
            assert forall|t: OptionTag| !named_from(options, from + 1, t) implies
                #[trigger] agree_in(t, next, result) by {
                if t != tag {
                    assert(agree_in(t, before, result));
                }
            }
        }
    }
    if forall|t: OptionTag|
        !named_from(options, from + 1, t) ==> #[trigger] agree_in(t, next, result) {
        assert(agree_in(tag, next, result));
        assert forall|t: OptionTag| !named_from(options, from, t) implies
            #[trigger] agree_in(t, before, result) by {
            assert(agree_in(t, next, result));
        }
    }
}

/// The order of the options does not matter, and neither does a comma at the end: two lists of
/// the same options, none of them given twice, mean the same or are both refused.
pub proof fn law_option_order(
    tokens: Seq<OptTokenView>,
    options: Seq<NamedOption>,
    other_tokens: Seq<OptTokenView>,
    other_options: Seq<NamedOption>,
)
    requires
        is_option_list(tokens, options),
        is_option_list(other_tokens, other_options),
        names_distinct(options),
        names_distinct(other_options),
        options_within(options, other_options),
        options_within(other_options, options),
    ensures
        worker_opts_of(tokens) is Ok <==> worker_opts_of(other_tokens) is Ok,
        worker_opts_of(tokens) is Ok ==> worker_opts_of(tokens) == worker_opts_of(other_tokens),
{
    lemma_order_one_way(tokens, options, other_tokens, other_options);
    lemma_order_one_way(other_tokens, other_options, tokens, options);
}

/// What the one list means, the other means too.
proof fn lemma_order_one_way(
    tokens: Seq<OptTokenView>,
    options: Seq<NamedOption>,
    other_tokens: Seq<OptTokenView>,
    other_options: Seq<NamedOption>,
)
    requires
        is_option_list(tokens, options),
        is_option_list(other_tokens, other_options),
        names_distinct(options),
        names_distinct(other_options),
        options_within(options, other_options),
        options_within(other_options, options),
    ensures
        options_from(tokens, 0, OptsView::none()) is Ok ==> options_from(
            tokens,
            0,
            OptsView::none(),
        ) == options_from(other_tokens, 0, OptsView::none()),
{
    if let Ok(result) = options_from(tokens, 0, OptsView::none()) {
        lemma_options_from(tokens, options, 0, OptsView::none(), result);
        assert forall|i: int| 0 <= i < other_options.len() implies has_value(
            #[trigger] other_options[i],
            result,
        ) by {
            let j = choose|j: int| 0 <= j < options.len() && options[j] == other_options[i];
            assert(has_value(options[j], result));
        }
        assert forall|tag: OptionTag| !named_from(other_options, 0, tag) implies
            #[trigger] agree_in(tag, OptsView::none(), result) by {
            if named_from(options, 0, tag) {
                let i = choose|i: int|
                    0 <= i < options.len() && option_tag((#[trigger] options[i]).name) == tag;
                assert(other_options.contains(options[i]));
                let j = choose|j: int|
                    0 <= j < other_options.len() && other_options[j] == options[i];
                assert(option_tag(other_options[j].name) == tag);
            }
        }
        lemma_options_from(other_tokens, other_options, 0, OptsView::none(), result);
    }
}

// What the attribute's arguments and the function come to, from what is written to what is made.

/// The names of the options are all different.
proof fn lemma_option_names_differ()
    ensures
        "queue"@.len() == 5 && "queue"@[0] == 'q',
        "retry"@.len() == 5 && "retry"@[0] == 'r',
        "backoff"@.len() == 7 && "backoff"@[0] == 'b',
        "limiter"@.len() == 7 && "limiter"@[0] == 'l',
        "concurrency"@.len() == 11,
        "lock_duration"@.len() == 13,
{
    reveal_strlit("queue");
    reveal_strlit("retry");
    reveal_strlit("backoff");
    reveal_strlit("limiter");
    reveal_strlit("concurrency");
    reveal_strlit("lock_duration");
}

/// Whether an option is one that the attribute knows, with a value that it takes.
pub open spec fn is_valid_option(option: NamedOption) -> bool {
    ||| (option.name == "queue"@ && option.value is Str)
    ||| (option.name == "concurrency"@ && option.value is Int && as_unsigned(
        option.value->Int_0,
        u32::MAX as nat,
    ) is Ok)
    ||| (option.name == "retry"@ && option.value is Int && as_unsigned(
        option.value->Int_0,
        u32::MAX as nat,
    ) is Ok)
    ||| (option.name == "backoff"@ && option.value is Str && backoff_of(option.value->Str_0) is Ok)
    ||| (option.name == "lock_duration"@ && option.value is Int && as_unsigned(
        option.value->Int_0,
        u64::MAX as nat,
    ) is Ok)
    ||| (option.name == "limiter"@ && option.value is Str && limiter_of(option.value->Str_0) is Ok)
}

/// Whether options have the value that is written for one of them.
pub open spec fn has_written_value(option: NamedOption, opts: WorkerOptsView) -> bool {
    &&& option.name == "queue"@ ==> option.value == OptTokenView::Str(opts.queue)
    &&& option.name == "concurrency"@ ==> option.value is Int && as_unsigned(
        option.value->Int_0,
        u32::MAX as nat,
    ) == Ok::<nat, IntError>(opts.concurrency as nat)
    &&& option.name == "retry"@ ==> option.value is Int && as_unsigned(
        option.value->Int_0,
        u32::MAX as nat,
    ) == Ok::<nat, IntError>(opts.retry as nat)
    &&& option.name == "backoff"@ ==> option.value is Str && opts.backoff is Some && backoff_of(
        option.value->Str_0,
    ) == Ok::<BackoffStrategy, Seq<char>>(opts.backoff->0)
    &&& option.name == "lock_duration"@ ==> option.value is Int && as_unsigned(
        option.value->Int_0,
        u64::MAX as nat,
    ) == Ok::<nat, IntError>(opts.lock_duration as nat)
    &&& option.name == "limiter"@ ==> option.value is Str && opts.limiter is Some && limiter_of(
        option.value->Str_0,
    ) == Ok::<Limiter, Seq<char>>(opts.limiter->0)
}

/// Whether an option is given from a place on.
pub open spec fn is_given_from(options: Seq<NamedOption>, from: int, name: Seq<char>) -> bool {
    exists|i: int| from <= i < options.len() && (#[trigger] options[i]).name == name
}

/// The same for options that are not complete yet.
spec fn has_read_value(option: NamedOption, opts: OptsView) -> bool {
    &&& option.name == "queue"@ ==> opts.queue is Some && option.value == OptTokenView::Str(
        opts.queue->0,
    )
    &&& option.name == "concurrency"@ ==> opts.concurrency is Some && option.value is Int
        && as_unsigned(option.value->Int_0, u32::MAX as nat) == Ok::<nat, IntError>(
        opts.concurrency->0 as nat,
    )
    &&& option.name == "retry"@ ==> opts.retry is Some && option.value is Int && as_unsigned(
        option.value->Int_0,
        u32::MAX as nat,
    ) == Ok::<nat, IntError>(opts.retry->0 as nat)
    &&& option.name == "backoff"@ ==> option.value is Str && opts.backoff is Some && backoff_of(
        option.value->Str_0,
    ) == Ok::<BackoffStrategy, Seq<char>>(opts.backoff->0)
    &&& option.name == "lock_duration"@ ==> opts.lock_duration is Some && option.value is Int
        && as_unsigned(option.value->Int_0, u64::MAX as nat) == Ok::<nat, IntError>(
        opts.lock_duration->0 as nat,
    )
    &&& option.name == "limiter"@ ==> option.value is Str && opts.limiter is Some && limiter_of(
        option.value->Str_0,
    ) == Ok::<Limiter, Seq<char>>(opts.limiter->0)
}

/// Whether options are as before, but for some that are given.
spec fn same_but_given(
    options: Seq<NamedOption>,
    from: int,
    before: OptsView,
    after: OptsView,
) -> bool {
    &&& !is_given_from(options, from, "queue"@) ==> after.queue == before.queue
    &&& !is_given_from(options, from, "concurrency"@) ==> after.concurrency == before.concurrency
    &&& !is_given_from(options, from, "retry"@) ==> after.retry == before.retry
    &&& !is_given_from(options, from, "backoff"@) ==> after.backoff == before.backoff
    &&& !is_given_from(options, from, "lock_duration"@) ==> after.lock_duration
        == before.lock_duration
    &&& !is_given_from(options, from, "limiter"@) ==> after.limiter == before.limiter
}

/// A value within a bound is below it.
proof fn lemma_unsigned_bound(s: Seq<char>, max: nat)
    ensures
        as_unsigned(s, max) matches Ok(n) ==> n <= max,
{
}

/// One option is read, and set, exactly if it is valid.
proof fn lemma_option_read(
    tokens: Seq<OptTokenView>,
    at: nat,
    option: NamedOption,
    before: OptsView,
)
    requires
        at + 2 < tokens.len(),
        tokens[(at + 2) as int] == option.value,
    ensures
        option_set(tokens, at, option.name, before) is Ok <==> is_valid_option(option),
        option_set(tokens, at, option.name, before) matches Ok(next) ==> {
            &&& has_read_value(option, next)
            &&& option.name != "queue"@ ==> next.queue == before.queue
            &&& option.name != "concurrency"@ ==> next.concurrency == before.concurrency
            &&& option.name != "retry"@ ==> next.retry == before.retry
            &&& option.name != "backoff"@ ==> next.backoff == before.backoff
            &&& option.name != "lock_duration"@ ==> next.lock_duration == before.lock_duration
            &&& option.name != "limiter"@ ==> next.limiter == before.limiter
        },
{
    lemma_option_names_differ();
    if option.value is Int {
        lemma_unsigned_bound(option.value->Int_0, u32::MAX as nat);
        lemma_unsigned_bound(option.value->Int_0, u64::MAX as nat);
    }
}

/// A list of options is read exactly if all of them are valid; each option then has the last
/// value that is given for it, and those that are not given are as before.
proof fn lemma_list_read(
    tokens: Seq<OptTokenView>,
    options: Seq<NamedOption>,
    from: nat,
    before: OptsView,
)
    requires
        is_option_list(tokens, options),
        from <= options.len(),
    ensures
        options_from(tokens, 4 * from, before) is Ok <==> (forall|i: int|
            from <= i < options.len() ==> is_valid_option(#[trigger] options[i])),
        options_from(tokens, 4 * from, before) matches Ok(result) ==> {
            &&& same_but_given(options, from as int, before, result)
            &&& forall|i: int|
                from <= i < options.len() && !is_given_from(
                    options,
                    i + 1,
                    options[i].name,
                ) ==> has_read_value(#[trigger] options[i], result)
        },
    decreases options.len() - from,
{
    if from < options.len() {
        let option = options[from as int];
        assert(tokens[4 * from as int] == OptTokenView::Ident(options[from as int].name));
        lemma_option_read(tokens, 4 * from, option, before);
        match option_set(tokens, 4 * from, option.name, before) {
            Ok(next) => {
                lemma_list_read(tokens, options, from + 1, next);
                lemma_list_step(tokens, options, from, before, next);
                lemma_given_step(options, from as int);
            },
            Err(_) => {
                assert(!is_valid_option(options[from as int]));
            },
        }
    } else {
        assert(4 * from >= tokens.len());
    }
}

/// What is given from a place on is given there or further on.
proof fn lemma_given_step(options: Seq<NamedOption>, from: int)
    requires
        0 <= from < options.len(),
    ensures
        forall|name: Seq<char>| #[trigger]
            is_given_from(options, from, name) <==> options[from].name == name || is_given_from(
                options,
                from + 1,
                name,
            ),
{
    assert forall|name: Seq<char>| #[trigger]
        is_given_from(options, from, name) <==> options[from].name == name || is_given_from(
            options,
            from + 1,
            name,
        ) by {
        if is_given_from(options, from, name) {
            let i = choose|i: int| from <= i < options.len() && (#[trigger] options[i]).name == name;
            if i > from {
                assert(from + 1 <= i && options[i].name == name);
            }
        }
        if is_given_from(options, from + 1, name) {
            let i = choose|i: int|
                from + 1 <= i < options.len() && (#[trigger] options[i]).name == name;
            assert(from <= i && options[i].name == name);
        }
    }
}

/// A list of options is accepted exactly if every option is a known one with a value that it
/// takes, and the queue is among them.
pub proof fn law_options_accepted(
    tokens: Vec<OptToken>,
    options: Seq<NamedOption>,
    r: Result<WorkerOpts, OptError>,
)
    requires
        call_ensures(WorkerOpts::parse, (&tokens,), r),
        is_option_list(token_views(tokens@), options),
    ensures
        r is Ok <==> is_given_from(options, 0, "queue"@) && forall|i: int|
            0 <= i < options.len() ==> is_valid_option(#[trigger] options[i]),
{
    lemma_option_names_differ();
    let views = token_views(tokens@);
    lemma_list_read(views, options, 0, OptsView::none());
    if let Ok(result) = options_from(views, 0, OptsView::none()) {
        if is_given_from(options, 0, "queue"@) {
            lemma_last_given(options, 0, "queue"@);
        }
    }
}

/// Of the times that an option is given, one is the last.
proof fn lemma_last_given(options: Seq<NamedOption>, from: int, name: Seq<char>)
    requires
        0 <= from <= options.len(),
        is_given_from(options, from, name),
    ensures
        exists|i: int|
            from <= i < options.len() && (#[trigger] options[i]).name == name && !is_given_from(
                options,
                i + 1,
                name,
            ),
    decreases options.len() - from,
{
    if from < options.len() {
        lemma_given_step(options, from);
        if is_given_from(options, from + 1, name) {
            lemma_last_given(options, from + 1, name);
            let i = choose|i: int|
                from + 1 <= i < options.len() && (#[trigger] options[i]).name == name
                    && !is_given_from(options, i + 1, name);
            assert(from <= i && options[i].name == name);
        } else {
            assert(options[from].name == name);
        }
    }
}

/// The options of a worker are those that are written: each has the value that is written for it,
/// the last one where there are several, and one that is not written has its default: one task at
/// a time, no retries, no backoff, a lock of half a minute, and no limit.
pub proof fn law_options_have_written_values(
    tokens: Vec<OptToken>,
    options: Seq<NamedOption>,
    opts: WorkerOpts,
)
    requires
        call_ensures(WorkerOpts::parse, (&tokens,), Ok::<WorkerOpts, OptError>(opts)),
        is_option_list(token_views(tokens@), options),
    ensures
        forall|i: int|
            0 <= i < options.len() && !is_given_from(options, i + 1, options[i].name)
                ==> has_written_value(#[trigger] options[i], opts@),
        !is_given_from(options, 0, "concurrency"@) ==> opts.concurrency == 1,
        !is_given_from(options, 0, "retry"@) ==> opts.retry == 0,
        !is_given_from(options, 0, "backoff"@) ==> opts.backoff is None,
        !is_given_from(options, 0, "lock_duration"@) ==> opts.lock_duration == 30_000,
        !is_given_from(options, 0, "limiter"@) ==> opts.limiter is None,
{
    let views = token_views(tokens@);
    lemma_list_read(views, options, 0, OptsView::none());
    let read = options_from(views, 0, OptsView::none());
    assert(read is Ok);
    let result = read->Ok_0;
    assert(result.complete() == Ok::<WorkerOptsView, OptErrorView>(opts@));
    assert forall|i: int|
        0 <= i < options.len() && !is_given_from(options, i + 1, options[i].name) implies
        has_written_value(#[trigger] options[i], opts@) by {
        assert(has_read_value(options[i], result));
    }
}

/// Nothing but a list of options is accepted: `name = value`, with commas between them and perhaps
/// one at the end.
pub proof fn law_only_option_lists_accepted(tokens: Vec<OptToken>, opts: WorkerOpts) -> (options:
    Seq<NamedOption>)
    requires
        call_ensures(WorkerOpts::parse, (&tokens,), Ok::<WorkerOpts, OptError>(opts)),
    ensures
        is_option_list(token_views(tokens@), options),
{
    let views = token_views(tokens@);
    let options = Seq::new(
        ((views.len() + 1) / 4) as nat,
        |i: int|
            NamedOption { name: views[4 * i]->Ident_0, value: views[4 * i + 2] },
    );
    lemma_tokens_are_options(views, 0, OptsView::none());
    assert forall|i: int| 0 <= i < options.len() implies {
        &&& views[4 * i] == OptTokenView::Ident(#[trigger] options[i].name)
        &&& views[4 * i + 1] is Eq
        &&& views[4 * i + 2] == options[i].value
        &&& 4 * i + 3 < views.len() ==> views[4 * i + 3] is Comma
    } by {
        assert(is_option_at(views, 4 * i));
    }
    options
}

/// Whether an option stands at a place, followed by a comma if anything follows.
spec fn is_option_at(tokens: Seq<OptTokenView>, at: int) -> bool {
    &&& at + 2 < tokens.len()
    &&& tokens[at] is Ident
    &&& tokens[at + 1] is Eq
    &&& at + 3 < tokens.len() ==> tokens[at + 3] is Comma
}

/// Tokens that are read are options, one after the other.
proof fn lemma_tokens_are_options(tokens: Seq<OptTokenView>, at: nat, opts: OptsView)
    requires
        at % 4 == 0,
        at <= tokens.len(),
        options_from(tokens, at, opts) is Ok,
    ensures
        tokens.len() == at || tokens.len() % 4 == 3 || tokens.len() % 4 == 0,
        forall|i: int|
            at <= 4 * i && 4 * i < tokens.len() ==> #[trigger] is_option_at(tokens, 4 * i),
    decreases tokens.len() - at,
{
    if at < tokens.len() {
        let name = name_at(tokens, at)->Ok_0;
        lemma_value_there(tokens, at, name, opts);
        if at + 3 < tokens.len() {
            let next = option_set(tokens, at, name, opts)->Ok_0;
            lemma_tokens_are_options(tokens, at + 4, next);
        }
        assert(is_option_at(tokens, at as int));
        assert forall|i: int| at <= 4 * i && 4 * i < tokens.len() implies #[trigger] is_option_at(
            tokens,
            4 * i,
        ) by {
            if 4 * i >= at + 4 {
                assert(at + 3 < tokens.len());
            } else {
                assert(4 * i == at);
            }
        }
    }
}

/// An option is set only if its value is there.
proof fn lemma_value_there(tokens: Seq<OptTokenView>, at: nat, name: Seq<char>, opts: OptsView)
    requires
        option_set(tokens, at, name, opts) is Ok,
    ensures
        at + 2 < tokens.len(),
{
}

/// Whether a type is a path whose last segment has the given type as its first argument.
pub open spec fn has_type_argument(path: Seq<SegmentShape>, text: Seq<char>) -> bool {
    &&& path.len() > 0
    &&& path.last() matches SegmentShape::Generic(args)
    &&& args@.len() > 0
    &&& args@[0] matches GenericShape::Type(first)
    &&& first@ == text
}

/// Whether the first argument of a function is a reference to a type with the given argument.
pub open spec fn takes_job_of(func: SignatureShape, text: Seq<char>) -> bool {
    &&& func.inputs@.len() > 0
    &&& func.inputs@[0] matches ArgShape::Typed(TypeShape::Reference(elem))
    &&& *elem matches TypeShape::Path(path)
    &&& has_type_argument(path@, text)
}

/// Whether a function returns a type with the given argument.
pub open spec fn returns_result_of(func: SignatureShape, text: Seq<char>) -> bool {
    func.output matches Some(TypeShape::Path(path)) && has_type_argument(path@, text)
}

/// A function is accepted exactly if its first argument is a reference to a type with a type
/// argument and it returns such a type. Those are then the types of the job's data and of what is
/// returned, whatever further arguments there are.
pub proof fn law_types_of_function(
    func: SignatureShape,
    data: Result<String, ShapeError>,
    returned: Result<String, ShapeError>,
    text: Seq<char>,
)
    requires
        call_ensures(extract_job_data_type, (&func,), data),
        call_ensures(extract_return_type, (&func,), returned),
    ensures
        takes_job_of(func, text) <==> data is Ok && data->Ok_0@ == text,
        returns_result_of(func, text) <==> returned is Ok && returned->Ok_0@ == text,
        data is Err ==> data->Err_0.part == SignaturePart::Argument,
        returned is Err ==> returned->Err_0.part == SignaturePart::Return,
{
}

/// The planned worker is that of the function, with the settings that the options give: for every
/// value of them its queue, its concurrency, its lock duration, its backoff and its limit are
/// those of the options. There is a plan exactly if the function is suitable.
pub proof fn law_plan_has_given_settings(
    opts: WorkerOpts,
    func: SignatureShape,
    r: Result<WorkerPlan, ShapeError>,
    data: Seq<char>,
    returned: Seq<char>,
)
    requires
        call_ensures(generate_worker, (&opts, &func), r),
    ensures
        takes_job_of(func, data) && returns_result_of(func, returned) ==> r is Ok,
        r matches Ok(plan) ==> {
            &&& plan.queue@ == opts.queue@
            &&& plan.concurrency == opts.concurrency
            &&& plan.retry == opts.retry
            &&& plan.lock_duration == opts.lock_duration
            &&& plan.backoff == opts.backoff
            &&& plan.limiter == opts.limiter
            &&& plan.fn_name@ == func.name@
            &&& plan.struct_name@ == pascal_case(func.name@) + "Worker"@
            &&& takes_job_of(func, plan.data_type@)
            &&& returns_result_of(func, plan.return_type@)
        },
{
}

/// From the attribute to the worker: whatever options are written, the planned worker has the
/// values that are written for them, and the defaults for those that are not.
pub proof fn law_written_options_reach_plan(
    tokens: Vec<OptToken>,
    options: Seq<NamedOption>,
    opts: WorkerOpts,
    func: SignatureShape,
    plan: WorkerPlan,
    i: int,
)
    requires
        call_ensures(WorkerOpts::parse, (&tokens,), Ok::<WorkerOpts, OptError>(opts)),
        is_option_list(token_views(tokens@), options),
        call_ensures(generate_worker, (&opts, &func), Ok::<WorkerPlan, ShapeError>(plan)),
        0 <= i < options.len(),
        !is_given_from(options, i + 1, options[i].name),
    ensures
        ({
            let (name, value) = (options[i].name, options[i].value);
            &&& name == "queue"@ ==> value == OptTokenView::Str(plan.queue@)
            &&& name == "concurrency"@ ==> value is Int && as_unsigned(
                value->Int_0,
                u32::MAX as nat,
            ) == Ok::<nat, IntError>(plan.concurrency as nat)
            &&& name == "lock_duration"@ ==> value is Int && as_unsigned(
                value->Int_0,
                u64::MAX as nat,
            ) == Ok::<nat, IntError>(plan.lock_duration as nat)
            &&& name == "backoff"@ ==> value is Str && plan.backoff is Some && backoff_of(
                value->Str_0,
            ) == Ok::<BackoffStrategy, Seq<char>>(plan.backoff->0)
            &&& name == "limiter"@ ==> value is Str && plan.limiter is Some && limiter_of(
                value->Str_0,
            ) == Ok::<Limiter, Seq<char>>(plan.limiter->0)
        }),
        !is_given_from(options, 0, "concurrency"@) ==> plan.concurrency == 1,
        !is_given_from(options, 0, "lock_duration"@) ==> plan.lock_duration == 30_000,
        !is_given_from(options, 0, "backoff"@) ==> plan.backoff is None,
        !is_given_from(options, 0, "limiter"@) ==> plan.limiter is None,
{
    law_options_have_written_values(tokens, options, opts);
    assert(has_written_value(options[i], opts@));
}

// The texts of the options in general: white space around the whole and around the numbers.

/// White space around a backoff and around its number does not matter, and neither does how the
/// number is written: `fixed(..)` means a fixed backoff of that many milliseconds.
pub proof fn law_fixed_backoff_spaced(
    before: Seq<char>,
    inner: Seq<char>,
    after: Seq<char>,
    ms: u64,
)
    requires
        all_white(before),
        all_white(after),
        as_unsigned(trimmed(inner), u64::MAX as nat) == Ok::<nat, IntError>(ms as nat),
    ensures
        backoff_of(before + ("fixed("@ + inner + ")"@) + after) == Ok::<BackoffStrategy, Seq<char>>(
            BackoffStrategy::Fixed(ms),
        ),
{
    reveal_strlit("fixed(");
    reveal_strlit(")");
    let s = "fixed("@ + inner + ")"@;
    assert(s[0] == 'f');
    assert(s.last() == ')');
    law_trimmed_of_padded(before, s, after);
    assert("fixed("@ =~= s.subrange(0, 6));
    assert(is_enclosed(s, "fixed("@, ')'));
    assert(argument_text(s, "fixed("@) =~= inner);
}

/// The same for an exponential backoff, with its base and its maximum on either side of a comma.
pub proof fn law_exponential_backoff_spaced(
    before: Seq<char>,
    first: Seq<char>,
    second: Seq<char>,
    after: Seq<char>,
    base: u64,
    max: u64,
)
    requires
        all_white(before),
        all_white(after),
        forall|i: int| 0 <= i < first.len() ==> #[trigger] first[i] != ',',
        forall|i: int| 0 <= i < second.len() ==> #[trigger] second[i] != ',',
        as_unsigned(trimmed(first), u64::MAX as nat) == Ok::<nat, IntError>(base as nat),
        as_unsigned(trimmed(second), u64::MAX as nat) == Ok::<nat, IntError>(max as nat),
    ensures
        backoff_of(before + ("exponential("@ + (first.push(',') + second) + ")"@) + after) == Ok::<
            BackoffStrategy,
            Seq<char>,
        >(BackoffStrategy::Exponential { base, max }),
{
    reveal_strlit("fixed(");
    reveal_strlit("exponential(");
    reveal_strlit(")");
    let inner = first.push(',') + second;
    let s = "exponential("@ + inner + ")"@;
    assert(s[0] == 'e');
    assert("fixed("@[0] == 'f');
    assert(s.last() == ')');
    law_trimmed_of_padded(before, s, after);
    assert("exponential("@ =~= s.subrange(0, 12));
    assert(is_enclosed(s, "exponential("@, ')'));
    assert(!is_enclosed(s, "fixed("@, ')'));
    assert(argument_text(s, "exponential("@) =~= inner);
    lemma_split_pair(first, second, ',');
}

/// The same for a limiter, with its maximum and its duration on either side of a comma.
pub proof fn law_limiter_spaced(first: Seq<char>, second: Seq<char>, max: u32, duration: u64)
    requires
        forall|i: int| 0 <= i < first.len() ==> #[trigger] first[i] != ',',
        forall|i: int| 0 <= i < second.len() ==> #[trigger] second[i] != ',',
        as_unsigned(trimmed(first), u32::MAX as nat) == Ok::<nat, IntError>(max as nat),
        as_unsigned(trimmed(second), u64::MAX as nat) == Ok::<nat, IntError>(duration as nat),
    ensures
        limiter_of(first.push(',') + second) == Ok::<Limiter, Seq<char>>(Limiter { max, duration }),
{
    lemma_split_pair(first, second, ',');
}

/// No other text is a backoff: one that is accepted is, between white space, `fixed(..)` or
/// `exponential(..)` around the numbers of the strategy.
pub proof fn law_backoff_accepts_nothing_else(s: &str, strategy: BackoffStrategy)
    requires
        call_ensures(parse_backoff, (s,), Ok::<BackoffStrategy, String>(strategy)),
    ensures
        ({
            let t = trimmed(s@);
            match strategy {
                BackoffStrategy::Fixed(ms) => {
                    &&& t.len() >= 7 && t.take(6) == "fixed("@ && t.last() == ')'
                    &&& as_unsigned(trimmed(t.subrange(6, t.len() - 1)), u64::MAX as nat) == Ok::<
                        nat,
                        IntError,
                    >(ms as nat)
                },
                BackoffStrategy::Exponential { base, max } => {
                    let list = split_at_each(t.subrange(12, t.len() - 1), ',');
                    &&& t.len() >= 13 && t.take(12) == "exponential("@ && t.last() == ')'
                    &&& list.len() == 2
                    &&& as_unsigned(trimmed(list[0]), u64::MAX as nat) == Ok::<nat, IntError>(
                        base as nat,
                    )
                    &&& as_unsigned(trimmed(list[1]), u64::MAX as nat) == Ok::<nat, IntError>(
                        max as nat,
                    )
                },
            }
        }),
{
    reveal_strlit("fixed(");
    reveal_strlit("exponential(");
    let t = trimmed(s@);
    assert("fixed("@.len() == 6 && "exponential("@.len() == 12);
    if is_enclosed(t, "fixed("@, ')') {
        assert(t.take(6) =~= "fixed("@);
    } else {
        assert(t.take(12) =~= "exponential("@);
        let list = split_at_each(argument_text(t, "exponential("@), ',');
        lemma_unsigned_bound(trimmed(list[0]), u64::MAX as nat);
        lemma_unsigned_bound(trimmed(list[1]), u64::MAX as nat);
    }
    lemma_unsigned_bound(trimmed(t.subrange(6, t.len() - 1)), u64::MAX as nat);
}

/// No other text is a limiter: one that is accepted is its two numbers on either side of a comma.
pub proof fn law_limiter_accepts_nothing_else(s: &str, limiter: Limiter)
    requires
        call_ensures(parse_limiter, (s,), Ok::<Limiter, String>(limiter)),
    ensures
        ({
            let list = split_at_each(s@, ',');
            &&& list.len() == 2
            &&& as_unsigned(trimmed(list[0]), u32::MAX as nat) == Ok::<nat, IntError>(
                limiter.max as nat,
            )
            &&& as_unsigned(trimmed(list[1]), u64::MAX as nat) == Ok::<nat, IntError>(
                limiter.duration as nat,
            )
        }),
{
    let list = split_at_each(s@, ',');
    lemma_unsigned_bound(trimmed(list[0]), u32::MAX as nat);
    lemma_unsigned_bound(trimmed(list[1]), u64::MAX as nat);
}

// Where the first mistake is, and what is said of it.

/// Whether tokens start with options, each followed by a comma.
pub open spec fn starts_with_options(tokens: Seq<OptTokenView>, options: Seq<NamedOption>) -> bool {
    &&& tokens.len() >= 4 * options.len()
    &&& forall|i: int|
        0 <= i < options.len() ==> {
            &&& tokens[4 * i] == OptTokenView::Ident(#[trigger] options[i].name)
            &&& tokens[4 * i + 1] is Eq
            &&& tokens[4 * i + 2] == options[i].value
            &&& tokens[4 * i + 3] is Comma
            &&& is_valid_option(options[i])
        }
}

/// After valid options the reading goes on behind them.
proof fn lemma_reading_goes_on(tokens: Seq<OptTokenView>, options: Seq<NamedOption>) -> (opts:
    OptsView)
    requires
        starts_with_options(tokens, options),
    ensures
        options_from(tokens, 0, OptsView::none()) == options_from(tokens, 4 * options.len(), opts),
    decreases options.len(),
{
    if options.len() == 0 {
        OptsView::none()
    } else {
        let init = options.drop_last();
        assert forall|i: int| 0 <= i < init.len() implies {
            &&& tokens[4 * i] == OptTokenView::Ident(#[trigger] init[i].name)
            &&& tokens[4 * i + 1] is Eq
            &&& tokens[4 * i + 2] == init[i].value
            &&& tokens[4 * i + 3] is Comma
            &&& is_valid_option(init[i])
        } by {
            assert(options[i] == init[i]);
            assert(tokens[4 * i] == OptTokenView::Ident(options[i].name));
        }
        let before = lemma_reading_goes_on(tokens, init);
        let k = options.len() - 1;
        let at = (4 * k) as nat;
        assert(tokens[4 * k] == OptTokenView::Ident(options[k].name));
        lemma_option_read(tokens, at, options[k], before);
        option_set(tokens, at, options[k].name, before)->Ok_0
    }
}

/// The first mistake is reported where it stands. Behind valid options it is: something that is no
/// name, a name that no `=` follows, a name that is not known, a value that the option does not
/// take, or a value that neither a comma nor the end follows.
pub proof fn law_first_mistake_reported(
    tokens: Vec<OptToken>,
    options: Seq<NamedOption>,
    r: Result<WorkerOpts, OptError>,
)
    requires
        call_ensures(WorkerOpts::parse, (&tokens,), r),
        starts_with_options(token_views(tokens@), options),
        4 * options.len() < tokens@.len(),
    ensures
        ({
            let views = token_views(tokens@);
            let at = 4 * options.len() as int;
            let option = NamedOption { name: views[at]->Ident_0, value: views[at + 2] };
            let named = views[at] is Ident;
            let equals = at + 1 < views.len() && views[at + 1] is Eq;
            &&& views[at] matches OptTokenView::Keyword(word) ==> is_mistake(
                r,
                at,
                "expected identifier, found keyword `"@ + word + "`"@,
            )
            &&& !named && views[at] !is Keyword ==> is_mistake(r, at, "expected identifier"@)
            &&& named && !equals ==> is_mistake(r, at + 1, "expected `=`"@)
            &&& named && equals && !is_known_option(option.name) ==> is_mistake(
                r,
                at,
                "unexpected option: "@ + option.name,
            )
            &&& named && equals && is_known_option(option.name) && (at + 2 >= views.len()
                || !is_valid_option(option)) ==> r is Err && r->Err_0.at == at + 2
            &&& named && equals && at + 2 >= views.len() && (option.name == "queue"@ || option.name
                == "backoff"@ || option.name == "limiter"@) ==> is_mistake(
                r,
                at + 2,
                "unexpected end of input, "@ + "expected string literal"@,
            )
            &&& named && equals && at + 2 >= views.len() && (option.name == "concurrency"@
                || option.name == "retry"@ || option.name == "lock_duration"@) ==> is_mistake(
                r,
                at + 2,
                "unexpected end of input, "@ + "expected integer literal"@,
            )
            &&& named && equals && at + 3 < views.len() && is_valid_option(option) && views[at
                + 3] !is Comma ==> is_mistake(r, at + 3, "expected `,`"@)
        }),
{
    let views = token_views(tokens@);
    let at = 4 * options.len();
    let opts = lemma_reading_goes_on(views, options);
    lemma_option_names_differ();
    if views[at as int] is Ident {
        let name = views[at as int]->Ident_0;
        if at + 2 < views.len() {
            let option = NamedOption { name, value: views[(at + 2) as int] };
            lemma_option_read(views, at, option, opts);
        }
    }
}

/// Whether reading options has failed at a place with a message.
pub open spec fn is_mistake(
    r: Result<WorkerOpts, OptError>,
    at: int,
    message: Seq<char>,
) -> bool {
    r matches Err(e) && e.at == at && e.message@ == message
}

/// Whether a name is that of an option.
pub open spec fn is_known_option(name: Seq<char>) -> bool {
    ||| name == "queue"@
    ||| name == "concurrency"@
    ||| name == "retry"@
    ||| name == "backoff"@
    ||| name == "lock_duration"@
    ||| name == "limiter"@
}

/// Of a value that an option does not take it is said why: that a string or an integer is
/// expected, that the number is none or too large, or what is wrong with the text.
pub proof fn law_bad_value_explained(
    tokens: Vec<OptToken>,
    options: Seq<NamedOption>,
    r: Result<WorkerOpts, OptError>,
)
    requires
        call_ensures(WorkerOpts::parse, (&tokens,), r),
        starts_with_options(token_views(tokens@), options),
        4 * options.len() + 2 < tokens@.len(),
        token_views(tokens@)[4 * options.len() as int] is Ident,
        token_views(tokens@)[4 * options.len() as int + 1] is Eq,
    ensures
        ({
            let views = token_views(tokens@);
            let at = 4 * options.len() as int;
            let (name, value) = (views[at]->Ident_0, views[at + 2]);
            let wants_text = name == "queue"@ || name == "backoff"@ || name == "limiter"@;
            let wants_number = name == "concurrency"@ || name == "retry"@ || name
                == "lock_duration"@;
            let max = if name == "lock_duration"@ {
                u64::MAX as nat
            } else {
                u32::MAX as nat
            };
            &&& wants_text && value !is Str ==> is_mistake(r, at + 2, "expected string literal"@)
            &&& wants_number && value !is Int ==> is_mistake(r, at + 2, "expected integer literal"@)
            &&& wants_number && value is Int ==> (as_unsigned(value->Int_0, max) matches Err(e)
                ==> is_mistake(r, at + 2, int_error_text(e)))
            &&& name == "backoff"@ && value is Str ==> (backoff_of(value->Str_0) matches Err(reason)
                ==> is_mistake(r, at + 2, reason))
            &&& name == "limiter"@ && value is Str ==> (limiter_of(value->Str_0) matches Err(reason)
                ==> is_mistake(r, at + 2, reason))
        }),
{
    lemma_option_names_differ();
    let views = token_views(tokens@);
    let at = 4 * options.len();
    let opts = lemma_reading_goes_on(views, options);
    let name = views[at as int]->Ident_0;
    assert(options_from(views, at, opts) == match option_set(views, at, name, opts) {
        Err(e) => Err(e),
        Ok(next) => if at + 3 >= views.len() {
            Ok(next)
        } else if views[(at + 3) as int] !is Comma {
            Err(OptErrorView { at: at + 3, message: "expected `,`"@ })
        } else {
            options_from(views, at + 4, next)
        },
    });
}

/// Options without a queue are refused, and that is what is said.
pub proof fn law_queue_is_required(
    tokens: Vec<OptToken>,
    options: Seq<NamedOption>,
    r: Result<WorkerOpts, OptError>,
)
    requires
        call_ensures(WorkerOpts::parse, (&tokens,), r),
        is_option_list(token_views(tokens@), options),
        forall|i: int| 0 <= i < options.len() ==> is_valid_option(#[trigger] options[i]),
        !is_given_from(options, 0, "queue"@),
    ensures
        is_mistake(r, 0, "missing required option: queue"@),
{
    lemma_list_read(token_views(tokens@), options, 0, OptsView::none());
}

/// A number of a backoff or a limiter that is none is named in the message.
pub proof fn law_bad_numbers_named(
    before: Seq<char>,
    inner: Seq<char>,
    first: Seq<char>,
    second: Seq<char>,
    after: Seq<char>,
)
    requires
        all_white(before),
        all_white(after),
        forall|i: int| 0 <= i < first.len() ==> #[trigger] first[i] != ',',
        forall|i: int| 0 <= i < second.len() ==> #[trigger] second[i] != ',',
    ensures
        as_unsigned(trimmed(inner), u64::MAX as nat) is Err ==> backoff_of(
            before + ("fixed("@ + inner + ")"@) + after,
        ) == Err::<BackoffStrategy, Seq<char>>("invalid fixed backoff value: "@ + inner),
        ({
            let list = first.push(',') + second;
            let text = before + ("exponential("@ + list + ")"@) + after;
            &&& as_unsigned(trimmed(first), u64::MAX as nat) is Err ==> backoff_of(text) == Err::<
                BackoffStrategy,
                Seq<char>,
            >("invalid exponential base: "@ + trimmed(first))
            &&& as_unsigned(trimmed(first), u64::MAX as nat) is Ok && as_unsigned(
                trimmed(second),
                u64::MAX as nat,
            ) is Err ==> backoff_of(text) == Err::<BackoffStrategy, Seq<char>>(
                "invalid exponential max: "@ + trimmed(second),
            )
            &&& as_unsigned(trimmed(first), u32::MAX as nat) is Err ==> limiter_of(list) == Err::<
                Limiter,
                Seq<char>,
            >("invalid limiter max: "@ + trimmed(first))
            &&& as_unsigned(trimmed(first), u32::MAX as nat) is Ok && as_unsigned(
                trimmed(second),
                u64::MAX as nat,
            ) is Err ==> limiter_of(list) == Err::<Limiter, Seq<char>>(
                "invalid limiter duration: "@ + trimmed(second),
            )
        }),
{
    reveal_strlit("fixed(");
    reveal_strlit("exponential(");
    reveal_strlit(")");
    let s = "fixed("@ + inner + ")"@;
    assert(s[0] == 'f' && s.last() == ')');
    law_trimmed_of_padded(before, s, after);
    assert("fixed("@ =~= s.subrange(0, 6));
    assert(is_enclosed(s, "fixed("@, ')'));
    assert(argument_text(s, "fixed("@) =~= inner);
    let list = first.push(',') + second;
    let t = "exponential("@ + list + ")"@;
    assert(t[0] == 'e' && t.last() == ')');
    assert("fixed("@[0] == 'f');
    law_trimmed_of_padded(before, t, after);
    assert("exponential("@ =~= t.subrange(0, 12));
    assert(is_enclosed(t, "exponential("@, ')'));
    assert(!is_enclosed(t, "fixed("@, ')'));
    assert(argument_text(t, "exponential("@) =~= list);
    lemma_split_pair(first, second, ',');
}

/// An unsuitable function is refused with the reason of its argument, and only where that is
/// suitable with the reason of what it returns.
pub proof fn law_plan_errors(
    opts: WorkerOpts,
    func: SignatureShape,
    r: Result<WorkerPlan, ShapeError>,
    data: Result<String, ShapeError>,
    returned: Result<String, ShapeError>,
)
    requires
        call_ensures(generate_worker, (&opts, &func), r),
        call_ensures(extract_job_data_type, (&func,), data),
        call_ensures(extract_return_type, (&func,), returned),
    ensures
        r is Ok <==> data is Ok && returned is Ok,
        data is Err ==> r is Err && r->Err_0@ == data->Err_0@,
        data is Ok && returned is Err ==> r is Err && r->Err_0@ == returned->Err_0@,
        r is Ok ==> r->Ok_0.data_type@ == data->Ok_0@ && r->Ok_0.return_type@ == returned->Ok_0@,
{
}

/// Whether an error is about a site, with a message.
pub open spec fn is_shape_error(
    r: Result<String, ShapeError>,
    site: ErrorSite,
    message: Seq<char>,
) -> bool {
    r matches Err(e) && e.site == site && e.message@ == message
}

/// What is said of a first argument that is no reference to a job, by how far it is one.
pub proof fn law_argument_errors(func: SignatureShape, r: Result<String, ShapeError>)
    requires
        call_ensures(extract_job_data_type, (&func,), r),
    ensures
        func.inputs@.len() == 0 ==> is_shape_error(
            r,
            ErrorSite::Signature,
            "worker function must take &Job<Data> as first argument"@,
        ),
        func.inputs@.len() > 0 ==> match func.inputs@[0] {
            ArgShape::Receiver => is_shape_error(
                r,
                ErrorSite::Part,
                "expected typed argument, not self"@,
            ),
            ArgShape::Typed(TypeShape::Reference(elem)) => match *elem {
                TypeShape::Path(path) => {
                    &&& path@.len() == 0 ==> is_shape_error(
                        r,
                        ErrorSite::Path,
                        "expected Job<Data>"@,
                    )
                    &&& path@.len() > 0 && path@.last() is Plain ==> is_shape_error(
                        r,
                        ErrorSite::LastSegment,
                        "expected Job<Data> with type parameter"@,
                    )
                    &&& path@.len() > 0 && path@.last() is Generic ==> {
                        let args = path@.last()->Generic_0@;
                        &&& args.len() == 0 ==> is_shape_error(
                            r,
                            ErrorSite::GenericArguments,
                            "Job requires a type parameter"@,
                        )
                        &&& args.len() > 0 && args[0] is Other ==> is_shape_error(
                            r,
                            ErrorSite::FirstGeneric,
                            "expected type argument"@,
                        )
                    }
                },
                _ => is_shape_error(r, ErrorSite::ReferencedType, "expected Job<Data>"@),
            },
            ArgShape::Typed(_) => is_shape_error(r, ErrorSite::Type, "expected &Job<Data>"@),
        },
{
}

/// What is said of a return type that is no result, by how far it is one.
pub proof fn law_return_errors(func: SignatureShape, r: Result<String, ShapeError>)
    requires
        call_ensures(extract_return_type, (&func,), r),
    ensures
        match func.output {
            None => is_shape_error(
                r,
                ErrorSite::Signature,
                "worker function must return Result<T>"@,
            ),
            Some(TypeShape::Path(path)) => {
                &&& path@.len() == 0 ==> is_shape_error(r, ErrorSite::Path, "expected Result<T>"@)
                &&& path@.len() > 0 && path@.last() is Plain ==> is_shape_error(
                    r,
                    ErrorSite::LastSegment,
                    "expected Result<T> with type parameter"@,
                )
                &&& path@.len() > 0 && path@.last() is Generic ==> {
                    let args = path@.last()->Generic_0@;
                    &&& args.len() == 0 ==> is_shape_error(
                        r,
                        ErrorSite::GenericArguments,
                        "Result requires a type parameter"@,
                    )
                    &&& args.len() > 0 && args[0] is Other ==> is_shape_error(
                        r,
                        ErrorSite::FirstGeneric,
                        "expected type argument"@,
                    )
                }
            },
            Some(_) => is_shape_error(r, ErrorSite::Type, "expected Result<T>"@),
        },
{
}

} // verus!
