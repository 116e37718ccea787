//! Generating code: what is asked of the responder, and what becomes of its
//! answer on the way to a piece of syntax.

use crate::ai_responder::{AIError, AIErrorView, AIResponder, Complexity};
use crate::syntax::{lex, parse_closure, parse_item_fn};
use proc_macro2::{LexError, TokenStream};
use syn::{ExprClosure, ItemFn};
use vstd::prelude::*;

verus! {

/// What the responder is told when a function is wanted.
pub const FUNCTION_INSTRUCTIONS: &'static str =
    "Implement the given function in Rust. You must ONLY return the implementation code without any explanation.";

/// What the responder is told when a closure is wanted.
pub const CLOSURE_INSTRUCTIONS: &'static str =
    "Write a Rust closure for the given task. You must ONLY return the closure without any explanation or wrapping code.";

/// The syntactic category that generated text is expected to belong to.
#[derive(Debug, Clone, Copy, PartialEq, Eq, Structural)]
pub enum Construct {
    Function,
    Closure,
}

impl Construct {
    /// The word for this construct in messages.
    pub open spec fn noun(self) -> Seq<char> {
        match self {
            Construct::Function => "function"@,
            Construct::Closure => "closure"@,
        }
    }

    /// The word for this construct in messages.
    pub fn name(&self) -> (word: &'static str)
        ensures
            word@ == self.noun(),
    {
        match self {
            Construct::Function => "function",
            Construct::Closure => "closure",
        }
    }
}

/// Why no code came of a generation.
///
/// The three kinds are told apart by variant: the responder gave no text, the
/// text is not a sequence of tokens, or the tokens are not the construct that
/// was asked for. `reason` is the lexer's or the parser's own account.
#[derive(Debug)]
pub enum VibeError {
    Responder(AIError),
    Lex { construct: Construct, reason: String },
    Parse { construct: Construct, reason: String },
}

/// The mathematical content of a [`VibeError`].
pub enum VibeErrorView {
    Responder(AIErrorView),
    Lex { construct: Construct, reason: Seq<char> },
    Parse { construct: Construct, reason: Seq<char> },
}

impl VibeErrorView {
    /// The text shown to a person for this error.
    pub open spec fn message(self) -> Seq<char> {
        match self {
            VibeErrorView::Responder(error) => error.message(),
            VibeErrorView::Lex { construct, reason } => "Failed to lex vibecoded "@
                + construct.noun() + ": "@ + reason,
            VibeErrorView::Parse { construct, reason } => "Failed to parse vibecoded "@
                + construct.noun() + ": "@ + reason,
        }
    }
}

impl View for VibeError {
    type V = VibeErrorView;

    open spec fn view(&self) -> VibeErrorView {
        match self {
            VibeError::Responder(error) => VibeErrorView::Responder(error@),
            VibeError::Lex { construct, reason } => VibeErrorView::Lex {
                construct: *construct,
                reason: reason@,
            },
            VibeError::Parse { construct, reason } => VibeErrorView::Parse {
                construct: *construct,
                reason: reason@,
            },
        }
    }
}

impl VibeError {
    /// Renders the error for display.
    pub fn message(&self) -> (text: String)
        ensures
            text@ == self@.message(),
    {
        match self {
            VibeError::Responder(error) => error.message(),
            VibeError::Lex { construct, reason } => String::from_str(
                "Failed to lex vibecoded ",
            ).concat(construct.name()).concat(": ").concat(reason.as_str()),
            VibeError::Parse { construct, reason } => String::from_str(
                "Failed to parse vibecoded ",
            ).concat(construct.name()).concat(": ").concat(reason.as_str()),
        }
    }
}

/// What the lexer's verdict on generated text amounts to: the tokens as they
/// are, or a `Lex` error for `construct` whose reason is the display text of
/// the lexer's refusal.
pub fn lexed(construct: Construct, verdict: Result<TokenStream, LexError>) -> (tokens: Result<
    TokenStream,
    VibeError,
>)
    ensures
        match verdict {
            Ok(stream) => tokens == Ok::<TokenStream, VibeError>(stream),
            Err(refusal) => tokens matches Err(VibeError::Lex { construct: c, reason }) && c
                == construct && vstd::string::to_string_from_display_ensures::<LexError>(
                &refusal,
                reason,
            ),
        },
{
    match verdict {
        Ok(stream) => Ok(stream),
        Err(refusal) => Err(VibeError::Lex { construct, reason: refusal.to_string() }),
    }
}

/// What the parser's verdict on generated tokens amounts to: the syntax as it
/// is, or a `Parse` error for `construct` whose reason is the display text of
/// the parser's refusal.
pub fn parsed<T>(construct: Construct, verdict: Result<T, syn::Error>) -> (syntax: Result<
    T,
    VibeError,
>)
    ensures
        match verdict {
            Ok(node) => syntax == Ok::<T, VibeError>(node),
            Err(refusal) => syntax matches Err(VibeError::Parse { construct: c, reason }) && c
                == construct && vstd::string::to_string_from_display_ensures::<syn::Error>(
                &refusal,
                reason,
            ),
        },
{
    match verdict {
        Ok(node) => Ok(node),
        Err(refusal) => Err(VibeError::Parse { construct, reason: refusal.to_string() }),
    }
}

/// The text of an optional string slice.
pub open spec fn optional_text(text: Option<&str>) -> Option<Seq<char>> {
    match text {
        Some(t) => Some(t@),
        None => None,
    }
}

/// The input that describes a wanted function: its signature, and below it
/// whatever else the caller has to say.
pub open spec fn function_input_text(signature: Seq<char>, prompt: Option<Seq<char>>) -> Seq<
    char,
> {
    match prompt {
        Some(more) => "Function signature:\n"@ + signature + "\n\nAdditional information:\n"@
            + more,
        None => "Function signature:\n"@ + signature,
    }
}

/// Writes the input that describes a wanted function.
pub fn function_input(signature: &str, prompt: Option<&str>) -> (input: String)
    ensures
        input@ == function_input_text(signature@, optional_text(prompt)),
{
    let head = String::from_str("Function signature:\n").concat(signature);
    match prompt {
        Some(more) => head.concat("\n\nAdditional information:\n").concat(more),
        None => head,
    }
}

/// Whether `outcome` is the `Lex` error for `construct` that the lexer's
/// `refusal` amounts to: its reason is the refusal's display text.
pub open spec fn refused_by_lexer<T>(
    construct: Construct,
    refusal: LexError,
    outcome: Result<T, VibeError>,
) -> bool {
    outcome matches Err(VibeError::Lex { construct: c, reason }) && c == construct
        && vstd::string::to_string_from_display_ensures::<LexError>(&refusal, reason)
}

/// Whether `outcome` is what the parser's `reading` of generated tokens
/// amounts to: the syntax it read, or the `Parse` error for `construct` whose
/// reason is the display text of its refusal.
pub open spec fn read_by_parser<T>(
    construct: Construct,
    reading: Result<T, syn::Error>,
    outcome: Result<T, VibeError>,
) -> bool {
    match reading {
        Ok(node) => outcome == Ok::<T, VibeError>(node),
        Err(refusal) => outcome matches Err(VibeError::Parse { construct: c, reason }) && c
            == construct && vstd::string::to_string_from_display_ensures::<syn::Error>(
            &refusal,
            reason,
        ),
    }
}

/// Whether `tokens` is what the lexer's verdict amounts to for `construct`:
/// the stream it gave, or the `Lex` error of its refusal.
pub open spec fn tokens_for(
    construct: Construct,
    verdict: Result<TokenStream, LexError>,
    tokens: Result<TokenStream, VibeError>,
) -> bool {
    match verdict {
        Ok(stream) => tokens == Ok::<TokenStream, VibeError>(stream),
        Err(refusal) => refused_by_lexer(construct, refusal, tokens),
    }
}

/// Whether `item` is what the lexer's verdict leads to where a function is
/// wanted: the `Lex` error of its refusal, or what the parser makes of its
/// tokens as a function item.
pub open spec fn function_for(
    verdict: Result<TokenStream, LexError>,
    item: Result<ItemFn, VibeError>,
) -> bool {
    match verdict {
        Err(refusal) => refused_by_lexer(Construct::Function, refusal, item),
        Ok(tokens) => read_by_parser(
            Construct::Function,
            crate::syntax::item_fn_of(tokens),
            item,
        ),
    }
}

/// Whether `closure` is what the lexer's verdict leads to where a closure is
/// wanted: the `Lex` error of its refusal, or what the parser makes of its
/// tokens as a closure expression.
pub open spec fn closure_for(
    verdict: Result<TokenStream, LexError>,
    closure: Result<ExprClosure, VibeError>,
) -> bool {
    match verdict {
        Err(refusal) => refused_by_lexer(Construct::Closure, refusal, closure),
        Ok(tokens) => read_by_parser(
            Construct::Closure,
            crate::syntax::expr_closure_of(tokens),
            closure,
        ),
    }
}

/// Whether `outcome` hands the responder's failure on unchanged.
pub open spec fn handed_on<T>(error: AIErrorView, outcome: Result<T, VibeError>) -> bool {
    outcome matches Err(e) && e@ == VibeErrorView::Responder(error)
}

/// Whether `item` is the function in `text`: what some verdict of the lexer
/// on that very text leads to.
pub open spec fn function_in(text: Seq<char>, item: Result<ItemFn, VibeError>) -> bool {
    exists|verdict: Result<TokenStream, LexError>|
        {
            &&& #[trigger] crate::syntax::lexes_to(text, verdict)
            &&& function_for(verdict, item)
        }
}

/// Whether `closure` is the closure in `text`: what some verdict of the lexer
/// on that very text leads to.
pub open spec fn closure_in(text: Seq<char>, closure: Result<ExprClosure, VibeError>) -> bool {
    exists|verdict: Result<TokenStream, LexError>|
        {
            &&& #[trigger] crate::syntax::lexes_to(text, verdict)
            &&& closure_for(verdict, closure)
        }
}

/// Whether `item` is what the generation of a function comes to when the
/// responder reported `reply`: its failure handed on unchanged, or the
/// function in its text.
pub open spec fn function_generated(
    reply: Result<Seq<char>, AIErrorView>,
    item: Result<ItemFn, VibeError>,
) -> bool {
    match reply {
        Err(error) => handed_on(error, item),
        Ok(text) => function_in(text, item),
    }
}

/// Whether `closure` is what the generation of a closure comes to when the
/// responder reported `reply`: its failure handed on unchanged, or the
/// closure in its text.
pub open spec fn closure_generated(
    reply: Result<Seq<char>, AIErrorView>,
    closure: Result<ExprClosure, VibeError>,
) -> bool {
    match reply {
        Err(error) => handed_on(error, closure),
        Ok(text) => closure_in(text, closure),
    }
}

/// Breaks generated text into tokens: the result is what the lexer's verdict
/// on `text` amounts to for `construct`, its stream or the `Lex` error of its
/// refusal.
pub fn tokenize(construct: Construct, text: &str) -> (tokens: Result<TokenStream, VibeError>)
    ensures
        exists|verdict: Result<TokenStream, LexError>|
            {
                &&& #[trigger] crate::syntax::lexes_to(text@, verdict)
                &&& tokens_for(construct, verdict, tokens)
            },
{
    let verdict = lex(text);
    let ghost given = verdict;
    let tokens = lexed(construct, verdict);
    assert(crate::syntax::lexes_to(text@, given) && tokens_for(construct, given, tokens));
    tokens
}

/// What becomes of the lexer's verdict on text that should be a function: a
/// refusal is a `Lex` error, and a stream is parsed as one function item,
/// which is the result unless the parser refuses, and then a `Parse` error.
pub fn function_of(verdict: Result<TokenStream, LexError>) -> (item: Result<ItemFn, VibeError>)
    ensures
        function_for(verdict, item),
{
    match lexed(Construct::Function, verdict) {
        Ok(tokens) => parsed(Construct::Function, parse_item_fn(tokens)),
        Err(error) => Err(error),
    }
}

/// What becomes of the lexer's verdict on text that should be a closure: a
/// refusal is a `Lex` error, and a stream is parsed as one closure
/// expression, which is the result unless the parser refuses, and then a
/// `Parse` error.
pub fn closure_of(verdict: Result<TokenStream, LexError>) -> (closure: Result<
    ExprClosure,
    VibeError,
>)
    ensures
        closure_for(verdict, closure),
{
    match lexed(Construct::Closure, verdict) {
        Ok(tokens) => parsed(Construct::Closure, parse_closure(tokens)),
        Err(error) => Err(error),
    }
}

/// Turns a reply into a function item: a failure is handed on, and a text is
/// lexed and its tokens parsed as one function.
pub fn function_from(reply: Result<String, AIError>) -> (item: Result<ItemFn, VibeError>)
    ensures
        function_generated(crate::ai_responder::reply_view(reply), item),
{
    let text = match reply {
        Ok(text) => text,
        Err(error) => {
            return Err(VibeError::Responder(error));
        },
    };
    let verdict = lex(text.as_str());
    let ghost given = verdict;
    let item = function_of(verdict);
    assert(crate::syntax::lexes_to(text@, given) && function_for(given, item));
    item
}

/// Turns a reply into a closure expression: a failure is handed on, and a
/// text is lexed and its tokens parsed as one closure.
pub fn closure_from(reply: Result<String, AIError>) -> (closure: Result<ExprClosure, VibeError>)
    ensures
        closure_generated(crate::ai_responder::reply_view(reply), closure),
{
    let text = match reply {
        Ok(text) => text,
        Err(error) => {
            return Err(VibeError::Responder(error));
        },
    };
    let verdict = lex(text.as_str());
    let ghost given = verdict;
    let closure = closure_of(verdict);
    assert(crate::syntax::lexes_to(text@, given) && closure_for(given, closure));
    closure
}

/// Has the responder write the function with the given signature.
///
/// The responder is asked at the given tier, with [`FUNCTION_INSTRUCTIONS`]
/// and the input that [`function_input`] writes for `signature` and
/// `prompt`. What it reports becomes the result as [`function_from`] says.
pub fn populate_function<R: AIResponder>(
    responder: &R,
    complexity: &Complexity,
    signature: &str,
    prompt: Option<&str>,
) -> (item: Result<ItemFn, VibeError>)
    ensures
        exists|reply: Result<Seq<char>, AIErrorView>|
            {
                &&& #[trigger] responder.may_reply(
                    *complexity,
                    FUNCTION_INSTRUCTIONS@,
                    function_input_text(signature@, optional_text(prompt)),
                    reply,
                )
                &&& function_generated(reply, item)
            },
{
    let input = function_input(signature, prompt);
    let reply = responder.respond(complexity, FUNCTION_INSTRUCTIONS, input.as_str());
    let ghost reported = crate::ai_responder::reply_view(reply);
    let item = function_from(reply);
    assert(responder.may_reply(
        *complexity,
        FUNCTION_INSTRUCTIONS@,
        function_input_text(signature@, optional_text(prompt)),
        reported,
    ) && function_generated(reported, item));
    item
}

/// Has the responder write a closure for the task that `prompt` describes.
///
/// The responder is asked at the given tier, with [`CLOSURE_INSTRUCTIONS`]
/// and `prompt` itself as the input. What it reports becomes the result as
/// [`closure_from`] says.
pub fn generate_closure<R: AIResponder>(responder: &R, complexity: &Complexity, prompt: &str) -> (closure:
    Result<ExprClosure, VibeError>)
    ensures
        exists|reply: Result<Seq<char>, AIErrorView>|
            {
                &&& #[trigger] responder.may_reply(
                    *complexity,
                    CLOSURE_INSTRUCTIONS@,
                    prompt@,
                    reply,
                )
                &&& closure_generated(reply, closure)
            },
{
    let reply = responder.respond(complexity, CLOSURE_INSTRUCTIONS, prompt);
    let ghost reported = crate::ai_responder::reply_view(reply);
    let closure = closure_from(reply);
    assert(responder.may_reply(*complexity, CLOSURE_INSTRUCTIONS@, prompt@, reported)
        && closure_generated(reported, closure));
    closure
}

} // verus!
