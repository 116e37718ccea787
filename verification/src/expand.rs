//! The decisions of the two macros, from what they were given to what they
//! hand back: a piece of generated syntax, or the error to raise.

use crate::ai_responder::{AIErrorView, AIResponder, Complexity};
use crate::openai::ConfigError;
use crate::syntax::{parse_item_fn, statement_count};
use crate::vibecode::{generate_closure, populate_function, Construct, VibeError};
use proc_macro2::TokenStream;
use syn::{ExprClosure, ItemFn};
use vstd::prelude::*;

verus! {

/// The settings of the attribute: what else to tell the responder about the
/// function, and how demanding the function is.
pub struct VibecodeArgs {
    pub prompt: Option<String>,
    pub complexity: Complexity,
}

/// A complexity setting that names no tier. Holds the offending text.
#[derive(Debug)]
pub struct UnknownComplexity {
    pub name: String,
}

impl VibecodeArgs {
    /// The settings that the attribute's two optional values amount to. A
    /// missing complexity means `Low`; one that names no tier is refused.
    pub fn new(prompt: Option<String>, complexity: Option<&str>) -> (args: Result<
        VibecodeArgs,
        UnknownComplexity,
    >)
        ensures
            match complexity {
                None => args matches Ok(a) && a.prompt == prompt && a.complexity
                    == Complexity::Low,
                Some(name) => match Complexity::named(name@) {
                    Some(tier) => args matches Ok(a) && a.prompt == prompt && a.complexity
                        == tier,
                    None => args matches Err(e) && e.name@ == name@,
                },
            },
    {
        match complexity {
            None => Ok(VibecodeArgs { prompt, complexity: Complexity::Low }),
            Some(name) => match Complexity::from_name(name) {
                Some(tier) => Ok(VibecodeArgs { prompt, complexity: tier }),
                None => Err(UnknownComplexity { name: String::from_str(name) }),
            },
        }
    }

    /// The prompt as a mathematical value.
    pub open spec fn prompt_text(self) -> Option<Seq<char>> {
        match self.prompt {
            Some(p) => Some(p@),
            None => None,
        }
    }
}

/// The part of a macro's input that an error is about, and so the place
/// where the compiler should point.
#[derive(Debug, Clone, Copy, PartialEq, Eq, Structural)]
pub enum Anchor {
    /// What the macro was given to work on: the attribute's settings, or the
    /// whole input of the function macro.
    Arguments,
    /// The body of the function to fill in.
    Body,
    /// The name of the function to fill in.
    Name,
    /// The prompt of the function macro.
    Prompt,
    /// Wherever the parser's own error points.
    Reported,
}

/// Why a macro expands to an error instead of code.
#[derive(Debug)]
pub enum ExpandError {
    /// There is no client, for want of a credential.
    Client(ConfigError),
    /// What the macro was given is not what it takes; the parser's own error.
    Syntax(syn::Error),
    /// The function to fill in already has statements in its body.
    BodyNotEmpty,
    /// No code came of the generation.
    Generation { construct: Construct, error: VibeError },
}

impl ExpandError {
    /// Where this error points. Without a client it is the macro's arguments
    /// that go unserved; a parser's error keeps its own place; a body that is
    /// not empty is itself at fault; and a failed generation is reported at
    /// what asked for it, the function's name or the closure's prompt.
    pub fn anchor(&self) -> (at: Anchor)
        ensures
            at == match self {
                ExpandError::Client(_) => Anchor::Arguments,
                ExpandError::Syntax(_) => Anchor::Reported,
                ExpandError::BodyNotEmpty => Anchor::Body,
                ExpandError::Generation { construct: Construct::Function, .. } => Anchor::Name,
                ExpandError::Generation { construct: Construct::Closure, .. } => Anchor::Prompt,
            },
    {
        match self {
            ExpandError::Client(_) => Anchor::Arguments,
            ExpandError::Syntax(_) => Anchor::Reported,
            ExpandError::BodyNotEmpty => Anchor::Body,
            ExpandError::Generation { construct, .. } => match construct {
                Construct::Function => Anchor::Name,
                Construct::Closure => Anchor::Prompt,
            },
        }
    }

    /// Renders the error for display.
    pub fn message(&self) -> (text: String)
        ensures
            match self {
                ExpandError::Client(e) => text@ == "Failed to initialize OpenAI client: "@
                    + ConfigError::message_for(e.reason@),
                ExpandError::Syntax(e) => vstd::string::to_string_from_display_ensures::<
                    syn::Error,
                >(e, text),
                ExpandError::BodyNotEmpty => text@ == "The function body must be empty"@,
                ExpandError::Generation { construct, error } => text@ == "Failed to vibecode "@
                    + construct.noun() + ": "@ + error@.message(),
            },
    {
        match self {
            ExpandError::Client(e) => String::from_str(
                "Failed to initialize OpenAI client: ",
            ).concat(e.message().as_str()),
            ExpandError::Syntax(e) => e.to_string(),
            ExpandError::BodyNotEmpty => String::from_str("The function body must be empty"),
            ExpandError::Generation { construct, error } => String::from_str(
                "Failed to vibecode ",
            ).concat(construct.name()).concat(": ").concat(error.message().as_str()),
        }
    }
}

/// Accepts a function to fill in only if its body holds no statement.
pub fn require_empty_body(statements: usize) -> (verdict: Result<(), ExpandError>)
    ensures
        statements == 0 <==> verdict is Ok,
        statements != 0 <==> verdict matches Err(ExpandError::BodyNotEmpty),
{
    if statements == 0 {
        Ok(())
    } else {
        Err(ExpandError::BodyNotEmpty)
    }
}

/// Whether `outcome` is what a macro makes of a generation's result: the
/// generated code itself, or a `Generation` error for `construct` that holds
/// the generation's error.
pub open spec fn expanded<T>(
    construct: Construct,
    generation: Result<T, VibeError>,
    outcome: Result<T, ExpandError>,
) -> bool {
    match generation {
        Ok(code) => outcome == Ok::<T, ExpandError>(code),
        Err(error) => outcome matches Err(ExpandError::Generation { construct: c, error: e }) && c
            == construct && e == error,
    }
}

/// Whether `outcome` is what filling in the function that `item` declares
/// comes to, where `signature` is the text of `item` that the responder is
/// shown.
///
/// An item that the parser does not read as a function is refused with the
/// parser's own error. A function whose body holds a statement is refused
/// with `BodyNotEmpty`. In neither case is the responder asked. Otherwise
/// the responder was asked for a function with that signature and these
/// settings, and the result is what came of its reply: the generated item,
/// which is the parser's reading of the tokens lexed from the reply, or the
/// generation's error.
pub open spec fn filled_in<R: AIResponder>(
    responder: &R,
    args: VibecodeArgs,
    item: TokenStream,
    signature: Seq<char>,
    outcome: Result<ItemFn, ExpandError>,
) -> bool {
    match crate::syntax::item_fn_of(item) {
        Err(refusal) => outcome matches Err(ExpandError::Syntax(e)) && e == refusal,
        Ok(declared) => if crate::syntax::statements_in(declared) != 0 {
            outcome matches Err(ExpandError::BodyNotEmpty)
        } else {
            exists|reply: Result<Seq<char>, AIErrorView>, generation: Result<ItemFn, VibeError>|
                {
                    &&& responder.may_reply(
                        args.complexity,
                        crate::vibecode::FUNCTION_INSTRUCTIONS@,
                        crate::vibecode::function_input_text(signature, args.prompt_text()),
                        reply,
                    )
                    &&& #[trigger] crate::vibecode::function_generated(reply, generation)
                    &&& expanded(Construct::Function, generation, outcome)
                }
        },
    }
}

/// Fills in the function that `item` declares: `item` must be one function
/// whose body is empty, and the responder writes the function that replaces
/// it. The signature shown to the responder is the display text of `item`.
pub fn fill_in<R: AIResponder>(responder: &R, args: &VibecodeArgs, item: TokenStream) -> (filled:
    Result<ItemFn, ExpandError>)
    ensures
        exists|signature: String|
            {
                &&& #[trigger] vstd::string::to_string_from_display_ensures::<TokenStream>(
                    &item,
                    signature,
                )
                &&& filled_in(responder, *args, item, signature@, filled)
            },
{
    let signature = item.to_string();
    let ghost shown = signature;
    let declared = match parse_item_fn(item) {
        Ok(declared) => declared,
        Err(refusal) => {
            let filled = Err(ExpandError::Syntax(refusal));
            assert(vstd::string::to_string_from_display_ensures::<TokenStream>(&item, shown)
                && filled_in(responder, *args, item, shown@, filled));
            return filled;
        },
    };
    match require_empty_body(statement_count(&declared)) {
        Ok(()) => {},
        Err(error) => {
            let filled = Err(error);
            assert(vstd::string::to_string_from_display_ensures::<TokenStream>(&item, shown)
                && filled_in(responder, *args, item, shown@, filled));
            return filled;
        },
    }
    let prompt = match &args.prompt {
        Some(p) => Some(p.as_str()),
        None => None,
    };
    let generation = populate_function(responder, &args.complexity, signature.as_str(), prompt);
    let ghost generated = generation;
    let filled = match generation {
        Ok(written) => Ok(written),
        Err(error) => Err(ExpandError::Generation { construct: Construct::Function, error }),
    };
    proof {
        let reply = choose|reply: Result<Seq<char>, AIErrorView>|
            {
                &&& #[trigger] responder.may_reply(
                    args.complexity,
                    crate::vibecode::FUNCTION_INSTRUCTIONS@,
                    crate::vibecode::function_input_text(shown@, args.prompt_text()),
                    reply,
                )
                &&& crate::vibecode::function_generated(reply, generated)
            };
        assert(crate::vibecode::function_generated(reply, generated) && expanded(
            Construct::Function,
            generated,
            filled,
        ));
        assert(filled_in(responder, *args, item, shown@, filled));
    }
    filled
}

/// The attribute macro's decisions, in their order: without a client nothing
/// else is looked at; settings that did not parse are the next thing to
/// fail; only then is the item considered, as [`fill_in`] says.
pub fn vibecode_inner<R: AIResponder>(
    client: Result<R, ConfigError>,
    args: Result<VibecodeArgs, syn::Error>,
    item: TokenStream,
) -> (expansion: Result<ItemFn, ExpandError>)
    ensures
        match client {
            Err(missing) => expansion matches Err(ExpandError::Client(e)) && e == missing,
            Ok(responder) => match args {
                Err(refusal) => expansion matches Err(ExpandError::Syntax(e)) && e == refusal,
                Ok(settings) => exists|signature: String|
                    {
                        &&& #[trigger] vstd::string::to_string_from_display_ensures::<
                            TokenStream,
                        >(&item, signature)
                        &&& filled_in(&responder, settings, item, signature@, expansion)
                    },
            },
        },
{
    let responder = match client {
        Ok(responder) => responder,
        Err(missing) => {
            return Err(ExpandError::Client(missing));
        },
    };
    let settings = match args {
        Ok(settings) => settings,
        Err(refusal) => {
            return Err(ExpandError::Syntax(refusal));
        },
    };
    fill_in(&responder, &settings, item)
}

/// The function macro's decisions, in their order: without a client nothing
/// else is looked at; an input that did not parse is the next thing to fail;
/// only then is the responder asked, at the `Low` tier, for a closure that
/// does what `prompt` says. The result is then what came of its reply: the
/// generated closure, which is the parser's reading of the tokens lexed from
/// the reply, or the generation's error.
pub fn viberun_inner<R: AIResponder>(
    client: Result<R, ConfigError>,
    prompt: Result<String, syn::Error>,
) -> (expansion: Result<ExprClosure, ExpandError>)
    ensures
        match client {
            Err(missing) => expansion matches Err(ExpandError::Client(e)) && e == missing,
            Ok(responder) => match prompt {
                Err(refusal) => expansion matches Err(ExpandError::Syntax(e)) && e == refusal,
                Ok(task) => exists|
                    reply: Result<Seq<char>, AIErrorView>,
                    generation: Result<ExprClosure, VibeError>,
                |
                    {
                        &&& responder.may_reply(
                            Complexity::Low,
                            crate::vibecode::CLOSURE_INSTRUCTIONS@,
                            task@,
                            reply,
                        )
                        &&& #[trigger] crate::vibecode::closure_generated(reply, generation)
                        &&& expanded(Construct::Closure, generation, expansion)
                    },
            },
        },
{
    let responder = match client {
        Ok(responder) => responder,
        Err(missing) => {
            return Err(ExpandError::Client(missing));
        },
    };
    let task = match prompt {
        Ok(task) => task,
        Err(refusal) => {
            return Err(ExpandError::Syntax(refusal));
        },
    };
    let generation = generate_closure(&responder, &Complexity::Low, task.as_str());
    let ghost generated = generation;
    let expansion = match generation {
        Ok(closure) => Ok(closure),
        Err(error) => Err(ExpandError::Generation { construct: Construct::Closure, error }),
    };
    proof {
        let reply = choose|reply: Result<Seq<char>, AIErrorView>|
            {
                &&& #[trigger] responder.may_reply(
                    Complexity::Low,
                    crate::vibecode::CLOSURE_INSTRUCTIONS@,
                    task@,
                    reply,
                )
                &&& crate::vibecode::closure_generated(reply, generated)
            };
        assert(crate::vibecode::closure_generated(reply, generated) && expanded(
            Construct::Closure,
            generated,
            expansion,
        ));
    }
    expansion
}

} // verus!
