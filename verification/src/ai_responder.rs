//! The responder abstraction: a complexity tier, the two kinds of failure, and
//! the one operation that turns instructions and input into generated text.

use vstd::prelude::*;

verus! {

/// Why a responder produced no text.
///
/// `ApiError` covers everything that went wrong between this process and the
/// service (no connection, a non-success status, an unreadable body).
/// `ModelOutputError` means the service answered well-formedly and the answer
/// held no usable text.
#[derive(Debug)]
pub enum AIError {
    ApiError(String),
    ModelOutputError(String),
}

/// The mathematical content of an [`AIError`].
pub enum AIErrorView {
    ApiError(Seq<char>),
    ModelOutputError(Seq<char>),
}

impl AIErrorView {
    /// The text shown to a person for this error.
    pub open spec fn message(self) -> Seq<char> {
        match self {
            AIErrorView::ApiError(detail) => "API usage error: "@ + detail,
            AIErrorView::ModelOutputError(detail) => "received invalid output from model: "@
                + detail,
        }
    }
}

impl View for AIError {
    type V = AIErrorView;

    open spec fn view(&self) -> AIErrorView {
        match self {
            AIError::ApiError(detail) => AIErrorView::ApiError(detail@),
            AIError::ModelOutputError(detail) => AIErrorView::ModelOutputError(detail@),
        }
    }
}

impl AIError {
    /// Renders the error for display.
    pub fn message(&self) -> (text: String)
        ensures
            text@ == self@.message(),
    {
        match self {
            AIError::ApiError(detail) => String::from_str("API usage error: ").concat(
                detail.as_str(),
            ),
            AIError::ModelOutputError(detail) => String::from_str(
                "received invalid output from model: ",
            ).concat(detail.as_str()),
        }
    }

    /// Whether this is a failure of the exchange with the service, as opposed
    /// to a failure of the model to produce text.
    pub fn is_api_error(&self) -> (yes: bool)
        ensures
            yes == (self@ is ApiError),
            yes != (self@ is ModelOutputError),
    {
        match self {
            AIError::ApiError(_) => true,
            AIError::ModelOutputError(_) => false,
        }
    }
}

/// What a responder handed back, as mathematical values.
pub open spec fn reply_view(reply: Result<String, AIError>) -> Result<Seq<char>, AIErrorView> {
    match reply {
        Ok(text) => Ok(text@),
        Err(error) => Err(error@),
    }
}

/// How demanding the requested code is. The tier selects the model that
/// writes it.
#[derive(Debug, Clone, Copy, PartialEq, Eq, Structural)]
pub enum Complexity {
    Low,
    Medium,
    High,
}

impl Complexity {
    /// The identifier of the model that serves this tier. Every tier has one.
    pub open spec fn model_name(self) -> Seq<char> {
        match self {
            Complexity::Low => "gpt-5-nano"@,
            Complexity::Medium => "gpt-5-mini"@,
            Complexity::High => "gpt-5.2"@,
        }
    }

    /// Maps the tier to its model identifier.
    pub fn model(&self) -> (name: &'static str)
        ensures
            name@ == self.model_name(),
    {
        match self {
            Complexity::Low => "gpt-5-nano",
            Complexity::Medium => "gpt-5-mini",
            Complexity::High => "gpt-5.2",
        }
    }

    /// The tier that a name stands for, if it stands for one.
    pub open spec fn named(name: Seq<char>) -> Option<Complexity> {
        if name == "low"@ {
            Some(Complexity::Low)
        } else if name == "medium"@ {
            Some(Complexity::Medium)
        } else if name == "high"@ {
            Some(Complexity::High)
        } else {
            None
        }
    }

    /// Reads a tier from its name: `low`, `medium` or `high`, in lower case.
    /// Any other text names no tier.
    pub fn from_name(name: &str) -> (tier: Option<Complexity>)
        ensures
            tier == Self::named(name@),
    {
        let given = String::from_str(name);
        if given == String::from_str("low") {
            Some(Complexity::Low)
        } else if given == String::from_str("medium") {
            Some(Complexity::Medium)
        } else if given == String::from_str("high") {
            Some(Complexity::High)
        } else {
            None
        }
    }

    /// No tier is left without a model: the identifier is never empty, and
    /// distinct tiers are served by distinct models.
    pub proof fn lemma_model_name_total(a: Complexity, b: Complexity)
        ensures
            a.model_name().len() > 0,
            a.model_name() == b.model_name() <==> a == b,
    {
        reveal_strlit("gpt-5-nano");
        reveal_strlit("gpt-5-mini");
        reveal_strlit("gpt-5.2");
        if a != b {
            let x = a.model_name();
            let y = b.model_name();
            assert(x.len() != y.len() || x[6] != y[6]);
        }
    }
}

impl<'a> From<&'a Complexity> for &'static str {
    fn from(complexity: &'a Complexity) -> (name: &'static str)
        ensures
            name@ == complexity.model_name(),
    {
        match complexity {
            Complexity::Low => "gpt-5-nano",
            Complexity::Medium => "gpt-5-mini",
            Complexity::High => "gpt-5.2",
        }
    }
}

impl<'a> vstd::std_specs::convert::FromSpecImpl<&'a Complexity> for &'static str {
    open spec fn obeys_from_spec() -> bool {
        true
    }

    open spec fn from_spec(complexity: &'a Complexity) -> &'static str {
        match complexity {
            Complexity::Low => "gpt-5-nano",
            Complexity::Medium => "gpt-5-mini",
            Complexity::High => "gpt-5.2",
        }
    }
}

/// Something that turns instructions and an input into generated text.
pub trait AIResponder {
    /// Whether `reply` is an outcome that this responder may report when it is
    /// asked with the given tier, instructions and input. A responder that
    /// does not say so may report anything.
    open spec fn may_reply(
        &self,
        complexity: Complexity,
        instructions: Seq<char>,
        input: Seq<char>,
        reply: Result<Seq<char>, AIErrorView>,
    ) -> bool {
        true
    }

    /// Asks once. Returns the generated text, or the reason there is none.
    fn respond(&self, complexity: &Complexity, instructions: &str, input: &str) -> (reply: Result<
        String,
        AIError,
    >)
        ensures
            self.may_reply(*complexity, instructions@, input@, reply_view(reply)),
    ;
}

/// A responder that gives the same reply to every question, without asking
/// anyone: for trying things out where no service is at hand.
pub struct Canned {
    pub reply: Result<String, AIError>,
}

impl AIResponder for Canned {
    /// The one reply it may give is the one it holds.
    open spec fn may_reply(
        &self,
        complexity: Complexity,
        instructions: Seq<char>,
        input: Seq<char>,
        reply: Result<Seq<char>, AIErrorView>,
    ) -> bool {
        reply == reply_view(self.reply)
    }

    fn respond(&self, complexity: &Complexity, instructions: &str, input: &str) -> (reply: Result<
        String,
        AIError,
    >) {
        match &self.reply {
            Ok(text) => Ok(text.clone()),
            Err(AIError::ApiError(detail)) => Err(AIError::ApiError(detail.clone())),
            Err(AIError::ModelOutputError(detail)) => Err(
                AIError::ModelOutputError(detail.clone()),
            ),
        }
    }
}

} // verus!
