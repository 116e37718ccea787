//! The model client: its credential, the request it posts, the response it
//! reads, and the text it takes from that response.
//!
//! Nothing here touches the network or the environment. The caller looks the
//! credential up and performs the exchange; this module says what to send and
//! what the answer means.

use crate::ai_responder::{AIError, AIErrorView, Complexity};
use vstd::prelude::*;

verus! {

/// The environment variable that holds the API key.
pub const API_KEY_VARIABLE: &'static str = "OPENAI_API_KEY";

/// The base URL of the service when none is given.
pub const DEFAULT_URL: &'static str = "https://api.openai.com/v1";

/// The bearer credential.
pub struct Auth {
    pub api_key: String,
}

/// The credential could not be had. `reason` is what the lookup reported.
#[derive(Debug)]
pub struct ConfigError {
    pub reason: String,
}

impl ConfigError {
    /// The text shown to a person for a failed lookup with the given reason.
    pub open spec fn message_for(reason: Seq<char>) -> Seq<char> {
        "Failed to read OPENAI_API_KEY from environment: "@ + reason
    }

    /// Renders the error for display.
    pub fn message(&self) -> (text: String)
        ensures
            text@ == Self::message_for(self.reason@),
    {
        String::from_str("Failed to read OPENAI_API_KEY from environment: ").concat(
            self.reason.as_str(),
        )
    }
}

impl Auth {
    /// Builds the credential from the outcome of looking [`API_KEY_VARIABLE`]
    /// up: the variable's value, or the reason why there is none.
    ///
    /// A failed lookup is a configuration error; no credential is made up.
    pub fn from_env(lookup: Result<String, String>) -> (auth: Result<Auth, ConfigError>)
        ensures
            match lookup {
                Ok(key) => auth matches Ok(a) && a.api_key@ == key@,
                Err(reason) => auth matches Err(e) && e.reason@ == reason@,
            },
    {
        match lookup {
            Ok(api_key) => Ok(Auth { api_key }),
            Err(reason) => Err(ConfigError { reason }),
        }
    }
}

/// A client of the service: who asks, and where.
pub struct OpenAI {
    pub auth: Auth,
    pub url: String,
}

/// How hard the model is asked to think.
pub struct Reasoning {
    pub effort: String,
}

/// The body of a request.
pub struct Request {
    pub model: String,
    pub instructions: String,
    pub input: String,
    pub reasoning: Reasoning,
}

/// One outbound call, ready to be performed: a POST of `body` as JSON to
/// `url` with the two headers.
pub struct Post {
    pub url: String,
    pub content_type: String,
    pub authorization: String,
    pub body: Request,
}

/// A block of a message: a piece of text, or anything else. Only text is
/// read; a block of another kind counts for nothing.
pub enum Content {
    OutputText { text: String },
    Other,
}

/// An item of a response: the model's reasoning, which carries nothing of
/// use here, or a message made of content blocks.
pub enum Output {
    Reasoning {  },
    Message { content: Vec<Content> },
}

/// What the service answered: its output items, in order.
pub struct Response {
    pub output: Vec<Output>,
}

impl View for Content {
    type V = Option<Seq<char>>;

    /// A block is the text it carries, if it carries one.
    open spec fn view(&self) -> Option<Seq<char>> {
        match self {
            Content::OutputText { text } => Some(text@),
            Content::Other => None,
        }
    }
}

/// The texts among the blocks of a message, in order of appearance.
pub open spec fn texts_among(blocks: Seq<Option<Seq<char>>>) -> Seq<Seq<char>>
    decreases blocks.len(),
{
    if blocks.len() == 0 {
        Seq::empty()
    } else {
        match blocks.first() {
            Some(text) => seq![text] + texts_among(blocks.drop_first()),
            None => texts_among(blocks.drop_first()),
        }
    }
}

/// The mathematical content of an [`Output`]: a message is the sequence of
/// its blocks.
pub enum OutputView {
    Reasoning,
    Message { content: Seq<Option<Seq<char>>> },
}

impl OutputView {
    /// The texts this item contributes: those of its text blocks if it is a
    /// message, none otherwise.
    pub open spec fn texts(self) -> Seq<Seq<char>> {
        match self {
            OutputView::Reasoning => Seq::empty(),
            OutputView::Message { content } => texts_among(content),
        }
    }
}

impl View for Output {
    type V = OutputView;

    open spec fn view(&self) -> OutputView {
        match self {
            Output::Reasoning {  } => OutputView::Reasoning,
            Output::Message { content } => OutputView::Message {
                content: content@.map_values(|block: Content| block@),
            },
        }
    }
}

/// The mathematical content of a [`Response`].
pub struct ResponseView {
    pub output: Seq<OutputView>,
}

/// The texts of all blocks of all messages among `items`, in order of
/// appearance.
pub open spec fn texts_of(items: Seq<OutputView>) -> Seq<Seq<char>>
    decreases items.len(),
{
    if items.len() == 0 {
        Seq::empty()
    } else {
        items.first().texts() + texts_of(items.drop_first())
    }
}

impl ResponseView {
    /// Every text of the response, in order of appearance.
    pub open spec fn texts(self) -> Seq<Seq<char>> {
        texts_of(self.output)
    }

    /// The first text of the response, if it has any.
    pub open spec fn first_text(self) -> Option<Seq<char>> {
        if self.texts().len() == 0 {
            None
        } else {
            Some(self.texts().first())
        }
    }
}

impl View for Response {
    type V = ResponseView;

    open spec fn view(&self) -> ResponseView {
        ResponseView { output: self.output@.map_values(|item: Output| item@) }
    }
}

impl Output {
    /// The first text of this item: that of the first text block if it is a
    /// message that has one.
    pub fn first_text(&self) -> (text: Option<&str>)
        ensures
            match text {
                Some(t) => self@.texts().len() > 0 && self@.texts().first() == t@,
                None => self@.texts().len() == 0,
            },
    {
        match self {
            Output::Reasoning {  } => None,
            Output::Message { content } => {
                let ghost blocks = content@.map_values(|block: Content| block@);
                let mut k: usize = 0;
                assert(blocks.skip(0) =~= blocks);
                while k < content.len()
                    invariant
                        k <= content.len(),
                        blocks == content@.map_values(|block: Content| block@),
                        self@.texts() == texts_among(blocks),
                        texts_among(blocks) == texts_among(blocks.skip(k as int)),
                    decreases content.len() - k,
                {
                    assert(blocks.skip(k as int).drop_first() =~= blocks.skip(k as int + 1));
                    assert(blocks.skip(k as int).first() == content[k as int]@);
                    match &content[k] {
                        Content::OutputText { text } => {
                            assert(texts_among(blocks.skip(k as int)) =~= seq![text@]
                                + texts_among(blocks.skip(k as int + 1)));
                            return Some(text.as_str());
                        },
                        Content::Other => {},
                    }
                    k += 1;
                }
                None
            },
        }
    }
}

impl Response {
    /// The first text of the response: that of the first text block of the
    /// first message that has one. Reasoning items, messages without text
    /// and blocks that are not text are passed over.
    pub fn first_text(&self) -> (text: Option<&str>)
        ensures
            match text {
                Some(t) => self@.first_text() == Some(t@),
                None => self@.first_text() is None,
            },
    {
        let ghost items = self@.output;
        let mut i: usize = 0;
        assert(items.skip(0) =~= items);
        while i < self.output.len()
            invariant
                i <= self.output.len(),
                items == self@.output,
                texts_of(items) == texts_of(items.skip(i as int)),
            decreases self.output.len() - i,
        {
            assert(items.skip(i as int).drop_first() =~= items.skip(i as int + 1));
            assert(items.skip(i as int).first() == self.output[i as int]@);
            match self.output[i].first_text() {
                Some(text) => {
                    return Some(text);
                },
                None => {},
            }
            assert(texts_of(items.skip(i as int)) =~= texts_of(items.skip(i as int + 1)));
            i += 1;
        }
        None
    }
}

impl Request {
    /// What is asked of the model: which one, to do what, on what input. The
    /// effort is always "low".
    pub fn new(complexity: &Complexity, instructions: &str, input: &str) -> (request: Request)
        ensures
            request.model@ == complexity.model_name(),
            request.instructions@ == instructions@,
            request.input@ == input@,
            request.reasoning.effort@ == "low"@,
    {
        Request {
            model: String::from_str(complexity.model()),
            instructions: String::from_str(instructions),
            input: String::from_str(input),
            reasoning: Reasoning { effort: String::from_str("low") },
        }
    }
}

impl OpenAI {
    /// The client for the service at its usual address, given the outcome of
    /// looking the credential up (see [`Auth::from_env`]).
    ///
    /// Without a credential there is no client, and so nothing that could
    /// describe a call.
    pub fn default(lookup: Result<String, String>) -> (client: Result<OpenAI, ConfigError>)
        ensures
            match lookup {
                Ok(key) => client matches Ok(c) && c.auth.api_key@ == key@ && c.url@
                    == DEFAULT_URL@,
                Err(reason) => client matches Err(e) && e.reason@ == reason@,
            },
    {
        match Auth::from_env(lookup) {
            Ok(auth) => Ok(OpenAI::new(auth, DEFAULT_URL)),
            Err(error) => Err(error),
        }
    }

    /// A client that asks as `auth` at the base URL `url`.
    pub fn new(auth: Auth, url: &str) -> (client: OpenAI)
        ensures
            client.auth == auth,
            client.url@ == url@,
    {
        OpenAI { auth, url: String::from_str(url) }
    }

    /// Where requests go: the base URL followed by `/responses`.
    pub open spec fn endpoint(self) -> Seq<char> {
        self.url@ + "/responses"@
    }

    /// The value of the `Authorization` header.
    pub open spec fn bearer(self) -> Seq<char> {
        "Bearer "@ + self.auth.api_key@
    }

    /// Describes the one call that answers a question: where to post, with
    /// which headers, and what.
    pub fn post(&self, complexity: &Complexity, instructions: &str, input: &str) -> (call: Post)
        ensures
            call.url@ == self.endpoint(),
            call.content_type@ == "application/json"@,
            call.authorization@ == self.bearer(),
            call.body.model@ == complexity.model_name(),
            call.body.instructions@ == instructions@,
            call.body.input@ == input@,
            call.body.reasoning.effort@ == "low"@,
    {
        Post {
            url: self.url.clone().concat("/responses"),
            content_type: String::from_str("application/json"),
            authorization: String::from_str("Bearer ").concat(self.auth.api_key.as_str()),
            body: Request::new(complexity, instructions, input),
        }
    }

    /// What an exchange amounts to. `exchange` is the parsed body of a
    /// successful answer, or the transport's account of why there is none
    /// (no connection, a non-success status, a body that is not a response).
    ///
    /// A failed exchange is an `ApiError` carrying that account unchanged. An
    /// answer without text is a `ModelOutputError`. Otherwise the result is
    /// the first text, verbatim.
    pub fn reply(exchange: Result<Response, String>) -> (reply: Result<String, AIError>)
        ensures
            crate::ai_responder::reply_view(reply) == Self::reply_for(
                match exchange {
                    Ok(response) => Ok(response@),
                    Err(account) => Err(account@),
                },
            ),
    {
        match exchange {
            Err(account) => Err(AIError::ApiError(account)),
            Ok(response) => match response.first_text() {
                Some(text) => Ok(String::from_str(text)),
                None => Err(
                    AIError::ModelOutputError(String::from_str("No text found in response")),
                ),
            },
        }
    }

    /// The outcome of a question, as a function of the outcome of the
    /// exchange.
    pub open spec fn reply_for(exchange: Result<ResponseView, Seq<char>>) -> Result<
        Seq<char>,
        AIErrorView,
    > {
        match exchange {
            Err(account) => Err(AIErrorView::ApiError(account)),
            Ok(response) => match response.first_text() {
                Some(text) => Ok(text),
                None => Err(AIErrorView::ModelOutputError("No text found in response"@)),
            },
        }
    }
}

/// The two kinds of failure never pass for one another: a failed exchange
/// is always an `ApiError` that carries the transport's account, and an
/// answer, whatever it holds, never is one. An answer fails exactly when it
/// yields no text, and then as a `ModelOutputError`.
pub proof fn lemma_failures_told_apart(exchange: Result<ResponseView, Seq<char>>)
    ensures
        match exchange {
            Err(account) => OpenAI::reply_for(exchange) == Err::<Seq<char>, AIErrorView>(
                AIErrorView::ApiError(account),
            ),
            Ok(response) => match response.first_text() {
                Some(text) => OpenAI::reply_for(exchange) == Ok::<Seq<char>, AIErrorView>(text),
                None => OpenAI::reply_for(exchange) matches Err(AIErrorView::ModelOutputError(_)),
            },
        },
        (OpenAI::reply_for(exchange) matches Err(AIErrorView::ApiError(_))) <==> exchange is Err,
{
}

/// The texts of a concatenation are the texts of its parts, concatenated.
pub proof fn lemma_texts_of_concat(front: Seq<OutputView>, back: Seq<OutputView>)
    ensures
        texts_of(front + back) == texts_of(front) + texts_of(back),
    decreases front.len(),
{
    if front.len() == 0 {
        assert(front + back =~= back);
        assert(texts_of(front) + texts_of(back) =~= texts_of(back));
    } else {
        lemma_texts_of_concat(front.drop_first(), back);
        assert((front + back).drop_first() =~= front.drop_first() + back);
        assert((front + back).first() == front.first());
        assert(texts_of(front + back) =~= texts_of(front) + texts_of(back));
    }
}

/// The blocks of a message hold no text exactly when none of them is a text
/// block.
pub proof fn lemma_no_text_among(blocks: Seq<Option<Seq<char>>>)
    ensures
        texts_among(blocks).len() == 0 <==> forall|k: int|
            0 <= k < blocks.len() ==> (#[trigger] blocks[k]) is None,
    decreases blocks.len(),
{
    if blocks.len() > 0 {
        let rest = blocks.drop_first();
        lemma_no_text_among(rest);
        assert(forall|k: int| 0 <= k < rest.len() ==> rest[k] == blocks[k + 1]);
        if texts_among(blocks).len() == 0 {
            assert forall|k: int| 0 <= k < blocks.len() implies (#[trigger] blocks[k]) is None by {
                if k > 0 {
                    assert(rest[k - 1] == blocks[k]);
                }
            }
        }
    }
}

/// The first text block of a message decides what the message yields first:
/// its text, unchanged.
pub proof fn lemma_first_text_among(blocks: Seq<Option<Seq<char>>>, at: int)
    requires
        0 <= at < blocks.len(),
        blocks[at] is Some,
        forall|k: int| 0 <= k < at ==> (#[trigger] blocks[k]) is None,
    ensures
        texts_among(blocks).len() > 0,
        texts_among(blocks).first() == blocks[at]->Some_0,
    decreases at,
{
    if at > 0 {
        let rest = blocks.drop_first();
        assert(forall|k: int| 0 <= k < rest.len() ==> rest[k] == blocks[k + 1]);
        assert(blocks[0] is None);
        lemma_first_text_among(rest, at - 1);
    }
}

/// A response yields no text exactly when none of its items carries one. In
/// particular a response without any message yields none, and so does one
/// whose messages hold no text block.
pub proof fn lemma_no_text(response: ResponseView)
    ensures
        response.first_text() is None <==> forall|i: int|
            0 <= i < response.output.len() ==> (#[trigger] response.output[i]).texts().len() == 0,
        (forall|i: int|
            0 <= i < response.output.len() ==> !(#[trigger] response.output[i] is Message))
            ==> response.first_text() is None,
    decreases response.output.len(),
{
    let items = response.output;
    if items.len() > 0 {
        let rest = ResponseView { output: items.drop_first() };
        lemma_no_text(rest);
        assert(forall|i: int| 0 <= i < rest.output.len() ==> rest.output[i] == items[i + 1]);
        if response.first_text() is None {
            assert forall|i: int| 0 <= i < items.len() implies (#[trigger] items[i]).texts().len()
                == 0 by {
                if i > 0 {
                    assert(rest.output[i - 1] == items[i]);
                }
            }
        }
    }
}

/// The first item that carries a text decides: the response yields the first
/// text of that item.
pub proof fn lemma_first_text(response: ResponseView, at: int)
    requires
        0 <= at < response.output.len(),
        response.output[at].texts().len() > 0,
        forall|j: int| 0 <= j < at ==> (#[trigger] response.output[j]).texts().len() == 0,
    ensures
        response.first_text() == Some(response.output[at].texts()[0]),
    decreases at,
{
    let items = response.output;
    if at > 0 {
        let rest = ResponseView { output: items.drop_first() };
        assert(forall|j: int| 0 <= j < rest.output.len() ==> rest.output[j] == items[j + 1]);
        assert(items[0].texts().len() == 0);
        lemma_first_text(rest, at - 1);
        assert(texts_of(items) =~= texts_of(rest.output));
    }
}

/// A message that holds a text block makes the response yield that block's
/// text, unchanged, provided nothing before it carries a text: no earlier
/// item, and no earlier block of the same message.
pub proof fn lemma_message_text_returned(response: ResponseView, at: int, block: int)
    requires
        0 <= at < response.output.len(),
        response.output[at] is Message,
        0 <= block < response.output[at]->content.len(),
        response.output[at]->content[block] is Some,
        forall|k: int| 0 <= k < block ==> (#[trigger] response.output[at]->content[k]) is None,
        forall|j: int| 0 <= j < at ==> (#[trigger] response.output[j]).texts().len() == 0,
    ensures
        response.first_text() == response.output[at]->content[block],
{
    lemma_first_text_among(response.output[at]->content, block);
    lemma_first_text(response, at);
}

/// Reasoning items are passed over: taking one out of a response changes
/// neither its texts nor, therefore, the text it yields.
pub proof fn lemma_reasoning_skipped(response: ResponseView, at: int)
    requires
        0 <= at < response.output.len(),
        response.output[at] is Reasoning,
    ensures
        (ResponseView { output: response.output.remove(at) }).texts() == response.texts(),
        (ResponseView { output: response.output.remove(at) }).first_text()
            == response.first_text(),
{
    let items = response.output;
    let front = items.take(at);
    let back = items.skip(at + 1);
    let one = seq![items[at]];
    assert(items =~= front + (one + back));
    assert(items.remove(at) =~= front + back);
    lemma_texts_of_concat(front, one + back);
    lemma_texts_of_concat(one, back);
    lemma_texts_of_concat(front, back);
    assert(one.first().texts() =~= Seq::<Seq<char>>::empty());
    assert(texts_of(one.drop_first()) =~= Seq::<Seq<char>>::empty());
    assert(texts_of(one) =~= Seq::<Seq<char>>::empty());
    assert(texts_of(one) + texts_of(back) =~= texts_of(back));
}

} // verus!
