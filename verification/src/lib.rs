//! Delegating the body of a function or closure to a language model: the
//! request and response shapes, the error taxonomy, and the splicing of the
//! generated text back into syntax.

pub mod ai_responder;
pub mod expand;
pub mod openai;
pub mod syntax;
pub mod vibecode;
