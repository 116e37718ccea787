use quote::ToTokens;
use std::cell::RefCell;
use std::rc::Rc;
use vibecode::ai_responder::{AIError, AIResponder, Canned, Complexity};
use vibecode::vibecode::{
    closure_from, closure_of, function_from, function_input, function_of, generate_closure,
    lexed, parsed, populate_function, tokenize, Construct, VibeError, CLOSURE_INSTRUCTIONS,
    FUNCTION_INSTRUCTIONS,
};

/// What a scripted responder was asked: the model, the instructions, the input.
type Asked = Rc<RefCell<Vec<(String, String, String)>>>;

/// A responder that answers every question with the same scripted outcome and
/// keeps a record of the questions.
struct Scripted {
    text: Option<String>,
    asked: Asked,
}

impl Scripted {
    fn saying(text: &str) -> (Scripted, Asked) {
        let asked: Asked = Rc::new(RefCell::new(Vec::new()));
        (Scripted { text: Some(text.to_string()), asked: asked.clone() }, asked)
    }

    fn silent() -> (Scripted, Asked) {
        let asked: Asked = Rc::new(RefCell::new(Vec::new()));
        (Scripted { text: None, asked: asked.clone() }, asked)
    }
}

impl AIResponder for Scripted {
    fn respond(
        &self,
        complexity: &Complexity,
        instructions: &str,
        input: &str,
    ) -> Result<String, AIError> {
        self.asked.borrow_mut().push((
            complexity.model().to_string(),
            instructions.to_string(),
            input.to_string(),
        ));
        match &self.text {
            Some(text) => Ok(text.clone()),
            None => Err(AIError::ModelOutputError("No text found in response".to_string())),
        }
    }
}

fn canonical(code: &str) -> String {
    code.parse::<proc_macro2::TokenStream>().unwrap().to_string()
}

fn as_function(code: &str) -> String {
    syn::parse_str::<syn::ItemFn>(code).unwrap().to_token_stream().to_string()
}

fn as_closure(code: &str) -> String {
    syn::parse_str::<syn::ExprClosure>(code).unwrap().to_token_stream().to_string()
}

#[test]
fn test_attribute_vibecode_can_add() {
    // Given
    fn add(a: u64, b: u64) -> u64 {
        a + b
    }
    let written = "fn add(a: u64, b: u64) -> u64 { a + b }";
    let (responder, asked) = Scripted::saying(written);

    // When
    let item =
        populate_function(&responder, &Complexity::Low, "fn add(a: u64, b: u64) -> u64 {}", None)
            .unwrap();
    let result = add(2, 2);

    // Then
    assert_eq!(item.sig.ident.to_string(), "add");
    assert_eq!(item.to_token_stream().to_string(), as_function(written));
    assert_eq!(
        asked.borrow().as_slice(),
        [(
            "gpt-5-nano".to_string(),
            FUNCTION_INSTRUCTIONS.to_string(),
            "Function signature:\nfn add(a: u64, b: u64) -> u64 {}".to_string(),
        )]
    );
    assert_eq!(result, 4);
}

#[test]
fn test_attribute_vibecode_accepts_prompt() {
    // Given
    fn sort(mut values: Vec<u64>) -> Vec<u64> {
        values.sort_by(|a, b| b.cmp(a));
        values
    }
    let written =
        "fn sort(mut values: Vec<u64>) -> Vec<u64> { values.sort_by(|a, b| b.cmp(a)); values }";
    let (responder, asked) = Scripted::saying(written);

    // When
    let item = populate_function(
        &responder,
        &Complexity::Low,
        "fn sort(values: Vec<u64>) -> Vec<u64> {}",
        Some("Sort in descending order"),
    )
    .unwrap();
    let result = sort(vec![3, 1, 4, 2]);

    // Then
    assert_eq!(item.block.stmts.len(), 2);
    assert_eq!(
        asked.borrow()[0].2,
        "Function signature:\nfn sort(values: Vec<u64>) -> Vec<u64> {}\n\nAdditional information:\nSort in descending order"
    );
    assert_eq!(result, vec![4, 3, 2, 1]);
}

#[test]
fn test_attribute_vibecode_accepts_complexity() {
    // Given
    fn primes(limit: u64) -> Vec<u64> {
        (2..=limit).filter(|n| (2..*n).all(|d| n % d != 0)).collect()
    }
    let written =
        "fn primes(limit: u64) -> Vec<u64> { (2..=limit).filter(|n| (2..*n).all(|d| n % d != 0)).collect() }";
    let (responder, asked) = Scripted::saying(written);
    let complexity = Complexity::from_name("medium").unwrap();

    // When
    let item = populate_function(
        &responder,
        &complexity,
        "fn primes(limit: u64) -> Vec<u64> {}",
        Some("Compute all prime numbers up to the given limit"),
    )
    .unwrap();
    let result = primes(20);

    // Then
    assert_eq!(item.sig.ident.to_string(), "primes");
    assert_eq!(asked.borrow()[0].0, "gpt-5-mini");
    assert!(asked.borrow()[0]
        .2
        .ends_with("Additional information:\nCompute all prime numbers up to the given limit"));
    assert_eq!(result, vec![2, 3, 5, 7, 11, 13, 17, 19]);
}

#[test]
fn viberun_can_multiply() {
    // Given
    let (responder, asked) = Scripted::saying("|| 3 * 4");

    // When
    let closure = generate_closure(&responder, &Complexity::Low, "Multiply 3 and 4").unwrap();
    let result = (|| 3 * 4)();

    // Then
    assert_eq!(closure.to_token_stream().to_string(), as_closure("|| 3 * 4"));
    assert_eq!(
        asked.borrow().as_slice(),
        [(
            "gpt-5-nano".to_string(),
            CLOSURE_INSTRUCTIONS.to_string(),
            "Multiply 3 and 4".to_string(),
        )]
    );
    assert_eq!(result, 12);
}

#[test]
fn viberun_can_sort() {
    // Given
    let written = "|mut numbers: Vec<i32>| { numbers.sort_by(|a, b| b.cmp(a)); numbers }";
    let (responder, asked) = Scripted::saying(written);

    // When
    let closure = generate_closure(
        &responder,
        &Complexity::Low,
        "Sort an input vec of numbers in descending order",
    )
    .unwrap();
    let result = (|mut numbers: Vec<i32>| {
        numbers.sort_by(|a, b| b.cmp(a));
        numbers
    })(vec![9, 1, 5, 6]);

    // Then
    assert_eq!(closure.inputs.len(), 1);
    assert_eq!(closure.to_token_stream().to_string(), as_closure(written));
    assert_eq!(asked.borrow()[0].2, "Sort an input vec of numbers in descending order");
    assert_eq!(result, vec![9, 6, 5, 1]);
}

#[test]
fn responder_is_asked_exactly_once() {
    let (responder, asked) = Scripted::saying("not ( balanced");
    let _ = generate_closure(&responder, &Complexity::High, "anything");
    assert_eq!(asked.borrow().len(), 1);
    assert_eq!(asked.borrow()[0].0, "gpt-5.2");

    let (responder, asked) = Scripted::silent();
    let _ = populate_function(&responder, &Complexity::Low, "fn f() {}", None);
    assert_eq!(asked.borrow().len(), 1);
}

#[test]
fn responder_failure_is_handed_on_unchanged() {
    let (responder, _) = Scripted::silent();
    let error = populate_function(&responder, &Complexity::Low, "fn f() {}", None).err().unwrap();
    match &error {
        VibeError::Responder(AIError::ModelOutputError(detail)) => {
            assert_eq!(detail, "No text found in response")
        }
        other => panic!("unexpected error: {:?}", other),
    }
    assert_eq!(
        error.message(),
        "received invalid output from model: No text found in response"
    );

    let error = closure_from(Err(AIError::ApiError("http status: 500".to_string()))).err().unwrap();
    assert!(matches!(error, VibeError::Responder(AIError::ApiError(_))));
    assert_eq!(error.message(), "API usage error: http status: 500");
}

#[test]
fn text_that_does_not_lex_is_a_lex_failure() {
    let error = function_from(Ok("fn broken( {".to_string())).err().unwrap();
    match &error {
        VibeError::Lex { construct, reason } => {
            assert_eq!(*construct, Construct::Function);
            assert_eq!(reason, "cannot parse string into token stream");
        }
        other => panic!("unexpected error: {:?}", other),
    }
    assert_eq!(
        error.message(),
        "Failed to lex vibecoded function: cannot parse string into token stream"
    );

    let error = closure_from(Ok("|x| x + \"unterminated".to_string())).err().unwrap();
    assert!(matches!(error, VibeError::Lex { construct: Construct::Closure, .. }));
    assert_eq!(
        error.message(),
        "Failed to lex vibecoded closure: cannot parse string into token stream"
    );
}

#[test]
fn tokens_of_another_construct_are_a_parse_failure() {
    let error = function_from(Ok("struct NotAFunction;".to_string())).err().unwrap();
    match &error {
        VibeError::Parse { construct, reason } => {
            assert_eq!(*construct, Construct::Function);
            assert!(!reason.is_empty());
            assert_eq!(
                error.message(),
                format!("Failed to parse vibecoded function: {}", reason)
            );
        }
        other => panic!("unexpected error: {:?}", other),
    }

    let error = closure_from(Ok("fn add(a: u64, b: u64) -> u64 { a + b }".to_string()))
        .err()
        .unwrap();
    assert!(matches!(error, VibeError::Parse { construct: Construct::Closure, .. }));
    assert!(error.message().starts_with("Failed to parse vibecoded closure: "));

    let error = closure_from(Ok("|a| a + 1 trailing".to_string())).err().unwrap();
    assert!(matches!(error, VibeError::Parse { construct: Construct::Closure, .. }));
}

#[test]
fn valid_text_is_accepted_as_it_is() {
    let item = function_from(Ok("pub fn nothing() {}".to_string())).unwrap();
    assert_eq!(item.sig.ident.to_string(), "nothing");
    assert!(item.block.stmts.is_empty());

    let closure = closure_from(Ok("move |x: u8| -> u8 { x }".to_string())).unwrap();
    assert!(closure.capture.is_some());
    assert_eq!(closure.inputs.len(), 1);
}

#[test]
fn tokenize_keeps_the_tokens_and_names_the_construct() {
    let tokens = tokenize(Construct::Function, "fn one() -> u8 { 1 }").unwrap();
    assert_eq!(tokens.to_string(), canonical("fn one() -> u8 { 1 }"));
    assert!(!tokens.is_empty());

    let error = tokenize(Construct::Closure, ")").err().unwrap();
    assert!(matches!(error, VibeError::Lex { construct: Construct::Closure, .. }));
}

#[test]
fn function_input_with_and_without_prompt() {
    assert_eq!(function_input("fn f()", None), "Function signature:\nfn f()");
    assert_eq!(
        function_input("fn f()", Some("be quick")),
        "Function signature:\nfn f()\n\nAdditional information:\nbe quick"
    );
    assert_eq!(function_input("", Some("")), "Function signature:\n\n\nAdditional information:\n");
}

#[test]
fn construct_names() {
    assert_eq!(Construct::Function.name(), "function");
    assert_eq!(Construct::Closure.name(), "closure");
}

#[test]
fn canned_responder_repeats_its_reply() {
    let canned = Canned { reply: Ok("|x: u8| x".to_string()) };
    assert_eq!(canned.respond(&Complexity::Low, "a", "b").unwrap(), "|x: u8| x");
    assert_eq!(canned.respond(&Complexity::High, "", "").unwrap(), "|x: u8| x");
    let closure = generate_closure(&canned, &Complexity::Medium, "identity").unwrap();
    assert_eq!(closure.inputs.len(), 1);

    let canned = Canned { reply: Err(AIError::ApiError("no route to host".to_string())) };
    match canned.respond(&Complexity::Low, "a", "b") {
        Err(AIError::ApiError(detail)) => assert_eq!(detail, "no route to host"),
        other => panic!("unexpected reply: {:?}", other),
    }
    let error = populate_function(&canned, &Complexity::Low, "fn f() {}", None).err().unwrap();
    assert_eq!(error.message(), "API usage error: no route to host");

    let canned = Canned { reply: Err(AIError::ModelOutputError("nothing".to_string())) };
    assert!(matches!(
        canned.respond(&Complexity::Low, "a", "b"),
        Err(AIError::ModelOutputError(_))
    ));
}

#[test]
fn function_of_each_verdict() {
    let item = function_of("fn two() -> u8 { 1 + 1 }".parse()).unwrap();
    assert_eq!(item.sig.ident.to_string(), "two");
    assert_eq!(item.to_token_stream().to_string(), as_function("fn two() -> u8 { 1 + 1 }"));

    let error = function_of("fn two( -> u8 {".parse()).err().unwrap();
    assert_eq!(
        error.message(),
        "Failed to lex vibecoded function: cannot parse string into token stream"
    );

    let error = function_of("|| 1 + 1".parse()).err().unwrap();
    match &error {
        VibeError::Parse { construct, reason } => {
            assert_eq!(*construct, Construct::Function);
            let parser = syn::parse_str::<syn::ItemFn>("|| 1 + 1").err().unwrap();
            assert_eq!(*reason, parser.to_string());
        }
        other => panic!("unexpected error: {:?}", other),
    }
}

#[test]
fn closure_of_each_verdict() {
    let closure = closure_of("|a: u8, b: u8| a + b".parse()).unwrap();
    assert_eq!(closure.inputs.len(), 2);
    assert_eq!(closure.to_token_stream().to_string(), as_closure("|a: u8, b: u8| a + b"));

    let error = closure_of("|a| a + ]".parse()).err().unwrap();
    assert_eq!(
        error.message(),
        "Failed to lex vibecoded closure: cannot parse string into token stream"
    );

    let error = closure_of("fn two() -> u8 { 2 }".parse()).err().unwrap();
    match &error {
        VibeError::Parse { construct, reason } => {
            assert_eq!(*construct, Construct::Closure);
            let parser = syn::parse_str::<syn::ExprClosure>("fn two() -> u8 { 2 }").err().unwrap();
            assert_eq!(*reason, parser.to_string());
        }
        other => panic!("unexpected error: {:?}", other),
    }
}

#[test]
fn verdicts_are_handed_on_as_they_are() {
    let tokens = lexed(Construct::Closure, "a + b".parse()).unwrap();
    assert_eq!(tokens.to_string(), canonical("a + b"));
    let sum =
        parsed(Construct::Closure, syn::parse_str::<syn::ExprBinary>("a + b")).unwrap();
    assert_eq!(sum.to_token_stream().to_string(), canonical("a + b"));

    let refusal = syn::Error::new(proc_macro2::Span::call_site(), "expected `|`");
    let error = parsed::<syn::ExprClosure>(Construct::Closure, Err(refusal)).err().unwrap();
    assert_eq!(error.message(), "Failed to parse vibecoded closure: expected `|`");
}

#[test]
fn generated_item_replaces_nothing_of_its_own_accord() {
    // The result is the parser's reading of the reply, whatever the
    // signature that was asked for.
    let (responder, _) = Scripted::saying("fn other(x: i8) -> i8 { -x }");
    let item =
        populate_function(&responder, &Complexity::Low, "fn add(a: u64, b: u64) -> u64 {}", None)
            .unwrap();
    assert_eq!(item.sig.ident.to_string(), "other");
    assert_eq!(item.block.stmts.len(), 1);
}
