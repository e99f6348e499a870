use llamatrix::chat::{BackendError, Chat, ChatResponse, Message, Role};
use llamatrix::router::{Action, Request, Router};

fn send(id: &str, prompt: &str, slot: u32) -> Request<u32> {
    Request::SendPrompt { conversation_id: id.to_string(), prompt: prompt.to_string(), reply_slot: slot }
}

fn clear(id: &str) -> Request<u32> {
    Request::ClearContext { conversation_id: id.to_string() }
}

fn answer(text: &str) -> Result<ChatResponse, BackendError> {
    Ok(ChatResponse::new(Message::new(Role::Assistant, text.to_string())))
}

fn history(r: &Router<u32>) -> Vec<(Role, String)> {
    r.pending_body().messages().iter().map(|m| (m.role(), m.content().to_string())).collect()
}

#[test]
fn new_conversation_makes_one_session_and_reuses_it() {
    let mut r: Router<u32> = Router::new("llama3".to_string(), "http://localhost:11434".to_string());
    assert_eq!(r.session_count(), 0);
    assert_eq!(r.handle(send("!a:x", "hi", 1)), Action::Call);
    assert_eq!(history(&r), vec![(Role::User, "hi".to_string())]);
    let (slot, reply) = r.complete(answer("hello"));
    assert_eq!(slot, 1);
    assert_eq!(reply, Ok("hello".to_string()));
    assert_eq!(r.session_count(), 1);
    assert_eq!(r.handle(send("!a:x", "again", 2)), Action::Call);
    assert_eq!(
        history(&r),
        vec![
            (Role::User, "hi".to_string()),
            (Role::Assistant, "hello".to_string()),
            (Role::User, "again".to_string()),
        ]
    );
    let (slot, _) = r.complete(answer("yes"));
    assert_eq!(slot, 2);
    assert_eq!(r.session_count(), 1);
}

#[test]
fn clear_then_prompt_starts_fresh() {
    let mut r: Router<u32> = Router::new("m".to_string(), "http://h".to_string());
    r.handle(send("room", "one", 1));
    r.complete(answer("two"));
    assert!(r.has_session(&"room".to_string()));
    assert_eq!(r.handle(clear("room")), Action::Done);
    assert!(!r.is_busy());
    assert!(!r.has_session(&"room".to_string()));
    r.handle(send("room", "three", 2));
    assert_eq!(history(&r), vec![(Role::User, "three".to_string())]);
}

#[test]
fn clear_of_unknown_conversation_is_a_no_op() {
    let mut r: Router<u32> = Router::new("m".to_string(), "http://h".to_string());
    r.handle(send("a", "x", 1));
    r.complete(answer("y"));
    assert_eq!(r.handle(clear("b")), Action::Done);
    assert_eq!(r.session_count(), 1);
    assert!(r.has_session(&"a".to_string()));
}

#[test]
fn conversations_keep_separate_histories() {
    let mut r: Router<u32> = Router::new("m".to_string(), "http://h".to_string());
    r.handle(send("a", "for a", 1));
    r.complete(answer("ra"));
    r.handle(send("b", "for b", 2));
    assert_eq!(history(&r), vec![(Role::User, "for b".to_string())]);
    r.complete(answer("rb"));
    assert_eq!(r.session_count(), 2);
}

#[test]
fn requests_are_taken_in_order_one_call_at_a_time() {
    let mut r: Router<u32> = Router::new("m".to_string(), "http://h".to_string());
    let reqs = vec![send("a", "1", 1), send("b", "2", 2), clear("a"), send("a", "3", 3)];
    let mut slots = Vec::new();
    for req in reqs {
        assert!(!r.is_busy());
        if r.handle(req) == Action::Call {
            assert!(r.is_busy());
            let (slot, _) = r.complete(answer("ok"));
            slots.push(slot);
        }
        assert!(!r.is_busy());
    }
    assert_eq!(slots, vec![1, 2, 3]);
}

#[test]
fn backend_failure_returns_the_slot_and_keeps_the_prompt() {
    let mut r: Router<u32> = Router::new("m".to_string(), "http://h".to_string());
    r.handle(send("a", "lost", 7));
    let (slot, reply) = r.complete(Err(BackendError::Transport));
    assert_eq!(slot, 7);
    assert_eq!(reply, Err(BackendError::Transport));
    assert!(r.has_session(&"a".to_string()));
    r.handle(send("a", "next", 8));
    assert_eq!(history(&r), vec![(Role::User, "lost".to_string()), (Role::User, "next".to_string())]);
}

#[test]
fn answer_not_from_assistant_is_refused() {
    let mut r: Router<u32> = Router::new("m".to_string(), "http://h".to_string());
    r.handle(send("a", "q", 1));
    let resp = ChatResponse::new(Message::new(Role::User, "odd".to_string()));
    let (slot, reply) = r.complete(Ok(resp));
    assert_eq!(slot, 1);
    assert_eq!(reply, Err(BackendError::UnexpectedRole));
}

#[test]
fn pending_body_carries_model_and_no_streaming() {
    let mut r: Router<u32> = Router::new("llama3".to_string(), "http://h".to_string());
    r.handle(send("a", "q", 1));
    assert_eq!(r.pending_body().model(), "llama3");
    assert!(!r.pending_body().stream());
}

#[test]
fn chat_session_turn() {
    let mut c = Chat::new("m".to_string(), "http://localhost:11434".to_string());
    assert_eq!(c.url(), "http://localhost:11434");
    assert_eq!(c.ctx().model(), "m");
    assert!(c.ctx().messages().is_empty());
    c.message("hi".to_string());
    assert_eq!(c.ctx().messages().len(), 1);
    let reply = c.receive(ChatResponse::new(Message::new(Role::Assistant, "hey".to_string())));
    assert_eq!(reply, Ok("hey".to_string()));
    assert_eq!(c.ctx().messages().len(), 2);
    assert_eq!(c.ctx().messages()[1].content(), "hey");
    assert_eq!(c.ctx().messages()[1].role(), Role::Assistant);
}
