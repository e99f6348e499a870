//! Messages of the chat API and one stateful conversation session.
use vstd::prelude::*;

verus! {

/// Who wrote a message of a conversation.
#[derive(PartialEq, Eq, Structural, Clone, Copy, Debug)]
pub enum Role {
    User,
    Assistant,
}

/// A message as the model sees it: its author and its text.
pub type MessageView = (Role, Seq<char>);

/// One message of a conversation history.
pub struct Message {
    role: Role,
    content: String,
}

impl View for Message {
    type V = MessageView;

    closed spec fn view(&self) -> MessageView {
        (self.role, self.content@)
    }
}

impl Message {
    pub fn new(role: Role, content: String) -> (r: Message)
        ensures
            r@ == (role, content@),
    {
        Message { role, content }
    }

    pub fn role(&self) -> (r: Role)
        ensures
            r == self@.0,
    {
        self.role
    }

    pub fn content(&self) -> (r: &str)
        ensures
            r@ == self@.1,
    {
        self.content.as_str()
    }
}

/// What an error of a round trip with the backend was.
#[derive(PartialEq, Eq, Structural, Clone, Copy, Debug)]
pub enum BackendError {
    /// The request could not be sent, or its answer could not be read.
    Transport,
    /// The answer was not written by the assistant.
    UnexpectedRole,
}

/// The body of a chat request: the model, whether to stream, and the whole
/// history of the conversation.
pub struct ChatCtx {
    model: String,
    stream: bool,
    messages: Vec<Message>,
}

impl ChatCtx {
    /// The history as a sequence of message views.
    pub closed spec fn history(&self) -> Seq<MessageView> {
        self.messages@.map_values(|m: Message| m@)
    }

    pub closed spec fn spec_model(&self) -> Seq<char> {
        self.model@
    }

    pub closed spec fn spec_stream(&self) -> bool {
        self.stream
    }

    pub fn model(&self) -> (r: &str)
        ensures
            r@ == self.spec_model(),
    {
        self.model.as_str()
    }

    pub fn stream(&self) -> (r: bool)
        ensures
            r == self.spec_stream(),
    {
        self.stream
    }

    pub fn messages(&self) -> (r: &Vec<Message>)
        ensures
            r@.map_values(|m: Message| m@) == self.history(),
    {
        &self.messages
    }
}

/// The answer of the backend to a chat request.
pub struct ChatResponse {
    message: Message,
}

impl ChatResponse {
    pub fn new(message: Message) -> (r: ChatResponse)
        ensures
            r.spec_message() == message@,
    {
        ChatResponse { message }
    }

    pub closed spec fn spec_message(&self) -> MessageView {
        self.message@
    }

    pub fn message(&self) -> (r: &Message)
        ensures
            r@ == self.spec_message(),
    {
        &self.message
    }
}

/// One conversation with the model: the request body that grows with each turn,
/// and the base URL of the backend.
pub struct Chat {
    ctx: ChatCtx,
    url: String,
}

impl Chat {
    pub closed spec fn history(&self) -> Seq<MessageView> {
        self.ctx.history()
    }

    pub closed spec fn spec_model(&self) -> Seq<char> {
        self.ctx.spec_model()
    }

    pub closed spec fn spec_url(&self) -> Seq<char> {
        self.url@
    }

    pub closed spec fn spec_stream(&self) -> bool {
        self.ctx.spec_stream()
    }

    /// A fresh session with an empty history, which asks for whole answers.
    pub fn new(model: String, url: String) -> (r: Chat)
        ensures
            r.spec_model() == model@,
            r.spec_url() == url@,
            !r.spec_stream(),
            r.history() == Seq::<MessageView>::empty(),
    {
        let r = Chat { ctx: ChatCtx { model, stream: false, messages: Vec::new() }, url };
        assert(r.history() =~= Seq::<MessageView>::empty());
        r
    }

    /// Starts a turn: the prompt joins the history as a message of the user,
    /// and `ctx` is then the body to send to the backend.
    pub fn message(&mut self, prompt: String)
        ensures
            final(self).history() == old(self).history().push((Role::User, prompt@)),
            final(self).spec_model() == old(self).spec_model(),
            final(self).spec_url() == old(self).spec_url(),
            final(self).spec_stream() == old(self).spec_stream(),
    {
        let m = Message { role: Role::User, content: prompt };
        self.ctx.messages.push(m);
        assert(self.history() =~= old(self).history().push((Role::User, prompt@)));
    }

    /// Ends a turn with the backend's answer. An answer of the assistant joins
    /// the history and its text is returned; any other is refused and leaves
    /// the history as it was.
    pub fn receive(&mut self, resp: ChatResponse) -> (r: Result<String, BackendError>)
        ensures
            resp.spec_message().0 == Role::Assistant ==> {
                &&& r is Ok
                &&& r->Ok_0@ == resp.spec_message().1
                &&& final(self).history() == old(self).history().push(resp.spec_message())
            },
            resp.spec_message().0 != Role::Assistant ==> {
                &&& r == Err::<String, BackendError>(BackendError::UnexpectedRole)
                &&& final(self).history() == old(self).history()
            },
            final(self).spec_model() == old(self).spec_model(),
            final(self).spec_url() == old(self).spec_url(),
            final(self).spec_stream() == old(self).spec_stream(),
    {
        if resp.message.role != Role::Assistant {
            return Err(BackendError::UnexpectedRole);
        }
        let text = resp.message.content.clone();
        self.ctx.messages.push(resp.message);
        assert(self.history() =~= old(self).history().push(resp.spec_message()));
        Ok(text)
    }

    pub fn ctx(&self) -> (r: &ChatCtx)
        ensures
            r.history() == self.history(),
            r.spec_model() == self.spec_model(),
            r.spec_stream() == self.spec_stream(),
    {
        &self.ctx
    }

    pub fn url(&self) -> (r: &str)
        ensures
            r@ == self.spec_url(),
    {
        self.url.as_str()
    }
}

} // verus!
