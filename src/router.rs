//! The routing actor's decisions: requests are taken one at a time, in the
//! order they come, and at most one round trip with the backend is under way.
use vstd::prelude::*;
use crate::chat::{BackendError, Chat, ChatCtx, ChatResponse, MessageView, Role};
use crate::store::{history_of, Store};

verus! {

/// A request to the routing actor. `T` is the slot through which the answer of
/// a prompt goes back to whoever sent it.
pub enum Request<T> {
    SendPrompt { conversation_id: String, prompt: String, reply_slot: T },
    ClearContext { conversation_id: String },
}

/// What the actor must do after it took a request.
#[derive(PartialEq, Eq, Structural, Clone, Copy, Debug)]
pub enum Action {
    /// Nothing: the request is done.
    Done,
    /// Send the body of the pending turn to the backend and hand its outcome to `complete`.
    Call,
}

/// The conversation stores after a prompt for `id`, whose answer, if one was
/// accepted, is `reply`.
pub open spec fn after_send(
    m: Map<Seq<char>, Seq<MessageView>>,
    id: Seq<char>,
    prompt: Seq<char>,
    reply: Option<MessageView>,
) -> Map<Seq<char>, Seq<MessageView>> {
    let h = history_of(m, id).push((Role::User, prompt));
    m.insert(
        id,
        match reply {
            Some(a) => h.push(a),
            None => h,
        },
    )
}

/// The conversation stores after a clear request for `id`.
pub open spec fn after_clear(m: Map<Seq<char>, Seq<MessageView>>, id: Seq<char>) -> Map<
    Seq<char>,
    Seq<MessageView>,
> {
    m.remove(id)
}

/// One request as the store sees it once its turn is over: a prompt with the
/// answer that was accepted, if any, or a clear request.
pub enum Turn {
    Prompt { id: Seq<char>, prompt: Seq<char>, reply: Option<MessageView> },
    Clear { id: Seq<char> },
}

pub open spec fn after_turn(m: Map<Seq<char>, Seq<MessageView>>, t: Turn) -> Map<Seq<char>, Seq<MessageView>> {
    match t {
        Turn::Prompt { id, prompt, reply } => after_send(m, id, prompt, reply),
        Turn::Clear { id } => after_clear(m, id),
    }
}

/// The stores after the turns of `ts`, taken one after another from the first.
pub open spec fn after_turns(m: Map<Seq<char>, Seq<MessageView>>, ts: Seq<Turn>) -> Map<Seq<char>, Seq<MessageView>>
    decreases ts.len(),
{
    if ts.len() == 0 {
        m
    } else {
        after_turn(after_turns(m, ts.drop_last()), ts.last())
    }
}

/// Requests are taken in the order they came: the stores after `a` followed
/// by `b` are those that `b` makes of the stores that `a` left.
pub proof fn lemma_turns_in_order(m: Map<Seq<char>, Seq<MessageView>>, a: Seq<Turn>, b: Seq<Turn>)
    ensures
        after_turns(m, a + b) == after_turns(after_turns(m, a), b),
    decreases b.len(),
{
    if b.len() == 0 {
        assert(a + b =~= a);
    } else {
        assert((a + b).drop_last() =~= a + b.drop_last());
        assert((a + b).last() == b.last());
        lemma_turns_in_order(m, a, b.drop_last());
    }
}

/// A prompt for an id with no session makes exactly one new session, which
/// starts from an empty history; a second prompt for that id reuses it and
/// makes none, its history going on from the first turn's.
pub proof fn lemma_session_made_once(
    m: Map<Seq<char>, Seq<MessageView>>,
    id: Seq<char>,
    p1: Seq<char>,
    a1: Option<MessageView>,
    p2: Seq<char>,
    a2: Option<MessageView>,
)
    requires
        m.dom().finite(),
        !m.contains_key(id),
    ensures
        history_of(m, id) == Seq::<MessageView>::empty(),
        after_send(m, id, p1, a1).dom() == m.dom().insert(id),
        after_send(m, id, p1, a1).dom().len() == m.dom().len() + 1,
        after_send(after_send(m, id, p1, a1), id, p2, a2).dom() == after_send(m, id, p1, a1).dom(),
        after_send(after_send(m, id, p1, a1), id, p2, a2).dom().len() == m.dom().len() + 1,
        history_of(after_send(m, id, p1, a1), id) == after_send(m, id, p1, a1)[id],
        after_send(after_send(m, id, p1, a1), id, p2, a2)[id].subrange(
            0,
            after_send(m, id, p1, a1)[id].len() as int,
        ) == after_send(m, id, p1, a1)[id],
{
    let m1 = after_send(m, id, p1, a1);
    let m2 = after_send(m1, id, p2, a2);
    assert(m1.dom() =~= m.dom().insert(id));
    assert(m2.dom() =~= m1.dom());
    assert(m2[id].subrange(0, m1[id].len() as int) =~= m1[id]);
}

/// A clear request followed by a prompt for the same id acts as if the id had
/// never been seen: the prompt starts a fresh session with no earlier history.
pub proof fn lemma_clear_then_send(
    m: Map<Seq<char>, Seq<MessageView>>,
    id: Seq<char>,
    p: Seq<char>,
    a: Option<MessageView>,
)
    ensures
        history_of(after_clear(m, id), id) == Seq::<MessageView>::empty(),
        after_send(after_clear(m, id), id, p, a) == after_send(m.remove(id), id, p, a),
        after_send(after_clear(m, id), id, p, a)[id] == after_send(
            Map::<Seq<char>, Seq<MessageView>>::empty(),
            id,
            p,
            a,
        )[id],
{
}

/// A prompt's turn through `handle` and then `complete` leaves the stores that
/// `after_send` gives: the session taken out for the call comes back under its
/// id with the prompt, and the answer where one was accepted.
pub proof fn lemma_prompt_turn(
    m: Map<Seq<char>, Seq<MessageView>>,
    id: Seq<char>,
    p: Seq<char>,
    reply: Option<MessageView>,
)
    ensures
        m.remove(id).insert(
            id,
            match reply {
                Some(a) => history_of(m, id).push((Role::User, p)).push(a),
                None => history_of(m, id).push((Role::User, p)),
            },
        ) == after_send(m, id, p, reply),
{
    assert(m.remove(id).insert(
        id,
        match reply {
            Some(a) => history_of(m, id).push((Role::User, p)).push(a),
            None => history_of(m, id).push((Role::User, p)),
        },
    ) =~= after_send(m, id, p, reply));
}

struct InFlight<T> {
    conversation_id: String,
    chat: Chat,
    reply_slot: T,
}

/// The state of the routing actor: the conversation store, and the one turn
/// that may be waiting for the backend.
pub struct Router<T> {
    store: Store,
    in_flight: Option<InFlight<T>>,
}

impl<T> Router<T> {
    pub closed spec fn wf(&self) -> bool {
        &&& self.store.wf()
        &&& match self.in_flight {
            Some(f) => {
                &&& !self.store.view().contains_key(f.conversation_id@)
                &&& self.store.binds(f.chat)
            },
            None => true,
        }
    }

    /// The history of each conversation in the store, by id. The conversation
    /// of a pending turn is out of the store until the turn completes.
    pub closed spec fn sessions(&self) -> Map<Seq<char>, Seq<MessageView>> {
        self.store.view()
    }

    /// Whether a turn is waiting for the backend.
    pub closed spec fn busy(&self) -> bool {
        self.in_flight is Some
    }

    /// The number of round trips under way.
    pub open spec fn calls_in_flight(&self) -> nat {
        if self.busy() {
            1
        } else {
            0
        }
    }

    /// The conversation id of the pending turn.
    pub closed spec fn pending_id(&self) -> Seq<char> {
        self.in_flight->0.conversation_id@
    }

    /// The history sent to the backend for the pending turn.
    pub closed spec fn pending_history(&self) -> Seq<MessageView> {
        self.in_flight->0.chat.history()
    }

    /// The reply slot of the pending turn.
    pub closed spec fn pending_slot(&self) -> T {
        self.in_flight->0.reply_slot
    }

    pub closed spec fn spec_model(&self) -> Seq<char> {
        self.store.spec_model()
    }

    pub closed spec fn spec_url(&self) -> Seq<char> {
        self.store.spec_url()
    }

    /// At most one round trip is under way, and the conversation it serves has
    /// no session in the store meanwhile, so nothing else can reach it.
    pub proof fn lemma_one_call_at_a_time(&self)
        requires
            self.wf(),
        ensures
            self.calls_in_flight() <= 1,
            self.busy() ==> !self.sessions().contains_key(self.pending_id()),
    {
    }

    /// An idle actor with no conversation, whose sessions use `model` at `url`.
    pub fn new(model: String, url: String) -> (r: Router<T>)
        ensures
            r.wf(),
            !r.busy(),
            r.sessions() == Map::<Seq<char>, Seq<MessageView>>::empty(),
            r.spec_model() == model@,
            r.spec_url() == url@,
    {
        Router { store: Store::new(model, url), in_flight: None }
    }

    pub fn is_busy(&self) -> (r: bool)
        ensures
            r == self.busy(),
    {
        self.in_flight.is_some()
    }

    /// Whether a session is held for `id`.
    pub fn has_session(&self, id: &String) -> (r: bool)
        requires
            self.wf(),
        ensures
            r == self.sessions().contains_key(id@),
    {
        self.store.contains(id)
    }

    /// The number of sessions held.
    pub fn session_count(&self) -> (r: usize)
        requires
            self.wf(),
        ensures
            r == self.sessions().dom().len(),
    {
        self.store.len()
    }

    /// Takes one request. A prompt opens a turn on the conversation's session,
    /// made fresh where there is none, and asks for a call; a clear request
    /// discards the session and is done.
    pub fn handle(&mut self, req: Request<T>) -> (r: Action)
        requires
            old(self).wf(),
            !old(self).busy(),
        ensures
            final(self).wf(),
            final(self).spec_model() == old(self).spec_model(),
            final(self).spec_url() == old(self).spec_url(),
            match req {
                Request::SendPrompt { conversation_id, prompt, reply_slot } => {
                    &&& r == Action::Call
                    &&& final(self).busy()
                    &&& final(self).pending_id() == conversation_id@
                    &&& final(self).pending_slot() == reply_slot
                    &&& final(self).pending_history() == history_of(
                        old(self).sessions(),
                        conversation_id@,
                    ).push((Role::User, prompt@))
                    &&& final(self).sessions() == old(self).sessions().remove(conversation_id@)
                },
                Request::ClearContext { conversation_id } => {
                    &&& r == Action::Done
                    &&& !final(self).busy()
                    &&& final(self).sessions() == after_clear(old(self).sessions(), conversation_id@)
                },
            },
    {
        match req {
            Request::SendPrompt { conversation_id, prompt, reply_slot } => {
                let mut chat = self.store.take_or_create(&conversation_id);
                chat.message(prompt);
                self.in_flight = Some(InFlight { conversation_id, chat, reply_slot });
                Action::Call
            },
            Request::ClearContext { conversation_id } => {
                self.store.remove(&conversation_id);
                Action::Done
            },
        }
    }

    /// The body to send to the backend for the pending turn.
    pub fn pending_body(&self) -> (r: &ChatCtx)
        requires
            self.wf(),
            self.busy(),
        ensures
            r.history() == self.pending_history(),
            r.spec_model() == self.spec_model(),
            !r.spec_stream(),
    {
        self.in_flight.as_ref().unwrap().chat.ctx()
    }

    /// Ends the pending turn with what the backend gave. The session goes back
    /// into the store in every case, with the assistant's answer where one was
    /// given; the reply slot comes back with the answer's text or the error.
    pub fn complete(&mut self, outcome: Result<ChatResponse, BackendError>) -> (r: (T, Result<String, BackendError>))
        requires
            old(self).wf(),
            old(self).busy(),
        ensures
            final(self).wf(),
            !final(self).busy(),
            final(self).spec_model() == old(self).spec_model(),
            final(self).spec_url() == old(self).spec_url(),
            r.0 == old(self).pending_slot(),
            match outcome {
                Ok(resp) => if resp.spec_message().0 == Role::Assistant {
                    &&& r.1 is Ok
                    &&& r.1->Ok_0@ == resp.spec_message().1
                    &&& final(self).sessions() == old(self).sessions().insert(
                        old(self).pending_id(),
                        old(self).pending_history().push(resp.spec_message()),
                    )
                } else {
                    &&& r.1 == Err::<String, BackendError>(BackendError::UnexpectedRole)
                    &&& final(self).sessions() == old(self).sessions().insert(
                        old(self).pending_id(),
                        old(self).pending_history(),
                    )
                },
                Err(e) => {
                    &&& r.1 == Err::<String, BackendError>(e)
                    &&& final(self).sessions() == old(self).sessions().insert(
                        old(self).pending_id(),
                        old(self).pending_history(),
                    )
                },
            },
    {
        let f = self.in_flight.take().unwrap();
        let InFlight { conversation_id, mut chat, reply_slot } = f;
        let result = match outcome {
            Ok(resp) => chat.receive(resp),
            Err(e) => Err(e),
        };
        self.store.put(conversation_id, chat);
        (reply_slot, result)
    }
}

} // verus!
