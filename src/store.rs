//! The conversation store: one session per conversation id, created on first
//! use and discarded on demand.
use vstd::prelude::*;
use crate::chat::{Chat, MessageView};

verus! {

/// A conversation id with its session.
pub struct Conversation {
    pub id: String,
    pub chat: Chat,
}

/// The ids of `s` are pairwise distinct.
pub open spec fn unique_ids(s: Seq<Conversation>) -> bool {
    forall|i: int, j: int| 0 <= i < j < s.len() ==> s[i].id@ != s[j].id@
}

/// The history of each conversation of `s`, by id.
pub open spec fn store_view(s: Seq<Conversation>) -> Map<Seq<char>, Seq<MessageView>>
    decreases s.len(),
{
    if s.len() == 0 {
        Map::empty()
    } else {
        store_view(s.drop_last()).insert(s.last().id@, s.last().chat.history())
    }
}

/// The history kept for `id`, empty where there is no session for it.
pub open spec fn history_of(m: Map<Seq<char>, Seq<MessageView>>, id: Seq<char>) -> Seq<MessageView> {
    if m.contains_key(id) {
        m[id]
    } else {
        Seq::empty()
    }
}

proof fn lemma_view_absent(s: Seq<Conversation>, k: Seq<char>)
    requires
        forall|i: int| 0 <= i < s.len() ==> s[i].id@ != k,
    ensures
        !store_view(s).contains_key(k),
    decreases s.len(),
{
    if s.len() > 0 {
        lemma_view_absent(s.drop_last(), k);
    }
}

proof fn lemma_view_index(s: Seq<Conversation>, i: int)
    requires
        unique_ids(s),
        0 <= i < s.len(),
    ensures
        store_view(s).contains_key(s[i].id@),
        store_view(s)[s[i].id@] == s[i].chat.history(),
    decreases s.len(),
{
    if i < s.len() - 1 {
        let t = s.drop_last();
        assert(t[i] == s[i]);
        lemma_view_index(t, i);
    }
}

proof fn lemma_view_remove(s: Seq<Conversation>, i: int)
    requires
        unique_ids(s),
        0 <= i < s.len(),
    ensures
        store_view(s.remove(i)) == store_view(s).remove(s[i].id@),
    decreases s.len(),
{
    let t = s.drop_last();
    if i == s.len() - 1 {
        assert(s.remove(i) =~= t);
        assert forall|j: int| 0 <= j < t.len() implies t[j].id@ != s[i].id@ by {
            assert(t[j] == s[j]);
        }
        lemma_view_absent(t, s[i].id@);
        assert(store_view(s).remove(s[i].id@) =~= store_view(t));
    } else {
        assert(t[i] == s[i]);
        lemma_view_remove(t, i);
        assert(s.remove(i).drop_last() =~= t.remove(i));
        assert(s.remove(i).last() == s.last());
        assert(store_view(s.remove(i)) =~= store_view(s).remove(s[i].id@));
    }
}

/// The sessions of all conversations, each bound to one model and one backend.
pub struct Store {
    model: String,
    url: String,
    entries: Vec<Conversation>,
}

impl Store {
    pub closed spec fn spec_model(&self) -> Seq<char> {
        self.model@
    }

    pub closed spec fn spec_url(&self) -> Seq<char> {
        self.url@
    }

    /// The history of each stored conversation, by id.
    pub closed spec fn view(&self) -> Map<Seq<char>, Seq<MessageView>> {
        store_view(self.entries@)
    }

    /// A session belongs to the store's model and backend, and asks for whole answers.
    pub open spec fn binds(&self, c: Chat) -> bool {
        &&& c.spec_model() == self.spec_model()
        &&& c.spec_url() == self.spec_url()
        &&& !c.spec_stream()
    }

    pub closed spec fn wf(&self) -> bool {
        &&& unique_ids(self.entries@)
        &&& forall|i: int| 0 <= i < self.entries@.len() ==> self.binds(#[trigger] self.entries@[i].chat)
    }

    /// An empty store whose sessions will use `model` at `url`.
    pub fn new(model: String, url: String) -> (r: Store)
        ensures
            r.wf(),
            r.spec_model() == model@,
            r.spec_url() == url@,
            r.view() == Map::<Seq<char>, Seq<MessageView>>::empty(),
    {
        Store { model, url, entries: Vec::new() }
    }

    /// The number of sessions held.
    pub fn len(&self) -> (r: usize)
        requires
            self.wf(),
        ensures
            r == self.view().dom().len(),
    {
        proof { self.lemma_dom_len(); }
        self.entries.len()
    }

    proof fn lemma_dom_len(&self)
        requires
            self.wf(),
        ensures
            self.view().dom().len() == self.entries@.len(),
    {
        lemma_dom_len_of(self.entries@);
    }

    fn find(&self, id: &String) -> (r: Option<usize>)
        requires
            self.wf(),
        ensures
            r is Some ==> r->0 < self.entries@.len() && self.entries@[r->0 as int].id@ == id@,
            r is None ==> forall|i: int| 0 <= i < self.entries@.len() ==> self.entries@[i].id@ != id@,
    {
        let mut i: usize = 0;
        while i < self.entries.len()
            invariant
                i <= self.entries@.len(),
                forall|j: int| 0 <= j < i ==> self.entries@[j].id@ != id@,
            decreases self.entries@.len() - i,
        {
            if self.entries[i].id == *id {
                return Some(i);
            }
            i = i + 1;
        }
        None
    }

    /// Whether a session is held for `id`.
    pub fn contains(&self, id: &String) -> (r: bool)
        requires
            self.wf(),
        ensures
            r == self.view().contains_key(id@),
    {
        match self.find(id) {
            Some(i) => {
                proof { lemma_view_index(self.entries@, i as int); }
                true
            },
            None => {
                proof { lemma_view_absent(self.entries@, id@); }
                false
            },
        }
    }

    /// Takes the session of `id` out of the store, or makes a fresh one where
    /// none is held.
    pub fn take_or_create(&mut self, id: &String) -> (r: Chat)
        requires
            old(self).wf(),
        ensures
            final(self).wf(),
            final(self).spec_model() == old(self).spec_model(),
            final(self).spec_url() == old(self).spec_url(),
            final(self).view() == old(self).view().remove(id@),
            r.history() == history_of(old(self).view(), id@),
            old(self).binds(r),
    {
        match self.find(id) {
            Some(i) => {
                proof { lemma_view_index(self.entries@, i as int); lemma_view_remove(self.entries@, i as int); }
                let c = self.entries.remove(i);
                proof { self.lemma_remove_keeps(old(self).entries@, i as int); }
                c.chat
            },
            None => {
                proof {
                    lemma_view_absent(self.entries@, id@);
                    assert(self.view().remove(id@) =~= self.view());
                }
                Chat::new(self.model.clone(), self.url.clone())
            },
        }
    }

    proof fn lemma_remove_keeps(&self, s: Seq<Conversation>, i: int)
        requires
            0 <= i < s.len(),
            self.entries@ == s.remove(i),
            unique_ids(s),
            forall|j: int| 0 <= j < s.len() ==> self.binds(#[trigger] s[j].chat),
        ensures
            self.wf(),
    {
        assert forall|a: int, b: int| 0 <= a < b < self.entries@.len() implies self.entries@[a].id@ != self.entries@[b].id@ by {
            let a2 = if a < i { a } else { a + 1 };
            let b2 = if b < i { b } else { b + 1 };
            assert(self.entries@[a] == s[a2]);
            assert(self.entries@[b] == s[b2]);
        }
        assert forall|j: int| 0 <= j < self.entries@.len() implies self.binds(#[trigger] self.entries@[j].chat) by {
            let j2 = if j < i { j } else { j + 1 };
            assert(self.entries@[j] == s[j2]);
        }
    }

    /// Puts the session of `id` (back) into the store.
    pub fn put(&mut self, id: String, chat: Chat)
        requires
            old(self).wf(),
            !old(self).view().contains_key(id@),
            old(self).binds(chat),
        ensures
            final(self).wf(),
            final(self).spec_model() == old(self).spec_model(),
            final(self).spec_url() == old(self).spec_url(),
            final(self).view() == old(self).view().insert(id@, chat.history()),
    {
        proof {
            assert forall|j: int| 0 <= j < self.entries@.len() implies self.entries@[j].id@ != id@ by {
                lemma_view_index(self.entries@, j);
            }
        }
        let ghost h = chat.history();
        let ghost k = id@;
        self.entries.push(Conversation { id, chat });
        proof {
            assert(self.entries@.drop_last() =~= old(self).entries@);
            assert(self.entries@.last().id@ == k);
            assert(self.view() == old(self).view().insert(k, h));
            assert forall|j: int| 0 <= j < self.entries@.len() implies self.binds(#[trigger] self.entries@[j].chat) by {
                if j < old(self).entries@.len() {
                    assert(self.entries@[j] == old(self).entries@[j]);
                }
            }
        }
    }

    /// Discards the session of `id`; nothing happens where none is held.
    pub fn remove(&mut self, id: &String)
        requires
            old(self).wf(),
        ensures
            final(self).wf(),
            final(self).spec_model() == old(self).spec_model(),
            final(self).spec_url() == old(self).spec_url(),
            final(self).view() == old(self).view().remove(id@),
    {
        match self.find(id) {
            Some(i) => {
                proof { lemma_view_remove(self.entries@, i as int); }
                let _ = self.entries.remove(i);
                proof { self.lemma_remove_keeps(old(self).entries@, i as int); }
            },
            None => {
                proof {
                    lemma_view_absent(self.entries@, id@);
                    assert(self.view().remove(id@) =~= self.view());
                }
            },
        }
    }
}

proof fn lemma_dom_len_of(s: Seq<Conversation>)
    requires
        unique_ids(s),
    ensures
        store_view(s).dom().len() == s.len(),
        store_view(s).dom().finite(),
    decreases s.len(),
{
    if s.len() > 0 {
        let t = s.drop_last();
        assert(unique_ids(t));
        lemma_dom_len_of(t);
        assert forall|j: int| 0 <= j < t.len() implies t[j].id@ != s.last().id@ by {
            assert(t[j] == s[j]);
        }
        lemma_view_absent(t, s.last().id@);
    }
}

} // verus!
