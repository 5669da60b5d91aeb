//! The conversation store: an in-memory document collection with the same
//! merge-upsert and fetch semantics as the backing document database, so that
//! the write path (compress, then set-union merge keyed on `channel_id`) and
//! the read path (filter by participant, order by `last_update` descending,
//! decompress) are verified against one model.

use vstd::prelude::*;
use vstd::string::*;
use crate::chat_codec::{encode_chat_text, decode_chat_text, encode_spec, decode_spec, CodecError};
use crate::chat_model::{
    DtkChat, DtkChatUser, DtkChatMessage, UserView, MessageView, ChatView, has_user_id,
    clone_user, contains_user_id,
};
use crate::str_order::{chars_le, str_le, lemma_chars_le_total, lemma_chars_le_trans};

verus! {

/// Errors of the store's write path.
#[derive(Clone, Copy, Debug, PartialEq, Eq, Structural)]
pub enum ChatStoreError {
    /// The conversation carries an empty `channel_id` or an empty
    /// participant set; it is rejected before any write.
    InvalidConversation,
    /// The backing database could not be reached. The in-memory store never
    /// produces it; the database-backed path reports it unchanged.
    StoreConnectionError,
}

/// Set-union append of participants, in order, keeping the first occurrence
/// of each byte-identical record.
pub open spec fn add_to_set_users(stored: Seq<UserView>, incoming: Seq<UserView>) -> Seq<UserView>
    decreases incoming.len(),
{
    if incoming.len() == 0 {
        stored
    } else {
        let prev = add_to_set_users(stored, incoming.drop_last());
        if prev.contains(incoming.last()) {
            prev
        } else {
            prev.push(incoming.last())
        }
    }
}

/// Set-union append of messages, in order, keeping the first occurrence of
/// each byte-identical record.
pub open spec fn add_to_set_msgs(stored: Seq<MessageView>, incoming: Seq<MessageView>) -> Seq<
    MessageView,
>
    decreases incoming.len(),
{
    if incoming.len() == 0 {
        stored
    } else {
        let prev = add_to_set_msgs(stored, incoming.drop_last());
        if prev.contains(incoming.last()) {
            prev
        } else {
            prev.push(incoming.last())
        }
    }
}

/// A message as it is stored: the body replaced by its envelope.
pub open spec fn encode_msg_view(m: MessageView) -> MessageView {
    MessageView { sender_id: m.sender_id, date: m.date, message: encode_spec(m.message) }
}

/// A message as it is fetched: the envelope decoded back to plain text. On a
/// body that does not decode the message is left as it stands; the store
/// surfaces the error instead of returning such a value.
pub open spec fn decode_msg_view(m: MessageView) -> MessageView {
    MessageView {
        sender_id: m.sender_id,
        date: m.date,
        message: match decode_spec(m.message) {
            Ok(t) => t,
            Err(_) => m.message,
        },
    }
}

/// Every stored body of the conversation decodes cleanly.
pub open spec fn chat_decodes(c: ChatView) -> bool {
    forall|i: int| 0 <= i < c.messages.len() ==> decode_spec(#[trigger] c.messages[i].message) is Ok
}

/// The merge-upsert applied to one stored document: `last_update` is taken
/// from the delta, participants and messages are set-union appended, and
/// every delta message body is compressed first.
pub open spec fn merge_chat_view(stored: ChatView, delta: ChatView) -> ChatView {
    ChatView {
        channel_id: stored.channel_id,
        last_update: delta.last_update,
        users: add_to_set_users(stored.users, delta.users),
        messages: add_to_set_msgs(
            stored.messages,
            delta.messages.map_values(|m: MessageView| encode_msg_view(m)),
        ),
    }
}

/// The document created when no stored conversation carries the delta's
/// `channel_id`: the merge applied to an empty document.
pub open spec fn new_doc_view(delta: ChatView) -> ChatView {
    merge_chat_view(
        ChatView {
            channel_id: delta.channel_id,
            last_update: delta.last_update,
            users: Seq::empty(),
            messages: Seq::empty(),
        },
        delta,
    )
}

/// Whether `users` holds a byte-identical copy of `u`.
fn contains_user(users: &Vec<DtkChatUser>, u: &DtkChatUser) -> (r: bool)
    ensures
        r == users.deep_view().contains(u@),
{
    let n = users.len();
    let mut i: usize = 0;
    while i < n
        invariant
            0 <= i <= n,
            n == users.len(),
            forall|j: int| 0 <= j < i ==> users.deep_view()[j] != u@,
        decreases n - i,
    {
        if users[i] == *u {
            assert(users.deep_view()[i as int] == u@);
            return true;
        }
        i += 1;
    }
    false
}

/// Whether `msgs` holds a byte-identical copy of `m`.
fn contains_message(msgs: &Vec<DtkChatMessage>, m: &DtkChatMessage) -> (r: bool)
    ensures
        r == msgs.deep_view().contains(m@),
{
    let n = msgs.len();
    let mut i: usize = 0;
    while i < n
        invariant
            0 <= i <= n,
            n == msgs.len(),
            forall|j: int| 0 <= j < i ==> msgs.deep_view()[j] != m@,
        decreases n - i,
    {
        if msgs[i] == *m {
            assert(msgs.deep_view()[i as int] == m@);
            return true;
        }
        i += 1;
    }
    false
}

/// Apply the merge-upsert to one stored conversation in place. Every message
/// of the result either stood in the document already or is a freshly
/// encoded body, which decodes.
fn merge_into(stored: &mut DtkChat, delta: &DtkChat)
    ensures
        final(stored)@ == merge_chat_view(old(stored)@, delta@),
        forall|i: int|
            0 <= i < final(stored)@.messages.len() ==> old(stored)@.messages.contains(
                #[trigger] final(stored)@.messages[i],
            ) || decode_spec(final(stored)@.messages[i].message) is Ok,
{
    let ghost stored0 = old(stored)@;
    stored.last_update = delta.last_update.clone();
    let n_users = delta.users.len();
    let mut i: usize = 0;
    while i < n_users
        invariant
            0 <= i <= n_users,
            n_users == delta.users.len(),
            stored.channel_id@ == stored0.channel_id,
            stored.last_update@ == delta@.last_update,
            stored.messages.deep_view() == stored0.messages,
            stored.users.deep_view() == add_to_set_users(
                stored0.users,
                delta.users.deep_view().take(i as int),
            ),
        decreases n_users - i,
    {
        let ghost taken = delta.users.deep_view().take(i as int);
        let ghost taken1 = delta.users.deep_view().take(i + 1 as int);
        proof {
            assert(taken1.drop_last() =~= taken);
            assert(taken1.last() == delta.users.deep_view()[i as int]);
        }
        let u = &delta.users[i];
        if !contains_user(&stored.users, u) {
            let ghost before = stored.users.deep_view();
            stored.users.push(clone_user(u));
            proof {
                assert(stored.users.deep_view() =~= before.push(u@));
            }
        }
        i += 1;
    }
    proof {
        assert(delta.users.deep_view().take(n_users as int) =~= delta.users.deep_view());
    }
    let ghost enc_msgs = delta.messages.deep_view().map_values(
        |m: MessageView| encode_msg_view(m),
    );
    proof {
        assert forall|t: int|
            0 <= t < stored.messages.deep_view().len() implies stored0.messages.contains(
            #[trigger] stored.messages.deep_view()[t],
        ) by {
            assert(stored.messages.deep_view()[t] == stored0.messages[t]);
        }
    }
    let n_msgs = delta.messages.len();
    let mut k: usize = 0;
    while k < n_msgs
        invariant
            0 <= k <= n_msgs,
            n_msgs == delta.messages.len(),
            enc_msgs == delta.messages.deep_view().map_values(
                |m: MessageView| encode_msg_view(m),
            ),
            stored.channel_id@ == stored0.channel_id,
            stored.last_update@ == delta@.last_update,
            stored.users.deep_view() == add_to_set_users(stored0.users, delta@.users),
            stored.messages.deep_view() == add_to_set_msgs(
                stored0.messages,
                enc_msgs.take(k as int),
            ),
            forall|t: int|
                0 <= t < stored.messages.deep_view().len() ==> stored0.messages.contains(
                    #[trigger] stored.messages.deep_view()[t],
                ) || decode_spec(stored.messages.deep_view()[t].message) is Ok,
        decreases n_msgs - k,
    {
        proof {
            assert(enc_msgs.take(k + 1 as int).drop_last() =~= enc_msgs.take(k as int));
            assert(enc_msgs.take(k + 1 as int).last() == encode_msg_view(
                delta.messages.deep_view()[k as int],
            ));
        }
        let m = &delta.messages[k];
        let em = DtkChatMessage {
            sender_id: m.sender_id.clone(),
            date: m.date.clone(),
            message: encode_chat_text(m.message.as_str()),
        };
        assert(em@ == encode_msg_view(m@));
        assert(decode_spec(em@.message) is Ok);
        if !contains_message(&stored.messages, &em) {
            let ghost before = stored.messages.deep_view();
            let ghost em_view = em@;
            stored.messages.push(em);
            proof {
                assert(stored.messages.deep_view() =~= before.push(
                    encode_msg_view(delta.messages.deep_view()[k as int]),
                ));
                assert forall|t: int|
                    0 <= t < stored.messages.deep_view().len() implies stored0.messages.contains(
                    #[trigger] stored.messages.deep_view()[t],
                ) || decode_spec(stored.messages.deep_view()[t].message) is Ok by {
                    if t == before.len() {
                        assert(stored.messages.deep_view()[t] == em_view);
                    } else {
                        assert(stored.messages.deep_view()[t] == before[t]);
                    }
                }
            }
        }
        k += 1;
    }
    proof {
        assert(enc_msgs.take(n_msgs as int) =~= enc_msgs);
    }
}

/// A conversation as it is fetched: every message body decoded.
pub open spec fn decode_chat_view(c: ChatView) -> ChatView {
    ChatView {
        channel_id: c.channel_id,
        last_update: c.last_update,
        users: c.users,
        messages: c.messages.map_values(|m: MessageView| decode_msg_view(m)),
    }
}

/// Copy a participant list field by field.
fn clone_users_vec(users: &Vec<DtkChatUser>) -> (r: Vec<DtkChatUser>)
    ensures
        r@ == users@,
{
    let n = users.len();
    let mut out: Vec<DtkChatUser> = Vec::new();
    let mut i: usize = 0;
    while i < n
        invariant
            0 <= i <= n,
            n == users.len(),
            out@ == users@.take(i as int),
        decreases n - i,
    {
        out.push(clone_user(&users[i]));
        proof {
            assert(out@ =~= users@.take(i + 1 as int));
        }
        i += 1;
    }
    proof {
        assert(users@.take(n as int) =~= users@);
    }
    out
}

/// Decode every message body of a fetched conversation. A failure on any
/// single message is fatal for the whole conversation.
pub fn decode_chat(c: &DtkChat) -> (r: Result<DtkChat, CodecError>)
    ensures
        (r is Ok) == chat_decodes(c@),
        r matches Ok(d) ==> d@ == decode_chat_view(c@),
{
    let ghost dec_msgs = c@.messages.map_values(|m: MessageView| decode_msg_view(m));
    let n = c.messages.len();
    let mut msgs: Vec<DtkChatMessage> = Vec::new();
    let mut i: usize = 0;
    while i < n
        invariant
            0 <= i <= n,
            n == c.messages.len(),
            dec_msgs == c@.messages.map_values(|m: MessageView| decode_msg_view(m)),
            msgs.deep_view() == dec_msgs.take(i as int),
            forall|j: int| 0 <= j < i ==> decode_spec(#[trigger] c@.messages[j].message) is Ok,
        decreases n - i,
    {
        let m = &c.messages[i];
        match decode_chat_text(m.message.as_str()) {
            Ok(text) => {
                let dm = DtkChatMessage {
                    sender_id: m.sender_id.clone(),
                    date: m.date.clone(),
                    message: text,
                };
                assert(dm@ == decode_msg_view(c@.messages[i as int]));
                let ghost before = msgs.deep_view();
                let ghost dm_view = dm@;
                msgs.push(dm);
                proof {
                    assert(msgs.deep_view() =~= before.push(dm_view));
                    assert(dec_msgs[i as int] == decode_msg_view(c@.messages[i as int]));
                    assert(msgs.deep_view() =~= dec_msgs.take(i as int + 1));
                }
            },
            Err(e) => {
                assert(decode_spec(c@.messages[i as int].message) is Err);
                return Err(e);
            },
        }
        i += 1;
    }
    proof {
        assert(dec_msgs.take(n as int) =~= dec_msgs);
    }
    Ok(
        DtkChat {
            channel_id: c.channel_id.clone(),
            last_update: c.last_update.clone(),
            users: clone_users_vec(&c.users),
            messages: msgs,
        },
    )
}

/// Whether the conversation has a participant with this id.
pub open spec fn chat_matches(c: ChatView, id: Seq<char>) -> bool {
    has_user_id(c.users, id)
}

/// The conversations that apply to a participant, in stored order, each with
/// its message bodies decoded.
pub open spec fn fetch_matches(chats: Seq<ChatView>, id: Seq<char>) -> Seq<ChatView>
    decreases chats.len(),
{
    if chats.len() == 0 {
        Seq::empty()
    } else {
        let prev = fetch_matches(chats.drop_last(), id);
        if chat_matches(chats.last(), id) {
            prev.push(decode_chat_view(chats.last()))
        } else {
            prev
        }
    }
}

/// Ordered by `last_update` descending.
pub open spec fn sorted_by_update_desc(s: Seq<ChatView>) -> bool {
    forall|i: int, j: int|
        #![trigger s[i], s[j]]
        0 <= i < j < s.len() ==> chars_le(s[j].last_update, s[i].last_update)
}

/// The position of a conversation whose `last_update` is maximal.
fn index_of_max_update(v: &Vec<DtkChat>) -> (m: usize)
    requires
        v@.len() > 0,
    ensures
        m < v@.len(),
        forall|k: int|
            0 <= k < v@.len() ==> chars_le(
                #[trigger] v.deep_view()[k].last_update,
                v.deep_view()[m as int].last_update,
            ),
{
    let n = v.len();
    let mut m: usize = 0;
    let mut i: usize = 1;
    proof {
        lemma_chars_le_total(v.deep_view()[0].last_update, v.deep_view()[0].last_update);
    }
    while i < n
        invariant
            1 <= i <= n,
            m < i,
            n == v@.len(),
            forall|k: int|
                0 <= k < i ==> chars_le(
                    #[trigger] v.deep_view()[k].last_update,
                    v.deep_view()[m as int].last_update,
                ),
        decreases n - i,
    {
        if !str_le(v[i].last_update.as_str(), v[m].last_update.as_str()) {
            proof {
                lemma_chars_le_total(
                    v.deep_view()[i as int].last_update,
                    v.deep_view()[m as int].last_update,
                );
                assert forall|k: int| 0 <= k < i implies chars_le(
                    v.deep_view()[k].last_update,
                    v.deep_view()[i as int].last_update,
                ) by {
                    lemma_chars_le_trans(
                        v.deep_view()[k].last_update,
                        v.deep_view()[m as int].last_update,
                        v.deep_view()[i as int].last_update,
                    );
                }
                lemma_chars_le_total(
                    v.deep_view()[i as int].last_update,
                    v.deep_view()[i as int].last_update,
                );
            }
            m = i;
        }
        i += 1;
    }
    m
}

/// Order conversations by `last_update` descending; the result is a
/// permutation of the input.
fn sort_chats_desc(input: Vec<DtkChat>) -> (r: Vec<DtkChat>)
    ensures
        r.deep_view().to_multiset() == input.deep_view().to_multiset(),
        sorted_by_update_desc(r.deep_view()),
{
    broadcast use vstd::seq_lib::group_to_multiset_ensures, vstd::multiset::group_multiset_axioms;

    let ghost orig = input.deep_view().to_multiset();
    let mut rest = input;
    let mut result: Vec<DtkChat> = Vec::new();
    proof {
        assert(result.deep_view() =~= Seq::<ChatView>::empty());
        assert(result.deep_view().to_multiset().add(rest.deep_view().to_multiset()) =~= orig);
    }
    while rest.len() > 0
        invariant
            result.deep_view().to_multiset().add(rest.deep_view().to_multiset()) == orig,
            sorted_by_update_desc(result.deep_view()),
            forall|a: int, b: int|
                #![trigger result.deep_view()[a], rest.deep_view()[b]]
                0 <= a < result.deep_view().len() && 0 <= b < rest.deep_view().len()
                    ==> chars_le(
                    rest.deep_view()[b].last_update,
                    result.deep_view()[a].last_update,
                ),
        decreases rest.len(),
    {
        let m = index_of_max_update(&rest);
        let ghost rest_before = rest.deep_view();
        let ghost result_before = result.deep_view();
        let x = rest.remove(m);
        let ghost x_view = x@;
        proof {
            assert(rest.deep_view() =~= rest_before.remove(m as int));
            assert(x_view == rest_before[m as int]);
        }
        result.push(x);
        proof {
            assert(result.deep_view() =~= result_before.push(x_view));
            assert(rest_before.contains(rest_before[m as int]));
            vstd::seq_lib::to_multiset_contains(rest_before, x_view);
            vstd::seq_lib::to_multiset_remove(rest_before, m as int);
            vstd::seq_lib::to_multiset_build(result_before, x_view);
            assert(rest_before.to_multiset().count(x_view) > 0);
            assert(result.deep_view().to_multiset().add(rest.deep_view().to_multiset())
                =~= orig);
            assert forall|b: int| 0 <= b < rest.deep_view().len() implies chars_le(
                rest.deep_view()[b].last_update,
                x_view.last_update,
            ) by {
                if b < m {
                    assert(rest.deep_view()[b] == rest_before[b]);
                } else {
                    assert(rest.deep_view()[b] == rest_before[b + 1]);
                }
            }
            assert forall|a: int, b: int|
                0 <= a < result.deep_view().len() && 0 <= b < rest.deep_view().len()
                    implies chars_le(
                rest.deep_view()[b].last_update,
                result.deep_view()[a].last_update,
            ) by {
                if a < result_before.len() {
                    assert(result.deep_view()[a] == result_before[a]);
                    if b < m {
                        assert(rest.deep_view()[b] == rest_before[b]);
                    } else {
                        assert(rest.deep_view()[b] == rest_before[b + 1]);
                    }
                } else {
                    assert(result.deep_view()[a] == x_view);
                }
            }
            assert forall|a: int, b: int|
                0 <= a < b < result.deep_view().len() implies chars_le(
                result.deep_view()[b].last_update,
                result.deep_view()[a].last_update,
            ) by {
                assert(result.deep_view()[a] == result_before[a]);
                if b < result_before.len() {
                    assert(result.deep_view()[b] == result_before[b]);
                } else {
                    assert(result.deep_view()[b] == x_view);
                    assert(rest_before[m as int] == x_view);
                    assert(chars_le(rest_before[m as int].last_update, result_before[a].last_update));
                }
            }
        }
    }
    result
}

/// The in-memory conversation collection; each element stands for one
/// persisted document.
#[derive(Debug)]
pub struct ChatStore {
    pub chats: Vec<DtkChat>,
}

impl View for ChatStore {
    type V = Seq<ChatView>;

    open spec fn view(&self) -> Seq<ChatView> {
        self.chats.deep_view()
    }
}

/// `channel_id` is the unique upsert key: no two documents share one.
pub open spec fn channel_ids_unique(chats: Seq<ChatView>) -> bool {
    forall|i: int, j: int|
        0 <= i < j < chats.len() ==> chats[i].channel_id != chats[j].channel_id
}

/// Whether some stored document carries this `channel_id`.
pub open spec fn has_channel(chats: Seq<ChatView>, channel_id: Seq<char>) -> bool {
    exists|i: int| 0 <= i < chats.len() && chats[i].channel_id == channel_id
}

/// The store after a merge-upsert of `delta`: the document with the same
/// `channel_id` is merged in place, or a fresh document is appended.
pub open spec fn store_after_append(chats: Seq<ChatView>, delta: ChatView) -> Seq<ChatView> {
    if has_channel(chats, delta.channel_id) {
        let i = choose|i: int| 0 <= i < chats.len() && chats[i].channel_id == delta.channel_id;
        chats.update(i, merge_chat_view(chats[i], delta))
    } else {
        chats.push(new_doc_view(delta))
    }
}

impl ChatStore {
    /// Every stored document's message bodies are valid envelopes, and the
    /// upsert keys are unique.
    pub open spec fn wf(self) -> bool {
        &&& channel_ids_unique(self@)
        &&& forall|i: int| 0 <= i < self@.len() ==> chat_decodes(#[trigger] self@[i])
    }

    /// An empty store.
    pub fn new() -> (r: ChatStore)
        ensures
            r@ == Seq::<ChatView>::empty(),
            r.wf(),
    {
        let r = ChatStore { chats: Vec::new() };
        proof {
            assert(r@ =~= Seq::<ChatView>::empty());
        }
        r
    }

    /// The index of the document keyed by `channel_id`, if any.
    fn find_channel(&self, channel_id: &String) -> (r: Option<usize>)
        ensures
            match r {
                Some(i) => i < self@.len() && self@[i as int].channel_id == channel_id@,
                None => forall|i: int| 0 <= i < self@.len() ==> self@[i].channel_id != channel_id@,
            },
    {
        let n = self.chats.len();
        let mut i: usize = 0;
        while i < n
            invariant
                0 <= i <= n,
                n == self.chats.len(),
                forall|j: int| 0 <= j < i ==> self@[j].channel_id != channel_id@,
            decreases n - i,
        {
            if self.chats[i].channel_id == *channel_id {
                assert(self@[i as int].channel_id == channel_id@);
                return Some(i);
            }
            i += 1;
        }
        None
    }

    /// Merge-upsert a conversation delta, keyed on `channel_id`. A delta with
    /// an empty `channel_id` or an empty participant set is rejected before
    /// anything is written; anything else succeeds and leaves the store as
    /// `store_after_append` describes.
    pub fn append(&mut self, conversation: &DtkChat) -> (r: Result<(), ChatStoreError>)
        requires
            old(self).wf(),
        ensures
            final(self).wf(),
            (r is Err) == (conversation@.channel_id.len() == 0 || conversation@.users.len() == 0),
            r matches Err(e) ==> e == ChatStoreError::InvalidConversation && final(self)@ == old(
                self,
            )@,
            r is Ok ==> final(self)@ == store_after_append(old(self)@, conversation@),
    {
        if conversation.channel_id.unicode_len() == 0 || conversation.users.len() == 0 {
            return Err(ChatStoreError::InvalidConversation);
        }
        let ghost chats0 = self@;
        let ghost delta = conversation@;
        match self.find_channel(&conversation.channel_id) {
            Some(i) => {
                let mut doc = self.chats.remove(i);
                let ghost stored = doc@;
                merge_into(&mut doc, conversation);
                proof {
                    assert forall|t: int|
                        0 <= t < doc@.messages.len() implies decode_spec(
                        #[trigger] doc@.messages[t].message,
                    ) is Ok by {
                        if stored.messages.contains(doc@.messages[t]) {
                            let w = choose|w: int|
                                0 <= w < stored.messages.len() && stored.messages[w]
                                    == doc@.messages[t];
                            assert(chat_decodes(chats0[i as int]));
                            assert(decode_spec(stored.messages[w].message) is Ok);
                        }
                    }
                }
                self.chats.insert(i, doc);
                proof {
                    assert(self@ =~= chats0.update(i as int, merge_chat_view(chats0[i as int], delta)));
                    let w = choose|w: int|
                        0 <= w < chats0.len() && chats0[w].channel_id == delta.channel_id;
                    assert(w == i);
                }
                Ok(())
            },
            None => {
                let mut doc = DtkChat {
                    channel_id: conversation.channel_id.clone(),
                    last_update: conversation.last_update.clone(),
                    users: Vec::new(),
                    messages: Vec::new(),
                };
                proof {
                    assert(doc@.users =~= Seq::<UserView>::empty());
                    assert(doc@.messages =~= Seq::<MessageView>::empty());
                }
                let ghost empty_doc = doc@;
                merge_into(&mut doc, conversation);
                proof {
                    assert forall|t: int|
                        0 <= t < doc@.messages.len() implies decode_spec(
                        #[trigger] doc@.messages[t].message,
                    ) is Ok by {
                        assert(!empty_doc.messages.contains(doc@.messages[t]));
                    }
                }
                self.chats.push(doc);
                proof {
                    assert(self@ =~= chats0.push(new_doc_view(delta)));
                }
                Ok(())
            },
        }
    }

    /// All conversations containing the participant, ordered by
    /// `last_update` descending, every message body decoded. On a well
    /// formed store the fetch always succeeds; a decode failure on any
    /// single message would abort the whole fetch.
    pub fn fetch_for_participant(&self, participant_id: &str) -> (r: Result<
        Vec<DtkChat>,
        CodecError,
    >)
        requires
            self.wf(),
        ensures
            r is Ok,
            r matches Ok(v) ==> v.deep_view().to_multiset() == fetch_matches(
                self@,
                participant_id@,
            ).to_multiset() && sorted_by_update_desc(v.deep_view()),
    {
        let pid = participant_id.to_owned();
        let n = self.chats.len();
        let mut found: Vec<DtkChat> = Vec::new();
        proof {
            assert(found.deep_view() =~= fetch_matches(self@.take(0), pid@));
        }
        let mut i: usize = 0;
        while i < n
            invariant
                0 <= i <= n,
                n == self.chats.len(),
                self.wf(),
                pid@ == participant_id@,
                found.deep_view() == fetch_matches(self@.take(i as int), pid@),
            decreases n - i,
        {
            proof {
                assert(self@.take(i as int + 1).drop_last() =~= self@.take(i as int));
                assert(self@.take(i as int + 1).last() == self@[i as int]);
            }
            if contains_user_id(&self.chats[i].users, &pid) {
                assert(chat_matches(self@[i as int], pid@));
                match decode_chat(&self.chats[i]) {
                    Ok(d) => {
                        let ghost before = found.deep_view();
                        let ghost d_view = d@;
                        found.push(d);
                        proof {
                            assert(found.deep_view() =~= before.push(d_view));
                        }
                    },
                    Err(_) => {
                        // Unreachable: a well formed store decodes cleanly.
                        proof {
                            assert(chat_decodes(self@[i as int]));
                            assert(false);
                        }
                        return Err(CodecError::FormatError);
                    },
                }
            } else {
                assert(!chat_matches(self@[i as int], pid@));
            }
            i += 1;
        }
        proof {
            assert(self@.take(n as int) =~= self@);
        }
        let sorted = sort_chats_desc(found);
        Ok(sorted)
    }
}

/// Pushing an element keeps every element that was contained.
proof fn lemma_contains_after_push<T>(s: Seq<T>, v: T, x: T)
    ensures
        s.contains(x) ==> s.push(v).contains(x),
        s.push(v).contains(v),
        s.push(v).contains(x) ==> s.contains(x) || x == v,
{
    if s.contains(x) {
        let i = choose|i: int| 0 <= i < s.len() && s[i] == x;
        assert(s.push(v)[i] == x);
    }
    assert(s.push(v)[s.len() as int] == v);
    if s.push(v).contains(x) {
        let i = choose|i: int| 0 <= i < s.push(v).len() && s.push(v)[i] == x;
        if i < s.len() {
            assert(s[i] == x);
        }
    }
}

/// Every incoming participant is contained in the set-union append.
proof fn lemma_add_to_set_users_has_incoming(stored: Seq<UserView>, incoming: Seq<UserView>)
    ensures
        forall|j: int|
            0 <= j < incoming.len() ==> add_to_set_users(stored, incoming).contains(
                #[trigger] incoming[j],
            ),
    decreases incoming.len(),
{
    if incoming.len() == 0 {
    } else {
        lemma_add_to_set_users_has_incoming(stored, incoming.drop_last());
        let prev = add_to_set_users(stored, incoming.drop_last());
        let whole = add_to_set_users(stored, incoming);
        assert forall|j: int| 0 <= j < incoming.len() implies whole.contains(
            incoming[j],
        ) by {
            if j < incoming.len() - 1 {
                assert(incoming.drop_last()[j] == incoming[j]);
                assert(prev.contains(incoming[j]));
                lemma_contains_after_push(prev, incoming.last(), incoming[j]);
            } else {
                assert(incoming[j] == incoming.last());
                if !prev.contains(incoming.last()) {
                    lemma_contains_after_push(prev, incoming.last(), incoming.last());
                }
            }
        }
    }
}

/// Appending participants that are all already present changes nothing.
proof fn lemma_add_to_set_users_absorbed(stored: Seq<UserView>, incoming: Seq<UserView>)
    requires
        forall|j: int| 0 <= j < incoming.len() ==> stored.contains(#[trigger] incoming[j]),
    ensures
        add_to_set_users(stored, incoming) == stored,
    decreases incoming.len(),
{
    if incoming.len() == 0 {
    } else {
        assert forall|j: int| 0 <= j < incoming.drop_last().len() implies stored.contains(
            #[trigger] incoming.drop_last()[j],
        ) by {
            assert(incoming.drop_last()[j] == incoming[j]);
        }
        lemma_add_to_set_users_absorbed(stored, incoming.drop_last());
        assert(incoming[incoming.len() - 1] == incoming.last());
        assert(stored.contains(incoming.last()));
    }
}

/// Law: the participant merge is idempotent. Appending the same participant
/// list a second time leaves the stored set exactly as the first append
/// left it.
pub proof fn lemma_merge_users_idempotent(stored: Seq<UserView>, incoming: Seq<UserView>)
    ensures
        add_to_set_users(add_to_set_users(stored, incoming), incoming) == add_to_set_users(
            stored,
            incoming,
        ),
{
    lemma_add_to_set_users_has_incoming(stored, incoming);
    lemma_add_to_set_users_absorbed(add_to_set_users(stored, incoming), incoming);
}

/// How many stored participants carry the id.
pub open spec fn count_users_with_id(users: Seq<UserView>, id: Seq<char>) -> int
    decreases users.len(),
{
    if users.len() == 0 {
        0
    } else {
        count_users_with_id(users.drop_last(), id) + if users.last().id == id {
            1int
        } else {
            0int
        }
    }
}

/// With no participant carrying the id, the count for it is zero.
proof fn lemma_count_zero_without_id(users: Seq<UserView>, id: Seq<char>)
    requires
        !has_user_id(users, id),
    ensures
        count_users_with_id(users, id) == 0,
    decreases users.len(),
{
    if users.len() == 0 {
    } else {
        assert forall|i: int| 0 <= i < users.drop_last().len() implies (
        #[trigger] users.drop_last()[i]).id != id by {
            assert(users.drop_last()[i] == users[i]);
        }
        lemma_count_zero_without_id(users.drop_last(), id);
        assert(users[users.len() - 1] == users.last());
    }
}

/// Law: appending the same participant object to a conversation twice
/// leaves the stored participant set with exactly one entry for that id,
/// when no participant carried it before.
pub proof fn lemma_append_same_participant_twice(stored: Seq<UserView>, p: UserView)
    requires
        !has_user_id(stored, p.id),
    ensures
        add_to_set_users(add_to_set_users(stored, seq![p]), seq![p]) == stored.push(p),
        count_users_with_id(
            add_to_set_users(add_to_set_users(stored, seq![p]), seq![p]),
            p.id,
        ) == 1,
{
    let inc = seq![p];
    assert(inc.drop_last() =~= Seq::<UserView>::empty());
    assert(inc.last() == p);
    assert(add_to_set_users(stored, inc.drop_last()) == stored);
    if stored.contains(p) {
        let i = choose|i: int| 0 <= i < stored.len() && stored[i] == p;
        assert(has_user_id(stored, p.id));
    }
    assert(add_to_set_users(stored, inc) == stored.push(p));
    lemma_merge_users_idempotent(stored, inc);
    let merged = stored.push(p);
    assert(merged.drop_last() =~= stored);
    assert(merged.last() == p);
    lemma_count_zero_without_id(stored, p.id);
    assert(count_users_with_id(merged, p.id) == 1);
}

/// Law: appending two messages that differ in `date` but share sender and
/// body yields two distinct stored entries, because the stored record is
/// compared whole and the date drives uniqueness even when the compressed
/// bodies are identical.
pub proof fn lemma_append_messages_additive(stored: Seq<MessageView>, m1: MessageView, m2: MessageView)
    requires
        m1.date != m2.date,
        !stored.contains(encode_msg_view(m1)),
        !stored.contains(encode_msg_view(m2)),
    ensures
        add_to_set_msgs(stored, seq![m1, m2].map_values(|m: MessageView| encode_msg_view(m)))
            == stored.push(encode_msg_view(m1)).push(encode_msg_view(m2)),
{
    let e1 = encode_msg_view(m1);
    let e2 = encode_msg_view(m2);
    let enc = seq![m1, m2].map_values(|m: MessageView| encode_msg_view(m));
    assert(enc =~= seq![e1, e2]);
    assert(enc.drop_last() =~= seq![e1]);
    assert(enc.last() == e2);
    assert(seq![e1].drop_last() =~= Seq::<MessageView>::empty());
    assert(seq![e1].last() == e1);
    assert(add_to_set_msgs(stored, seq![e1].drop_last()) == stored);
    assert(add_to_set_msgs(stored, seq![e1]) == stored.push(e1));
    assert(e1.date == m1.date && e2.date == m2.date);
    lemma_contains_after_push(stored, e1, e2);
    assert(!stored.push(e1).contains(e2));
    assert(add_to_set_msgs(stored, enc) == stored.push(e1).push(e2));
}

} // verus!

