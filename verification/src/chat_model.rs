//! The conversation entities: participants, messages and conversations,
//! together with their mathematical views and invariants.

use vstd::prelude::*;

verus! {

/// Mathematical view of a participant.
pub ghost struct UserView {
    pub id: Seq<char>,
    pub name: Seq<char>,
    pub email: Seq<char>,
}

/// Mathematical view of a message.
pub ghost struct MessageView {
    pub sender_id: Seq<char>,
    pub date: Seq<char>,
    pub message: Seq<char>,
}

/// Mathematical view of a conversation.
pub ghost struct ChatView {
    pub channel_id: Seq<char>,
    pub last_update: Seq<char>,
    pub users: Seq<UserView>,
    pub messages: Seq<MessageView>,
}

/// A chat participant attached to a conversation.
#[derive(Clone, Debug)]
pub struct DtkChatUser {
    pub id: String,
    pub name: String,
    pub email: String,
}

/// A single chat message; `message` holds plain text in memory and a
/// compressed envelope at rest.
#[derive(Clone, Debug)]
pub struct DtkChatMessage {
    pub sender_id: String,
    pub date: String,
    pub message: String,
}

/// A conversation: a durable thread keyed by `channel_id`.
#[derive(Clone, Debug)]
pub struct DtkChat {
    pub channel_id: String,
    pub last_update: String,
    pub users: Vec<DtkChatUser>,
    pub messages: Vec<DtkChatMessage>,
}

/// An application user record.
#[derive(Clone, Debug)]
pub struct DtkUser {
    pub id: String,
    pub email: String,
    pub name: String,
    pub lvl: Vec<String>,
    pub token: String,
}

/// The answer handed back for a chat fetch: the conversations that apply to
/// the requester plus the known users.
#[derive(Clone, Debug)]
pub struct ChatForUsers {
    pub count: u32,
    pub id: String,
    pub chat: Vec<DtkChat>,
    pub users: Vec<DtkChatUser>,
}

impl View for DtkChatUser {
    type V = UserView;

    open spec fn view(&self) -> UserView {
        UserView { id: self.id@, name: self.name@, email: self.email@ }
    }
}

impl DeepView for DtkChatUser {
    type V = UserView;

    open spec fn deep_view(&self) -> UserView {
        self.view()
    }
}

impl View for DtkChatMessage {
    type V = MessageView;

    open spec fn view(&self) -> MessageView {
        MessageView { sender_id: self.sender_id@, date: self.date@, message: self.message@ }
    }
}

impl DeepView for DtkChatMessage {
    type V = MessageView;

    open spec fn deep_view(&self) -> MessageView {
        self.view()
    }
}

impl View for DtkChat {
    type V = ChatView;

    open spec fn view(&self) -> ChatView {
        ChatView {
            channel_id: self.channel_id@,
            last_update: self.last_update@,
            users: self.users.deep_view(),
            messages: self.messages.deep_view(),
        }
    }
}

impl DeepView for DtkChat {
    type V = ChatView;

    open spec fn deep_view(&self) -> ChatView {
        self.view()
    }
}

impl PartialEq for DtkChatUser {
    fn eq(&self, other: &DtkChatUser) -> (r: bool) {
        self.id == other.id && self.name == other.name && self.email == other.email
    }
}

impl vstd::std_specs::cmp::PartialEqSpecImpl for DtkChatUser {
    open spec fn obeys_eq_spec() -> bool {
        true
    }

    open spec fn eq_spec(&self, other: &DtkChatUser) -> bool {
        self@ == other@
    }
}

impl PartialEq for DtkChatMessage {
    fn eq(&self, other: &DtkChatMessage) -> (r: bool) {
        self.sender_id == other.sender_id && self.date == other.date
            && self.message == other.message
    }
}

impl vstd::std_specs::cmp::PartialEqSpecImpl for DtkChatMessage {
    open spec fn obeys_eq_spec() -> bool {
        true
    }

    open spec fn eq_spec(&self, other: &DtkChatMessage) -> bool {
        self@ == other@
    }
}

/// Whether some participant in `users` carries the id `id`.
pub open spec fn has_user_id(users: Seq<UserView>, id: Seq<char>) -> bool {
    exists|i: int| 0 <= i < users.len() && users[i].id == id
}

/// No two participants of the conversation share an id.
pub open spec fn users_unique_by_id(users: Seq<UserView>) -> bool {
    forall|i: int, j: int|
        0 <= i < j < users.len() ==> users[i].id != users[j].id
}

/// Copy a participant field by field.
pub fn clone_user(u: &DtkChatUser) -> (r: DtkChatUser)
    ensures
        r == *u,
{
    DtkChatUser { id: u.id.clone(), name: u.name.clone(), email: u.email.clone() }
}

/// Whether `users` holds a participant with the given id.
pub fn contains_user_id(users: &Vec<DtkChatUser>, id: &String) -> (r: bool)
    ensures
        r == has_user_id(users.deep_view(), id@),
{
    let n = users.len();
    let mut i: usize = 0;
    while i < n
        invariant
            0 <= i <= n,
            n == users.len(),
            forall|j: int| 0 <= j < i ==> users.deep_view()[j].id != id@,
        decreases n - i,
    {
        if users[i].id == *id {
            assert(users.deep_view()[i as int].id == id@);
            return true;
        }
        i += 1;
    }
    false
}

/// Relies on chrono's `Utc::now`: the current wall-clock time, rendered as a
/// string. The value depends on the clock, so nothing is promised of it.
#[verifier::external_body]
fn now_string() -> String {
    chrono::Utc::now().to_string()
}

impl DtkChat {
    /// A conversation is well formed when its participant ids are unique.
    pub open spec fn wf(self) -> bool {
        users_unique_by_id(self@.users)
    }

    /// Construct an empty conversation keyed by `id`, stamped with the
    /// current time as `last_update`.
    pub fn new(id: String) -> (r: DtkChat)
        ensures
            r@.channel_id == id@,
            r@.users.len() == 0,
            r@.messages.len() == 0,
            r.wf(),
    {
        DtkChat {
            channel_id: id,
            last_update: now_string(),
            users: Vec::new(),
            messages: Vec::new(),
        }
    }

    /// Add a participant: a no-op when one with the same id is already
    /// present, an append otherwise.
    pub fn add_user(&mut self, user: DtkChatUser)
        ensures
            final(self)@.channel_id == old(self)@.channel_id,
            final(self)@.last_update == old(self)@.last_update,
            final(self)@.messages == old(self)@.messages,
            final(self)@.users == if has_user_id(old(self)@.users, user@.id) {
                old(self)@.users
            } else {
                old(self)@.users.push(user@)
            },
            old(self).wf() ==> final(self).wf(),
    {
        if !contains_user_id(&self.users, &user.id) {
            self.users.push(user);
        }
    }

    /// Append a message; messages are never deduplicated in memory.
    pub fn add_message(&mut self, message: DtkChatMessage)
        ensures
            final(self)@.channel_id == old(self)@.channel_id,
            final(self)@.last_update == old(self)@.last_update,
            final(self)@.users == old(self)@.users,
            final(self)@.messages == old(self)@.messages.push(message@),
    {
        self.messages.push(message);
    }
}

} // verus!
