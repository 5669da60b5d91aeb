//! Conversation resolution: decide which conversations apply to a
//! requesting participant, synthesizing a fresh placeholder when none (or
//! only solo placeholders) exist.

use vstd::prelude::*;
use crate::chat_codec::CodecError;
use crate::chat_model::{DtkChat, DtkChatUser, ChatView, UserView};
use crate::chat_store::{ChatStore, fetch_matches, sorted_by_update_desc};

verus! {

/// Whether the conversation, once participant `id` is excluded, has no other
/// party.
pub open spec fn chat_is_solo(c: ChatView, id: Seq<char>) -> bool {
    forall|i: int| 0 <= i < c.users.len() ==> (#[trigger] c.users[i]).id == id
}

/// Whether every fetched conversation is a solo placeholder for `id`.
pub open spec fn all_solo(chats: Seq<ChatView>, id: Seq<char>) -> bool {
    forall|i: int| 0 <= i < chats.len() ==> chat_is_solo(#[trigger] chats[i], id)
}

/// A freshly synthesized conversation for `p`: keyed by the participant's
/// id, holding exactly that participant and no messages.
pub open spec fn is_fresh_chat_for(c: ChatView, p: UserView) -> bool {
    c.channel_id == p.id && c.users == seq![p] && c.messages.len() == 0
}

/// The resolution rules, relating the fetched list to the returned one:
/// an empty fetch yields one fresh conversation; a fetch of solo
/// placeholders only is kept and a fresh conversation is appended; any other
/// fetch is returned unchanged.
pub open spec fn resolve_post(fetched: Seq<ChatView>, result: Seq<ChatView>, p: UserView) -> bool {
    if fetched.len() == 0 {
        result.len() == 1 && is_fresh_chat_for(result[0], p)
    } else if all_solo(fetched, p.id) {
        &&& result.len() == fetched.len() + 1
        &&& result.take(fetched.len() as int) == fetched
        &&& is_fresh_chat_for(result[fetched.len() as int], p)
    } else {
        result == fetched
    }
}

/// Whether the conversation holds no participant other than `id`.
fn chat_is_solo_exec(c: &DtkChat, id: &String) -> (r: bool)
    ensures
        r == chat_is_solo(c@, id@),
{
    let n = c.users.len();
    let mut i: usize = 0;
    while i < n
        invariant
            0 <= i <= n,
            n == c.users.len(),
            forall|j: int| 0 <= j < i ==> (#[trigger] c@.users[j]).id == id@,
        decreases n - i,
    {
        if !(c.users[i].id == *id) {
            assert(c@.users[i as int].id != id@);
            return false;
        }
        i += 1;
    }
    true
}

/// Synthesize the fresh placeholder conversation for a participant.
fn fresh_chat_for(participant: DtkChatUser) -> (r: DtkChat)
    ensures
        is_fresh_chat_for(r@, participant@),
{
    let ghost p = participant@;
    let mut fresh = DtkChat::new(participant.id.clone());
    fresh.add_user(participant);
    proof {
        assert(fresh@.users =~= seq![p]);
    }
    fresh
}

/// Apply the resolution rules to an already fetched list.
pub fn resolve_with(fetched: Vec<DtkChat>, participant: DtkChatUser) -> (r: Vec<DtkChat>)
    ensures
        resolve_post(fetched.deep_view(), r.deep_view(), participant@),
{
    let ghost f = fetched.deep_view();
    let ghost p = participant@;
    let n = fetched.len();
    if n == 0 {
        let fresh = fresh_chat_for(participant);
        let ghost fresh_view = fresh@;
        let mut out: Vec<DtkChat> = Vec::new();
        out.push(fresh);
        proof {
            assert(out.deep_view() =~= seq![fresh_view]);
        }
        return out;
    }
    let mut solo_only = true;
    let mut i: usize = 0;
    while i < n
        invariant
            0 <= i <= n,
            n == fetched.len(),
            f == fetched.deep_view(),
            p == participant@,
            solo_only == (forall|j: int| 0 <= j < i ==> chat_is_solo(#[trigger] f[j], p.id)),
        decreases n - i,
    {
        if !chat_is_solo_exec(&fetched[i], &participant.id) {
            assert(!chat_is_solo(f[i as int], p.id));
            solo_only = false;
        }
        i += 1;
    }
    let mut out = fetched;
    if solo_only {
        let fresh = fresh_chat_for(participant);
        let ghost fresh_view = fresh@;
        out.push(fresh);
        proof {
            assert(out.deep_view() =~= f.push(fresh_view));
            assert(out.deep_view().take(f.len() as int) =~= f);
        }
    }
    out
}

/// Resolution against a store: fetch every conversation containing the
/// participant, then apply the resolution rules to the fetched list. The
/// synthesized placeholder, if any, is not persisted here.
pub fn resolve(store: &ChatStore, participant: DtkChatUser) -> (r: Result<Vec<DtkChat>, CodecError>)
    requires
        store.wf(),
    ensures
        r is Ok,
        r matches Ok(v) ==> exists|f: Seq<ChatView>|
            {
                &&& #[trigger] f.to_multiset() == fetch_matches(
                    store@,
                    participant@.id,
                ).to_multiset()
                &&& sorted_by_update_desc(f)
                &&& resolve_post(f, v.deep_view(), participant@)
            },
{
    let ghost p = participant@;
    let fetched = match store.fetch_for_participant(participant.id.as_str()) {
        Ok(v) => v,
        Err(e) => {
            return Err(e);
        },
    };
    let ghost f = fetched.deep_view();
    let out = resolve_with(fetched, participant);
    proof {
        assert(f.to_multiset() == fetch_matches(store@, p.id).to_multiset());
        assert(resolve_post(f, out.deep_view(), p));
    }
    Ok(out)
}

} // verus!
