//! Per-connection handler state.
//!
//! One value of [`State`] accompanies each accepted game socket: who
//! the client said it is, whether the daemon believes it is online,
//! which topics the game subscribed to, and which kinds of rows have
//! pending local changes. The socket itself and the durable store live
//! with the caller; this is the part the handler's decisions read and
//! write.
use vstd::prelude::*;

verus! {

/// The mutable state of one connection handler.
pub struct State {
    pub is_online: bool,
    pub client_identified: bool,
    pub client_id: Option<String>,
    pub client_secret: Option<String>,
    pub updated_achievements: bool,
    pub updated_stats: bool,
    pub updated_leaderboards: bool,
    pub db_opened: bool,
    pub subscribed_topics: Vec<String>,
    pub overlay_listener_path: Option<String>,
}

/// The state after the identification step of an auth request: the
/// first request's ids stick, later ones change nothing.
pub open spec fn spec_auth_identify(s: State, client_id: String, client_secret: String) -> State {
    if s.client_identified {
        s
    } else {
        State {
            client_identified: true,
            client_id: Some(client_id),
            client_secret: Some(client_secret),
            ..s
        }
    }
}

/// Whether a topic list holds the given topic text.
pub open spec fn has_topic(topics: Seq<String>, topic: Seq<char>) -> bool {
    exists|i: int| 0 <= i < topics.len() && (#[trigger] topics[i])@ == topic
}

/// The state once the gameplay database is known to be open.
pub open spec fn spec_mark_db_opened(s: State) -> State {
    State { db_opened: true, ..s }
}

/// Repeating an auth request with the same client does not move the
/// state: identification and database opening converge after the
/// first request.
pub proof fn lemma_auth_identify_idempotent(s: State, client_id: String, client_secret: String)
    ensures
        spec_auth_identify(spec_auth_identify(s, client_id, client_secret), client_id, client_secret)
            == spec_auth_identify(s, client_id, client_secret),
        spec_mark_db_opened(spec_mark_db_opened(s)) == spec_mark_db_opened(s),
{
}

impl State {
    /// The state of a fresh connection: offline, unidentified, no
    /// pending achievement or statistic changes; leaderboards start
    /// marked so the first sync pass looks at them.
    pub fn new() -> (r: State)
        ensures
            !r.is_online,
            !r.client_identified,
            r.client_id is None,
            r.client_secret is None,
            !r.updated_achievements,
            !r.updated_stats,
            r.updated_leaderboards,
            !r.db_opened,
            r.subscribed_topics@ == Seq::<String>::empty(),
            r.overlay_listener_path is None,
    {
        State {
            is_online: false,
            client_identified: false,
            client_id: None,
            client_secret: None,
            updated_achievements: false,
            updated_stats: false,
            updated_leaderboards: true,
            db_opened: false,
            subscribed_topics: Vec::new(),
            overlay_listener_path: None,
        }
    }

    /// Record who the client is, on its first auth request only.
    pub fn identify_client(&mut self, client_id: String, client_secret: String)
        ensures
            *final(self) == spec_auth_identify(*old(self), client_id, client_secret),
    {
        if !self.client_identified {
            self.client_identified = true;
            self.client_id = Some(client_id);
            self.client_secret = Some(client_secret);
        }
    }

    /// Note that the gameplay database is open; says whether this call
    /// was the one that opened it.
    pub fn mark_db_opened(&mut self) -> (first: bool)
        ensures
            *final(self) == spec_mark_db_opened(*old(self)),
            first == !old(self).db_opened,
    {
        let first = !self.db_opened;
        self.db_opened = true;
        first
    }

    /// Believe the remote service reachable.
    pub fn set_online(&mut self)
        ensures
            *final(self) == (State { is_online: true, ..*old(self) }),
    {
        self.is_online = true;
    }

    /// Believe the remote service unreachable.
    pub fn set_offline(&mut self)
        ensures
            *final(self) == (State { is_online: false, ..*old(self) }),
    {
        self.is_online = false;
    }

    /// Raise or lower the pending-achievements flag.
    pub fn set_updated_achievements(&mut self, value: bool)
        ensures
            *final(self) == (State { updated_achievements: value, ..*old(self) }),
    {
        self.updated_achievements = value;
    }

    /// Raise or lower the pending-statistics flag.
    pub fn set_updated_stats(&mut self, value: bool)
        ensures
            *final(self) == (State { updated_stats: value, ..*old(self) }),
    {
        self.updated_stats = value;
    }

    /// Raise or lower the pending-leaderboards flag.
    pub fn set_updated_leaderboards(&mut self, value: bool)
        ensures
            *final(self) == (State { updated_leaderboards: value, ..*old(self) }),
    {
        self.updated_leaderboards = value;
    }

    /// Remember the overlay endpoint name for this game session.
    pub fn set_overlay_listener(&mut self, path: String)
        ensures
            *final(self) == (State { overlay_listener_path: Some(path), ..*old(self) }),
    {
        self.overlay_listener_path = Some(path);
    }

    /// Whether the game asked for this topic.
    pub fn is_subscribed(&self, topic: &String) -> (r: bool)
        ensures
            r == has_topic(self.subscribed_topics@, topic@),
    {
        let mut i: usize = 0;
        while i < self.subscribed_topics.len()
            invariant
                0 <= i <= self.subscribed_topics.len(),
                forall|j: int| 0 <= j < i ==> (#[trigger] self.subscribed_topics@[j])@ != topic@,
            decreases self.subscribed_topics.len() - i,
        {
            if self.subscribed_topics[i].eq(topic) {
                return true;
            }
            i += 1;
        }
        false
    }

    /// Record a topic subscription; asking again for a topic already
    /// recorded changes nothing.
    pub fn subscribe_topic(&mut self, topic: String)
        ensures
            has_topic(final(self).subscribed_topics@, topic@),
            has_topic(old(self).subscribed_topics@, topic@) ==> final(self).subscribed_topics@
                == old(self).subscribed_topics@,
            !has_topic(old(self).subscribed_topics@, topic@) ==> final(self).subscribed_topics@
                == old(self).subscribed_topics@.push(topic),
            *final(self) == (State {
                subscribed_topics: final(self).subscribed_topics,
                ..*old(self)
            }),
    {
        if !self.is_subscribed(&topic) {
            let ghost pre = self.subscribed_topics@;
            self.subscribed_topics.push(topic);
            proof {
                assert(self.subscribed_topics@[pre.len() as int]@ == topic@);
            }
        }
    }
}

} // verus!
