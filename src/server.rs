use std::collections::HashMap;
use vstd::prelude::*;
use crate::model::{
    Action, Config, Endpoint, Reply, ServerView, Session, broadcast, distinct_endpoints,
    has_endpoint, index_of, fresh_session, session_ok,
};
use crate::text::{decode_utf8, utf8_text};
use crate::table::{lemma_lookup_at, lemma_lookup_push, lemma_lookup_remove, lemma_lookup_update};

verus! {

broadcast use vstd::std_specs::hash::group_hash_axioms;

proof fn lemma_wf_update(pre: ServerView, i: int, s: Session)
    requires
        pre.wf(),
        0 <= i < pre.sessions.len(),
        s.endpoint == pre.sessions[i].endpoint,
        session_ok(s, pre.config),
    ensures
        (ServerView { sessions: pre.sessions.update(i, s), ..pre }).wf(),
{
    lemma_lookup_update(pre.sessions, i, s, s.endpoint);
    let t = pre.sessions.update(i, s);
    assert forall|j: int| 0 <= j < t.len() implies session_ok(#[trigger] t[j], pre.config) by {
        if j != i {
            assert(t[j] == pre.sessions[j]);
        }
    }
}

proof fn lemma_wf_push(pre: ServerView, s: Session)
    requires
        pre.wf(),
        !has_endpoint(pre.sessions, s.endpoint),
        session_ok(s, pre.config),
    ensures
        (ServerView { sessions: pre.sessions.push(s), ..pre }).wf(),
{
    lemma_lookup_push(pre.sessions, s, s.endpoint);
    let t = pre.sessions.push(s);
    assert forall|j: int| 0 <= j < t.len() implies session_ok(#[trigger] t[j], pre.config) by {
        if j < pre.sessions.len() {
            assert(t[j] == pre.sessions[j]);
        }
    }
}

proof fn lemma_wf_remove(pre: ServerView, i: int)
    requires
        pre.wf(),
        0 <= i < pre.sessions.len(),
    ensures
        (ServerView { sessions: pre.sessions.remove(i), ..pre }).wf(),
{
    lemma_lookup_remove(pre.sessions, i, pre.sessions[i].endpoint);
    let t = pre.sessions.remove(i);
    assert forall|j: int| 0 <= j < t.len() implies session_ok(#[trigger] t[j], pre.config) by {
        if j < i {
            assert(t[j] == pre.sessions[j]);
        } else {
            assert(t[j] == pre.sessions[j + 1]);
        }
    }
}

/// The session coordinator: the sole owner of all sessions and bans.
pub struct Server {
    sessions: Vec<Session>,
    bans: HashMap<u128, u64>,
    token: String,
    config: Config,
}

impl View for Server {
    type V = ServerView;

    closed spec fn view(&self) -> ServerView {
        ServerView {
            sessions: self.sessions@,
            bans: self.bans@,
            token: self.token@,
            config: self.config,
        }
    }
}

impl Server {
    /// A coordinator with no sessions and no bans that admits `token`.
    pub fn from_token(token: String, config: Config) -> (r: Server)
        ensures
            r@.wf(),
            r@.sessions == Seq::<Session>::empty(),
            r@.bans == Map::<u128, u64>::empty(),
            r@.token == token@,
            r@.config == config,
    {
        let r = Server { sessions: Vec::new(), bans: HashMap::new(), token, config };
        assert(r@.bans =~= Map::<u128, u64>::empty());
        r
    }

    /// The position of the session of `e`.
    fn find(&self, e: Endpoint) -> (r: Option<usize>)
        ensures
            match r {
                Some(i) => i < self.sessions@.len() && self.sessions@[i as int].endpoint == e,
                None => !has_endpoint(self.sessions@, e),
            },
    {
        let mut i: usize = 0;
        while i < self.sessions.len()
            invariant
                i <= self.sessions@.len(),
                forall|j: int| 0 <= j < i ==> #[trigger] self.sessions@[j].endpoint != e,
            decreases self.sessions@.len() - i,
        {
            if self.sessions[i].endpoint == e {
                return Some(i);
            }
            i += 1;
        }
        None
    }

    /// Handles a new connection from `e` at time `now` (milliseconds).
    ///
    /// A peer whose IP is under a ban is told how long the ban lasts and
    /// is closed; the ban keeps its original start. Otherwise an expired
    /// ban of the IP is dropped, a fresh session replaces any session of
    /// `e`, and the peer is asked for the token.
    pub fn client_connected(&mut self, e: Endpoint, now: u64) -> (actions: Vec<Action>)
        requires
            old(self)@.wf(),
        ensures
            final(self)@.wf(),
            final(self)@ == old(self)@.connect(e, now).0,
            actions@ == old(self)@.connect(e, now).1,
    {
        let ghost pre = self@;
        let ip = e.ip;
        let banned_at: Option<u64> = match self.bans.get(&ip) {
            Some(at) => Some(*at),
            None => None,
        };
        if let Some(at) = banned_at {
            let since: u64 = if now >= at {
                now - at
            } else {
                0
            };
            if since < self.config.ban_duration {
                let remaining: u64 = self.config.ban_duration - since;
                let secs: u64 = if remaining % 1000 == 0 {
                    remaining / 1000
                } else {
                    remaining / 1000 + 1
                };
                let mut actions: Vec<Action> = Vec::new();
                actions.push(Action::Send { to: e, reply: Reply::BannedFor { secs } });
                actions.push(Action::Close { to: e });
                assert(actions@ =~= pre.connect(e, now).1);
                return actions;
            }
        }
        self.bans.remove(&ip);
        let fresh = Session {
            endpoint: e,
            last_message_at: now as i128 - 2 * (self.config.rate_interval as i128),
            strike_count: 0,
            authenticated: false,
        };
        assert(fresh == fresh_session(e, now, pre.config));
        match self.find(e) {
            Some(i) => {
                proof {
                    lemma_lookup_at(pre.sessions, i as int);
                    lemma_lookup_update(pre.sessions, i as int, fresh, e);
                    lemma_wf_update(pre, i as int, fresh);
                }
                self.sessions.set(i, fresh);
            },
            None => {
                proof {
                    lemma_lookup_push(pre.sessions, fresh, e);
                    lemma_wf_push(pre, fresh);
                }
                self.sessions.push(fresh);
            },
        }
        let mut actions: Vec<Action> = Vec::new();
        actions.push(Action::Send { to: e, reply: Reply::TokenPrompt });
        assert(self.bans@ =~= pre.bans.remove(ip));
        assert(actions@ =~= pre.connect(e, now).1);
        actions
    }

    /// Handles the disconnection of `e`: its session, if any, is removed.
    pub fn client_disconnected(&mut self, e: Endpoint)
        requires
            old(self)@.wf(),
        ensures
            final(self)@.wf(),
            final(self)@ == old(self)@.disconnect(e),
    {
        let ghost pre = self@;
        if let Some(i) = self.find(e) {
            proof {
                lemma_lookup_at(pre.sessions, i as int);
                lemma_lookup_remove(pre.sessions, i as int, e);
                lemma_wf_remove(pre, i as int);
            }
            self.sessions.remove(i);
        }
    }

    /// The chat lines for a message `text` of `sender`, one for each other
    /// authenticated session, in session order.
    fn broadcast_lines(&self, sender: Endpoint, text: &String) -> (actions: Vec<Action>)
        ensures
            actions@ == broadcast(self.sessions@, sender, *text),
    {
        let mut actions: Vec<Action> = Vec::new();
        let mut i: usize = 0;
        while i < self.sessions.len()
            invariant
                i <= self.sessions@.len(),
                actions@ == broadcast(self.sessions@.take(i as int), sender, *text),
            decreases self.sessions@.len() - i,
        {
            let s = self.sessions[i];
            assert(self.sessions@.take(i + 1).drop_last() =~= self.sessions@.take(i as int));
            if s.authenticated && s.endpoint != sender {
                actions.push(Action::Send { to: s.endpoint, reply: Reply::Chat(text.clone()) });
            }
            i += 1;
        }
        assert(self.sessions@.take(i as int) =~= self.sessions@);
        actions
    }

    /// Handles a message of `e` at time `now` (milliseconds), where `text`
    /// is the message decoded as text, or `None` where it is not valid
    /// text.
    ///
    /// A paced, valid message clears the strikes and restarts the pacing
    /// clock. From an authenticated session it goes to every other
    /// authenticated session; from another it is checked against the
    /// token: a match authenticates the session, anything else ends it. An
    /// unpaced or invalid message is a strike; reaching the strike limit
    /// bans the IP and ends the session. A message of an unknown endpoint
    /// is ignored.
    pub fn handle_message(&mut self, e: Endpoint, text: Option<String>, now: u64) -> (actions: Vec<Action>)
        requires
            old(self)@.wf(),
        ensures
            final(self)@.wf(),
            final(self)@ == old(self)@.message(e, text, now).0,
            actions@ == old(self)@.message(e, text, now).1,
    {
        let ghost pre = self@;
        let i = match self.find(e) {
            Some(i) => i,
            None => {
                return Vec::new();
            },
        };
        proof {
            lemma_lookup_at(pre.sessions, i as int);
        }
        let s = self.sessions[i];
        let now_i: i128 = now as i128;
        let since: i128 = if now_i >= s.last_message_at {
            now_i - s.last_message_at
        } else {
            0
        };
        let paced = since >= self.config.rate_interval as i128;
        let mut actions: Vec<Action> = Vec::new();
        if paced && text.is_some() {
            let t = text.unwrap();
            let kept = Session { last_message_at: now_i, strike_count: 0, ..s };
            if s.authenticated {
                actions = self.broadcast_lines(e, &t);
                proof {
                    lemma_wf_update(pre, i as int, kept);
                }
                self.sessions.set(i, kept);
            } else if t == self.token {
                let authed = Session { authenticated: true, ..kept };
                proof {
                    lemma_wf_update(pre, i as int, authed);
                }
                self.sessions.set(i, authed);
                actions.push(Action::Send { to: e, reply: Reply::Welcome });
            } else {
                proof {
                    lemma_wf_remove(pre, i as int);
                }
                self.sessions.remove(i);
                actions.push(Action::Send { to: e, reply: Reply::InvalidToken });
                actions.push(Action::Close { to: e });
            }
        } else if s.strike_count + 1 >= self.config.strike_limit {
            proof {
                lemma_wf_remove(pre, i as int);
            }
            self.sessions.remove(i);
            self.bans.insert(e.ip, now);
            actions.push(Action::Send { to: e, reply: Reply::Banned });
            actions.push(Action::Close { to: e });
            assert(self.bans@ =~= pre.bans.insert(e.ip, now));
        } else {
            let struck = Session { strike_count: s.strike_count + 1, ..s };
            proof {
                lemma_wf_update(pre, i as int, struck);
            }
            self.sessions.set(i, struck);
        }
        assert(actions@ =~= pre.message(e, text, now).1);
        actions
    }

    /// Handles the raw bytes of a message of `e` at time `now`
    /// (milliseconds): they are decoded as UTF-8 and handled as in
    /// `handle_message`, with `None` where they are not valid UTF-8.
    pub fn new_message(&mut self, e: Endpoint, bytes: Vec<u8>, now: u64) -> (actions: Vec<Action>)
        requires
            old(self)@.wf(),
        ensures
            final(self)@.wf(),
            utf8_text(bytes@) is None ==> final(self)@ == old(self)@.message(e, None, now).0
                && actions@ == old(self)@.message(e, None, now).1,
            utf8_text(bytes@) is Some ==> exists|t: String|
                Some(t@) == utf8_text(bytes@) && final(self)@ == old(self)@.message(
                    e,
                    Some(t),
                    now,
                ).0 && #[trigger] old(self)@.message(e, Some(t), now).1 == actions@,
    {
        let text = decode_utf8(bytes);
        self.handle_message(e, text, now)
    }

    /// The session of `e`, if there is one.
    pub fn session(&self, e: Endpoint) -> (r: Option<Session>)
        requires
            self@.wf(),
        ensures
            r == self@.session_for(e),
    {
        match self.find(e) {
            Some(i) => {
                proof {
                    lemma_lookup_at(self.sessions@, i as int);
                }
                Some(self.sessions[i])
            },
            None => None,
        }
    }

    /// When the ban of `ip` was imposed, if there is a ban record for it.
    pub fn banned_at(&self, ip: u128) -> (r: Option<u64>)
        ensures
            r == if self@.bans.contains_key(ip) {
                Some(self@.bans[ip])
            } else {
                None
            },
    {
        match self.bans.get(&ip) {
            Some(at) => Some(*at),
            None => None,
        }
    }

    /// The number of live sessions.
    pub fn session_count(&self) -> (r: usize)
        ensures
            r == self@.sessions.len(),
    {
        self.sessions.len()
    }

    /// The policy this coordinator enforces.
    pub fn config(&self) -> (r: Config)
        ensures
            r == self@.config,
    {
        self.config
    }
}

} // verus!
