//! Properties of the coordinator that hold across all its events.
use vstd::prelude::*;
use crate::model::{
    Action, Endpoint, Reply, ServerView, Session, broadcast, fresh_session, has_endpoint,
    index_of, paced, session_ok,
};
use crate::table::{lemma_lookup_at, lemma_lookup_push, lemma_lookup_remove, lemma_lookup_update};

verus! {

proof fn lemma_with_session(v: ServerView, e: Endpoint, s: Session, x: Endpoint)
    requires
        v.wf(),
        has_endpoint(v.sessions, e),
        s.endpoint == e,
        session_ok(s, v.config),
    ensures
        v.with_session(e, s).wf(),
        v.with_session(e, s).session_for(x) == if x == e {
            Some(s)
        } else {
            v.session_for(x)
        },
{
    let i = index_of(v.sessions, e);
    lemma_lookup_update(v.sessions, i, s, x);
    let t = v.sessions.update(i, s);
    assert forall|j: int| 0 <= j < t.len() implies session_ok(#[trigger] t[j], v.config) by {
        if j != i {
            assert(t[j] == v.sessions[j]);
        }
    }
}

proof fn lemma_without_session(v: ServerView, e: Endpoint, x: Endpoint)
    requires
        v.wf(),
        has_endpoint(v.sessions, e),
    ensures
        v.without_session(e).wf(),
        v.without_session(e).session_for(x) == if x == e {
            None
        } else {
            v.session_for(x)
        },
{
    let i = index_of(v.sessions, e);
    lemma_lookup_remove(v.sessions, i, x);
    let t = v.sessions.remove(i);
    assert forall|j: int| 0 <= j < t.len() implies session_ok(#[trigger] t[j], v.config) by {
        if j < i {
            assert(t[j] == v.sessions[j]);
        } else {
            assert(t[j] == v.sessions[j + 1]);
        }
    }
}

proof fn lemma_connect_sessions(v: ServerView, e: Endpoint, now: u64, x: Endpoint)
    requires
        v.wf(),
        !v.ban_active(e.ip, now),
    ensures
        v.connect(e, now).0.wf(),
        v.connect(e, now).0.session_for(x) == if x == e {
            Some(fresh_session(e, now, v.config))
        } else {
            v.session_for(x)
        },
{
    let f = fresh_session(e, now, v.config);
    if has_endpoint(v.sessions, e) {
        lemma_with_session(v, e, f, x);
    } else {
        lemma_lookup_push(v.sessions, f, x);
        let t = v.sessions.push(f);
        assert forall|j: int| 0 <= j < t.len() implies session_ok(#[trigger] t[j], v.config) by {
            if j < v.sessions.len() {
                assert(t[j] == v.sessions[j]);
            }
        }
    }
}

/// Every event keeps at most one session per endpoint (and every other
/// part of well-formedness), so no two sessions ever share an endpoint.
pub proof fn one_session_per_endpoint(v: ServerView, e: Endpoint, text: Option<String>, now: u64)
    requires
        v.wf(),
    ensures
        v.connect(e, now).0.wf(),
        v.disconnect(e).wf(),
        v.message(e, text, now).0.wf(),
        forall|i: int, j: int|
            0 <= i < j < v.sessions.len() ==> v.sessions[i].endpoint != v.sessions[j].endpoint,
{
    if !v.ban_active(e.ip, now) {
        lemma_connect_sessions(v, e, now, e);
    }
    if has_endpoint(v.sessions, e) {
        lemma_without_session(v, e, e);
        let s = v.sessions[index_of(v.sessions, e)];
        lemma_lookup_at(v.sessions, index_of(v.sessions, e));
        let kept = Session { last_message_at: now as i128, strike_count: 0, ..s };
        lemma_with_session(v, e, kept, e);
        lemma_with_session(v, e, Session { authenticated: true, ..kept }, e);
        if s.strike_count + 1 < v.config.strike_limit {
            lemma_with_session(v, e, Session { strike_count: (s.strike_count + 1) as u32, ..s }, e);
        }
    }
}

/// A ban is honored exactly while it is active: a connection from a
/// banned IP is told the time left and closed, with no session created
/// and the ban left as it was; any other connection drops the IP's
/// expired ban, if any, and gets a fresh session and the token prompt.
pub proof fn ban_honored_while_active(v: ServerView, e: Endpoint, now: u64, x: Endpoint)
    requires
        v.wf(),
    ensures
        v.ban_active(e.ip, now) ==> {
            let (n, acts) = v.connect(e, now);
            &&& n == v
            &&& acts == seq![
                Action::Send { to: e, reply: Reply::BannedFor { secs: v.secs_left(e.ip, now) } },
                Action::Close { to: e },
            ]
        },
        !v.ban_active(e.ip, now) ==> {
            let (n, acts) = v.connect(e, now);
            &&& !n.bans.contains_key(e.ip)
            &&& n.session_for(e) == Some(fresh_session(e, now, v.config))
            &&& x != e ==> n.session_for(x) == v.session_for(x)
            &&& acts == seq![Action::Send { to: e, reply: Reply::TokenPrompt }]
        },
{
    if !v.ban_active(e.ip, now) {
        lemma_connect_sessions(v, e, now, e);
        lemma_connect_sessions(v, e, now, x);
    }
}

/// An authenticated session stays authenticated for as long as it exists.
/// A connection event for the session's own endpoint replaces the session
/// by a fresh one and is left out.
pub proof fn authentication_is_kept(
    v: ServerView,
    e: Endpoint,
    x: Endpoint,
    text: Option<String>,
    now: u64,
)
    requires
        v.wf(),
        v.session_for(x) matches Some(s) && s.authenticated,
    ensures
        x != e ==> (v.connect(e, now).0.session_for(x) matches Some(s) && s.authenticated),
        v.disconnect(e).session_for(x) matches Some(s) ==> s.authenticated,
        v.message(e, text, now).0.session_for(x) matches Some(s) ==> s.authenticated,
{
    if x != e && !v.ban_active(e.ip, now) {
        lemma_connect_sessions(v, e, now, x);
    }
    if has_endpoint(v.sessions, e) {
        lemma_without_session(v, e, x);
        let s = v.sessions[index_of(v.sessions, e)];
        lemma_lookup_at(v.sessions, index_of(v.sessions, e));
        let kept = Session { last_message_at: now as i128, strike_count: 0, ..s };
        lemma_with_session(v, e, kept, x);
        lemma_with_session(v, e, Session { authenticated: true, ..kept }, x);
        if s.strike_count + 1 < v.config.strike_limit {
            lemma_with_session(v, e, Session { strike_count: (s.strike_count + 1) as u32, ..s }, x);
        }
    }
}

proof fn lemma_broadcast_index(s: Seq<Session>, sender: Endpoint, text: String, r: Endpoint)
    ensures
        forall|k: int|
            0 <= k < broadcast(s, sender, text).len() ==> (#[trigger] broadcast(s, sender, text)[k]
                is Send && broadcast(s, sender, text)[k]->reply == Reply::Chat(text)),
        (exists|k: int|
            0 <= k < broadcast(s, sender, text).len() && #[trigger] broadcast(s, sender, text)[k]
                == Action::Send { to: r, reply: Reply::Chat(text) }) <==> (exists|i: int|
            0 <= i < s.len() && #[trigger] s[i].endpoint == r && s[i].authenticated && r
                != sender),
    decreases s.len(),
{
    if s.len() > 0 {
        let p = s.drop_last();
        lemma_broadcast_index(p, sender, text, r);
        let b = broadcast(s, sender, text);
        let bp = broadcast(p, sender, text);
        let m = Action::Send { to: r, reply: Reply::Chat(text) };
        if exists|i: int| 0 <= i < s.len() && #[trigger] s[i].endpoint == r && s[i].authenticated && r != sender {
            let i = choose|i: int| 0 <= i < s.len() && #[trigger] s[i].endpoint == r && s[i].authenticated && r != sender;
            if i < p.len() {
                assert(p[i] == s[i]);
                let k = choose|k: int| 0 <= k < bp.len() && #[trigger] bp[k] == m;
                assert(b[k] == m);
            } else {
                assert(b[b.len() - 1] == m);
            }
        }
        if exists|k: int| 0 <= k < b.len() && #[trigger] b[k] == m {
            let k = choose|k: int| 0 <= k < b.len() && #[trigger] b[k] == m;
            if k < bp.len() {
                assert(bp[k] == m);
                let i = choose|i: int| 0 <= i < p.len() && #[trigger] p[i].endpoint == r && p[i].authenticated && r != sender;
                assert(s[i] == p[i]);
            } else {
                assert(s[s.len() - 1].endpoint == r);
            }
        }
    }
}

/// A message of an authenticated sender that keeps its pace and is valid
/// text reaches a recipient exactly when the recipient has an
/// authenticated session and is not the sender; every line it produces is
/// that text.
pub proof fn broadcast_reaches_exactly(
    v: ServerView,
    sender: Endpoint,
    text: String,
    now: u64,
    r: Endpoint,
)
    requires
        v.wf(),
        v.session_for(sender) matches Some(s) && s.authenticated && paced(s, now, v.config),
    ensures
        ({
            let acts = v.message(sender, Some(text), now).1;
            &&& forall|k: int|
                0 <= k < acts.len() ==> (#[trigger] acts[k] is Send && acts[k]->reply == Reply::Chat(
                    text,
                ))
            &&& (exists|k: int|
                0 <= k < acts.len() && #[trigger] acts[k] == Action::Send {
                    to: r,
                    reply: Reply::Chat(text),
                }) <==> (v.session_for(r) matches Some(t) && t.authenticated && r != sender)
        }),
{
    lemma_broadcast_index(v.sessions, sender, text, r);
    if has_endpoint(v.sessions, r) {
        lemma_lookup_at(v.sessions, index_of(v.sessions, r));
        if exists|i: int| 0 <= i < v.sessions.len() && #[trigger] v.sessions[i].endpoint == r && v.sessions[i].authenticated && r != sender {
            let i = choose|i: int| 0 <= i < v.sessions.len() && #[trigger] v.sessions[i].endpoint == r && v.sessions[i].authenticated && r != sender;
            lemma_lookup_at(v.sessions, i);
        }
    }
}

/// The exact token as the first message of a fresh session authenticates
/// it without a strike; any other first text ends the session, with no
/// strike and no ban.
pub proof fn first_message_decides_authentication(
    v: ServerView,
    e: Endpoint,
    connected_at: u64,
    text: String,
    now: u64,
)
    requires
        v.wf(),
        !v.ban_active(e.ip, connected_at),
        connected_at <= now,
    ensures
        ({
            let c = v.connect(e, connected_at).0;
            let (n, acts) = c.message(e, Some(text), now);
            &&& text@ == v.token ==> n.session_for(e) == Some(
                Session {
                    endpoint: e,
                    last_message_at: now as i128,
                    strike_count: 0,
                    authenticated: true,
                },
            ) && acts == seq![Action::Send { to: e, reply: Reply::Welcome }]
            &&& text@ != v.token ==> n.session_for(e) is None && n.bans == c.bans && acts
                == seq![Action::Send { to: e, reply: Reply::InvalidToken }, Action::Close { to: e }]
        }),
{
    lemma_connect_sessions(v, e, connected_at, e);
    let c = v.connect(e, connected_at).0;
    let f = fresh_session(e, connected_at, v.config);
    assert(paced(f, now, v.config));
    lemma_lookup_at(c.sessions, index_of(c.sessions, e));
    let kept = Session { last_message_at: now as i128, strike_count: 0, ..f };
    lemma_with_session(c, e, Session { authenticated: true, ..kept }, e);
    lemma_without_session(c, e, e);
}

/// A message that keeps its pace and is valid text clears the strikes;
/// any other message adds one, and the strike that reaches the limit bans
/// the IP at that time and ends the session, whichever rule was broken.
pub proof fn strike_rule(v: ServerView, e: Endpoint, text: Option<String>, now: u64)
    requires
        v.wf(),
        v.session_for(e) is Some,
    ensures
        ({
            let s = v.session_for(e)->0;
            let (n, acts) = v.message(e, text, now);
            let clean = paced(s, now, v.config) && text is Some;
            &&& clean ==> n.bans == v.bans && (n.session_for(e) matches Some(t) ==> t.strike_count
                == 0)
            &&& !clean && s.strike_count + 1 < v.config.strike_limit ==> n.bans == v.bans
                && n.session_for(e) == Some(
                Session { strike_count: (s.strike_count + 1) as u32, ..s },
            ) && acts == Seq::<Action>::empty()
            &&& !clean && s.strike_count + 1 >= v.config.strike_limit ==> n.session_for(e) is None
                && n.bans == v.bans.insert(e.ip, now) && acts == seq![
                Action::Send { to: e, reply: Reply::Banned },
                Action::Close { to: e },
            ]
        }),
{
    let i = index_of(v.sessions, e);
    lemma_lookup_at(v.sessions, i);
    let s = v.sessions[i];
    lemma_without_session(v, e, e);
    let kept = Session { last_message_at: now as i128, strike_count: 0, ..s };
    lemma_with_session(v, e, kept, e);
    lemma_with_session(v, e, Session { authenticated: true, ..kept }, e);
    if s.strike_count + 1 < v.config.strike_limit {
        lemma_with_session(v, e, Session { strike_count: (s.strike_count + 1) as u32, ..s }, e);
    }
}

} // verus!
