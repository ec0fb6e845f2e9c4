use vstd::prelude::*;

verus! {

/// A remote endpoint: the peer's IP address (IPv4 addresses mapped into
/// IPv6 space) and its port.
#[derive(Clone, Copy, Debug, PartialEq, Eq, Structural)]
pub struct Endpoint {
    pub ip: u128,
    pub port: u16,
}

/// Policy knobs of the coordinator. Durations are in milliseconds.
#[derive(Clone, Copy, Debug, PartialEq, Eq, Structural)]
pub struct Config {
    /// How long a ban lasts.
    pub ban_duration: u64,
    /// Minimum time between two accepted messages of one session.
    pub rate_interval: u64,
    /// Number of consecutive strikes that bans the peer's IP.
    pub strike_limit: u32,
}

/// Default ban duration: ten minutes.
pub const BAN_DURATION_MS: u64 = 600000;
/// Default pacing interval: one second.
pub const RATE_INTERVAL_MS: u64 = 1000;
/// Default number of strikes that bans.
pub const STRIKE_LIMIT: u32 = 10;

impl Config {
    /// The default policy: ten-minute bans, one message per second, ban on
    /// the tenth strike.
    pub fn standard() -> (r: Config)
        ensures
            r.ban_duration == BAN_DURATION_MS,
            r.rate_interval == RATE_INTERVAL_MS,
            r.strike_limit == STRIKE_LIMIT,
    {
        Config {
            ban_duration: BAN_DURATION_MS,
            rate_interval: RATE_INTERVAL_MS,
            strike_limit: STRIKE_LIMIT,
        }
    }
}

/// The coordinator's record of one connected peer.
#[derive(Clone, Copy, Debug, PartialEq, Eq, Structural)]
pub struct Session {
    pub endpoint: Endpoint,
    /// Time of the last accepted message, in milliseconds. A fresh session
    /// starts twice the rate interval before its connection time, which may
    /// lie before the epoch.
    pub last_message_at: i128,
    pub strike_count: u32,
    pub authenticated: bool,
}

/// A line of the outbound text protocol.
#[derive(Clone, Debug, PartialEq, Eq)]
pub enum Reply {
    /// Asks a fresh session for the token.
    TokenPrompt,
    /// Tells a banned peer how many whole seconds (rounded up) remain.
    BannedFor { secs: u64 },
    /// Tells a peer that it has just been banned.
    Banned,
    /// Greets a session that sent the right token.
    Welcome,
    /// Tells a session that its token was wrong.
    InvalidToken,
    /// A chat line relayed verbatim from another session.
    Chat(String),
}

/// What the transport layer must do after an event.
#[derive(Clone, Debug, PartialEq, Eq)]
pub enum Action {
    /// Write a reply to the connection of an endpoint.
    Send { to: Endpoint, reply: Reply },
    /// Shut down the connection of an endpoint.
    Close { to: Endpoint },
}

/// Time passed from `then` to `now`; a clock that went backwards counts as
/// no time at all.
pub open spec fn elapsed(then: int, now: int) -> int {
    if now >= then {
        now - then
    } else {
        0
    }
}

/// `n / d` rounded up.
pub open spec fn ceil_div(n: int, d: int) -> int {
    if n % d == 0 {
        n / d
    } else {
        n / d + 1
    }
}

/// The session created for `e` on a connection at `now`.
pub open spec fn fresh_session(e: Endpoint, now: u64, cfg: Config) -> Session {
    Session {
        endpoint: e,
        last_message_at: (now - 2 * cfg.rate_interval) as i128,
        strike_count: 0,
        authenticated: false,
    }
}

/// Whether a message at `now` keeps the session's pace.
pub open spec fn paced(s: Session, now: u64, cfg: Config) -> bool {
    elapsed(s.last_message_at as int, now as int) >= cfg.rate_interval
}

/// No two sessions share an endpoint.
pub open spec fn distinct_endpoints(s: Seq<Session>) -> bool {
    forall|i: int, j: int|
        0 <= i < s.len() && 0 <= j < s.len() && i != j ==> #[trigger] s[i].endpoint
            != #[trigger] s[j].endpoint
}

/// Whether some session has endpoint `e`.
pub open spec fn has_endpoint(s: Seq<Session>, e: Endpoint) -> bool {
    exists|i: int| 0 <= i < s.len() && #[trigger] s[i].endpoint == e
}

/// The position of the session of `e`, if there is one.
pub open spec fn index_of(s: Seq<Session>, e: Endpoint) -> int {
    choose|i: int| 0 <= i < s.len() && #[trigger] s[i].endpoint == e
}

/// The session of `e`, if there is one.
pub open spec fn lookup(s: Seq<Session>, e: Endpoint) -> Option<Session> {
    if has_endpoint(s, e) {
        Some(s[index_of(s, e)])
    } else {
        None
    }
}

/// The chat lines that a message `text` of `sender` produces: one for each
/// other authenticated session, in the order of `sessions`.
pub open spec fn broadcast(sessions: Seq<Session>, sender: Endpoint, text: String) -> Seq<Action>
    decreases sessions.len(),
{
    if sessions.len() == 0 {
        seq![]
    } else {
        let rest = broadcast(sessions.drop_last(), sender, text);
        let s = sessions.last();
        if s.authenticated && s.endpoint != sender {
            rest.push(Action::Send { to: s.endpoint, reply: Reply::Chat(text) })
        } else {
            rest
        }
    }
}

/// A session's time lies in the range that connections and messages can
/// give it, and it has fewer strikes than the limit (or none).
pub open spec fn session_ok(s: Session, cfg: Config) -> bool {
    &&& -2 * u64::MAX <= s.last_message_at <= u64::MAX
    &&& (s.strike_count == 0 || s.strike_count < cfg.strike_limit)
}

/// The coordinator's whole state, as a mathematical value.
pub struct ServerView {
    pub sessions: Seq<Session>,
    pub bans: Map<u128, u64>,
    pub token: Seq<char>,
    pub config: Config,
}

impl ServerView {
    /// Sessions have distinct endpoints, and each is within bounds.
    pub open spec fn wf(self) -> bool {
        &&& distinct_endpoints(self.sessions)
        &&& forall|i: int|
            0 <= i < self.sessions.len() ==> session_ok(#[trigger] self.sessions[i], self.config)
    }

    pub open spec fn session_for(self, e: Endpoint) -> Option<Session> {
        lookup(self.sessions, e)
    }

    /// Whether `ip` is under a ban at `now`.
    pub open spec fn ban_active(self, ip: u128, now: u64) -> bool {
        self.bans.contains_key(ip) && elapsed(self.bans[ip] as int, now as int)
            < self.config.ban_duration
    }

    /// Whole seconds, rounded up, that remain of the ban on `ip` at `now`.
    pub open spec fn secs_left(self, ip: u128, now: u64) -> u64 {
        ceil_div(
            self.config.ban_duration - elapsed(self.bans[ip] as int, now as int),
            1000,
        ) as u64
    }

    /// The state with the session of `e` (which exists) replaced by `s`.
    pub open spec fn with_session(self, e: Endpoint, s: Session) -> ServerView {
        ServerView { sessions: self.sessions.update(index_of(self.sessions, e), s), ..self }
    }

    /// The state with the session of `e` (which exists) removed.
    pub open spec fn without_session(self, e: Endpoint) -> ServerView {
        ServerView { sessions: self.sessions.remove(index_of(self.sessions, e)), ..self }
    }

    /// The effect of a connection from `e` at `now`.
    pub open spec fn connect(self, e: Endpoint, now: u64) -> (ServerView, Seq<Action>) {
        if self.ban_active(e.ip, now) {
            (
                self,
                seq![
                    Action::Send { to: e, reply: Reply::BannedFor { secs: self.secs_left(e.ip, now) } },
                    Action::Close { to: e },
                ],
            )
        } else {
            let fresh = fresh_session(e, now, self.config);
            let sessions = if has_endpoint(self.sessions, e) {
                self.sessions.update(index_of(self.sessions, e), fresh)
            } else {
                self.sessions.push(fresh)
            };
            (
                ServerView { sessions, bans: self.bans.remove(e.ip), ..self },
                seq![Action::Send { to: e, reply: Reply::TokenPrompt }],
            )
        }
    }

    /// The effect of a disconnection of `e`.
    pub open spec fn disconnect(self, e: Endpoint) -> ServerView {
        if has_endpoint(self.sessions, e) {
            self.without_session(e)
        } else {
            self
        }
    }

    /// The effect of a message from `e` at `now`; `text` is the message
    /// decoded as text, or `None` where it is not valid text.
    pub open spec fn message(self, e: Endpoint, text: Option<String>, now: u64) -> (
        ServerView,
        Seq<Action>,
    ) {
        match self.session_for(e) {
            None => (self, seq![]),
            Some(s) => {
                if paced(s, now, self.config) && text is Some {
                    let t = text->0;
                    let kept = Session { last_message_at: now as i128, strike_count: 0, ..s };
                    if s.authenticated {
                        (self.with_session(e, kept), broadcast(self.sessions, e, t))
                    } else if t@ == self.token {
                        (
                            self.with_session(e, Session { authenticated: true, ..kept }),
                            seq![Action::Send { to: e, reply: Reply::Welcome }],
                        )
                    } else {
                        (
                            self.without_session(e),
                            seq![
                                Action::Send { to: e, reply: Reply::InvalidToken },
                                Action::Close { to: e },
                            ],
                        )
                    }
                } else if s.strike_count + 1 >= self.config.strike_limit {
                    (
                        ServerView { bans: self.bans.insert(e.ip, now), ..self.without_session(e) },
                        seq![Action::Send { to: e, reply: Reply::Banned }, Action::Close { to: e }],
                    )
                } else {
                    (
                        self.with_session(e, Session { strike_count: (s.strike_count + 1) as u32, ..s }),
                        seq![],
                    )
                }
            },
        }
    }
}

} // verus!
