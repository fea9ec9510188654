//! Hybrid streaming session manager.
//!
//! A hybrid session binds a primary (media) peer and a secondary (input) peer
//! through a short-lived single-use token.  The manager owns the session table
//! and the token index; the callers own the actual message endpoints and
//! deliver the notifications that the manager's operations hand back.

use vstd::prelude::*;

use crate::mint::mint_identifier;

verus! {

/// Milliseconds after which a session token expires if the input connection
/// has not joined.
pub const TOKEN_EXPIRATION_MS: u64 = 30_000;

/// Milliseconds between runs of the expired-session sweeper.
pub const CLEANUP_INTERVAL_MS: u64 = 10_000;

/// Milliseconds allowed for the input peer connection to establish after the
/// input connection joins.
pub const INPUT_PEER_TIMEOUT_MS: u64 = 30_000;

/// One hybrid streaming session.
///
/// The four endpoint fields record whether the corresponding message endpoint
/// is currently attached; the endpoints themselves live with the caller.
pub struct HybridSession {
    /// Unique session identifier.
    pub id: String,
    /// Token the input connection must present to join; consumed on use.
    pub token: Option<String>,
    /// Instant (milliseconds) at which the token expires.
    pub token_expires_at: u64,
    /// Whether the input connection has joined.
    pub input_connected: bool,
    /// Whether a notification endpoint to the primary side is attached.
    pub primary_notify: bool,
    /// Whether a notification endpoint to the input side is attached.
    pub input_notify: bool,
    /// Whether the input-to-streamer endpoint is attached.
    pub input_to_streamer: bool,
    /// Whether the streamer-to-input endpoint is attached.
    pub streamer_to_input: bool,
    /// Instant (milliseconds) at which the session was created.
    pub created_at: u64,
}

/// Events that propagate between the primary and the input connection.
pub enum SessionEvent {
    /// The primary stream has disconnected.
    PrimaryDisconnected,
    /// The input connection has disconnected.
    InputDisconnected,
    /// The input connection successfully joined.
    InputJoined,
    /// A new reconnection token is available (sent to the primary).
    ReconnectionTokenAvailable(String),
}

/// Messages from the input connection to be forwarded to the streamer.
pub enum InputToStreamerMessage {
    /// Input connection joined.
    Joined,
    /// Signaling payload from the input client.
    Signaling(String),
    /// Input connection disconnected.
    Disconnected,
}

/// Messages from the streamer to be forwarded to the input connection.
pub enum StreamerToInputMessage {
    /// Signaling payload for the input client.
    Signaling(String),
    /// The input peer connection is ready.
    Ready,
}

/// Errors of session operations.
#[derive(Clone, Copy, Debug, PartialEq, Eq, Structural)]
pub enum SessionError {
    /// The session token has expired.
    TokenExpired,
    /// The session token is invalid.
    TokenInvalid,
    /// No session exists for the given token.
    SessionNotFound,
    /// An input connection is already established for this session.
    InputAlreadyConnected,
    /// The primary connection has disconnected.
    PrimaryDisconnected,
    /// The session is being shut down.
    SessionShuttingDown,
}

impl SessionError {
    /// A human-readable description of the error.
    pub fn message(&self) -> (r: &'static str)
        ensures
            r@ == spec_session_error_message(*self),
    {
        match self {
            SessionError::TokenExpired => "Session token has expired",
            SessionError::TokenInvalid => "Invalid session token",
            SessionError::SessionNotFound => "No session found for token",
            SessionError::InputAlreadyConnected => "Input connection already established",
            SessionError::PrimaryDisconnected => "Primary connection has disconnected",
            SessionError::SessionShuttingDown => "Session is shutting down",
        }
    }

    /// The error code the input signaling leg reports.  The leg's vocabulary
    /// has four codes; an error about a session that is going or gone reports
    /// as a session that cannot be found.
    pub fn code(&self) -> (r: &'static str)
        ensures
            r@ == spec_session_error_code(*self),
    {
        match self {
            SessionError::TokenExpired => "TokenExpired",
            SessionError::TokenInvalid => "TokenInvalid",
            SessionError::SessionNotFound => "SessionNotFound",
            SessionError::InputAlreadyConnected => "InputAlreadyConnected",
            SessionError::PrimaryDisconnected => "SessionNotFound",
            SessionError::SessionShuttingDown => "SessionNotFound",
        }
    }
}

/// The human-readable description of each session error.
pub open spec fn spec_session_error_message(e: SessionError) -> Seq<char> {
    match e {
        SessionError::TokenExpired => "Session token has expired"@,
        SessionError::TokenInvalid => "Invalid session token"@,
        SessionError::SessionNotFound => "No session found for token"@,
        SessionError::InputAlreadyConnected => "Input connection already established"@,
        SessionError::PrimaryDisconnected => "Primary connection has disconnected"@,
        SessionError::SessionShuttingDown => "Session is shutting down"@,
    }
}

/// The wire code of each session error, as the input signaling leg reports
/// it.
pub open spec fn spec_session_error_code(e: SessionError) -> Seq<char> {
    match e {
        SessionError::TokenExpired => "TokenExpired"@,
        SessionError::TokenInvalid => "TokenInvalid"@,
        SessionError::SessionNotFound => "SessionNotFound"@,
        SessionError::InputAlreadyConnected => "InputAlreadyConnected"@,
        SessionError::PrimaryDisconnected => "SessionNotFound"@,
        SessionError::SessionShuttingDown => "SessionNotFound"@,
    }
}

/// One token-index entry: a token and the session it belongs to.
pub struct TokenEntry {
    pub token: String,
    pub session_id: String,
}

/// What a successful claim hands to the input connection.
pub struct ClaimGrant {
    /// The identifier of the claimed session.
    pub session_id: String,
    /// Whether an `InputJoined` notification is owed to the primary side.
    pub notify_primary: bool,
}

/// What a registration hands back: the new session and its token.
pub struct Registration {
    pub session_id: String,
    pub token: String,
}

/// What an input disconnect hands back.
pub struct ReconnectOffer {
    /// The freshly minted reconnection token.
    pub new_token: String,
    /// Whether `InputDisconnected` and `ReconnectionTokenAvailable`
    /// notifications are owed to the primary side.
    pub notify_primary: bool,
}

/// What a forced close hands back.
pub struct CloseNotices {
    /// Whether an `InputDisconnected` notification is owed to the primary.
    pub notify_primary: bool,
    /// Whether a `PrimaryDisconnected` notification is owed to the input.
    pub notify_input: bool,
}

/// There is a session with this identifier.
pub open spec fn has_session(s: Seq<HybridSession>, id: Seq<char>) -> bool {
    exists|i: int| 0 <= i < s.len() && (#[trigger] s[i].id@) == id
}

/// The position of the session with this identifier.
pub open spec fn session_at(s: Seq<HybridSession>, id: Seq<char>) -> int {
    choose|i: int| 0 <= i < s.len() && (#[trigger] s[i].id@) == id
}

/// There is an index entry for this token.
pub open spec fn has_entry(t: Seq<TokenEntry>, token: Seq<char>) -> bool {
    exists|j: int| 0 <= j < t.len() && (#[trigger] t[j].token@) == token
}

/// The position of the index entry for this token.
pub open spec fn entry_at(t: Seq<TokenEntry>, token: Seq<char>) -> int {
    choose|j: int| 0 <= j < t.len() && (#[trigger] t[j].token@) == token
}

/// Session identifiers are pairwise distinct.
pub open spec fn session_ids_distinct(s: Seq<HybridSession>) -> bool {
    forall|i: int, j: int|
        0 <= i < j < s.len() ==> (#[trigger] s[i].id@) != (#[trigger] s[j].id@)
}

/// Index tokens are pairwise distinct: the token index is a function.
pub open spec fn index_tokens_distinct(t: Seq<TokenEntry>) -> bool {
    forall|i: int, j: int|
        0 <= i < j < t.len() ==> (#[trigger] t[i].token@) != (#[trigger] t[j].token@)
}

/// A session whose input is connected holds no token.
pub open spec fn connected_sessions_hold_no_token(s: Seq<HybridSession>) -> bool {
    forall|i: int| 0 <= i < s.len() && (#[trigger] s[i].input_connected) ==> s[i].token is None
}

/// Every live session token has an index entry pointing back at its session.
pub open spec fn live_tokens_indexed(s: Seq<HybridSession>, t: Seq<TokenEntry>) -> bool {
    forall|i: int|
        0 <= i < s.len() && (#[trigger] s[i].token) is Some ==> has_entry(t, s[i].token->0@)
            && t[entry_at(t, s[i].token->0@)].session_id@ == s[i].id@
}

/// Every index entry points at a session that exists.
pub open spec fn entries_point_at_sessions(s: Seq<HybridSession>, t: Seq<TokenEntry>) -> bool {
    forall|j: int| 0 <= j < t.len() ==> has_session(s, (#[trigger] t[j].session_id@))
}

/// The session position, if any, that the token index leads to for `token`.
pub open spec fn indexed_session(
    s: Seq<HybridSession>,
    t: Seq<TokenEntry>,
    token: Seq<char>,
) -> Option<int> {
    if has_entry(t, token) && has_session(s, t[entry_at(t, token)].session_id@) {
        Some(session_at(s, t[entry_at(t, token)].session_id@))
    } else {
        None
    }
}

/// The state of a session right after a successful claim.
pub open spec fn claimed(s: HybridSession) -> HybridSession {
    HybridSession { token: None, input_connected: true, streamer_to_input: true, ..s }
}

/// Whether a session is removable by the sweeper: its token was never
/// claimed and has expired.
pub open spec fn expired_unclaimed(s: HybridSession, now: u64) -> bool {
    s.token is Some && now > s.token_expires_at && !s.input_connected
}

/// What a session registered at `now` looks like, up to the identity of its
/// strings.
pub open spec fn is_fresh_session(s: HybridSession, id: Seq<char>, tok: Seq<char>, now: u64) -> bool {
    &&& s.id@ == id
    &&& s.token is Some && s.token->0@ == tok
    &&& s.token_expires_at == now.saturating_add(TOKEN_EXPIRATION_MS)
    &&& !s.input_connected
    &&& !s.primary_notify
    &&& !s.input_notify
    &&& s.input_to_streamer
    &&& !s.streamer_to_input
    &&& s.created_at == now
}

/// What a session looks like right after its input side disconnected and a
/// reconnection token `tok` was minted at `now`.
pub open spec fn is_reconnect_offered(
    s: HybridSession,
    prev: HybridSession,
    tok: Seq<char>,
    now: u64,
) -> bool {
    &&& s.id@ == prev.id@
    &&& s.token is Some && s.token->0@ == tok
    &&& s.token_expires_at == now.saturating_add(TOKEN_EXPIRATION_MS)
    &&& !s.input_connected
    &&& s.primary_notify == prev.primary_notify
    &&& !s.input_notify
    &&& s.input_to_streamer
    &&& !s.streamer_to_input
    &&& s.created_at == prev.created_at
}

/// Manager of hybrid streaming sessions: the session table and the token
/// index.
pub struct SessionManager {
    sessions: Vec<HybridSession>,
    token_index: Vec<TokenEntry>,
}

impl SessionManager {
    /// The session table.
    pub closed spec fn sessions(&self) -> Seq<HybridSession> {
        self.sessions@
    }

    /// The token index.
    pub closed spec fn index(&self) -> Seq<TokenEntry> {
        self.token_index@
    }

    /// Well-formedness of the manager.
    pub open spec fn wf(&self) -> bool {
        &&& session_ids_distinct(self.sessions())
        &&& index_tokens_distinct(self.index())
        &&& connected_sessions_hold_no_token(self.sessions())
        &&& live_tokens_indexed(self.sessions(), self.index())
        &&& entries_point_at_sessions(self.sessions(), self.index())
    }

    /// Create an empty manager.
    pub fn new() -> (r: SessionManager)
        ensures
            r.wf(),
            r.sessions().len() == 0,
            r.index().len() == 0,
    {
        SessionManager { sessions: Vec::new(), token_index: Vec::new() }
    }

    /// Find the position of the session with the given identifier.
    fn find_session(&self, session_id: &String) -> (r: Option<usize>)
        ensures
            match r {
                Some(i) => i < self.sessions().len() && self.sessions()[i as int].id@
                    == session_id@,
                None => !has_session(self.sessions(), session_id@),
            },
    {
        let n = self.sessions.len();
        let mut i: usize = 0;
        while i < n
            invariant
                n == self.sessions@.len(),
                i <= n,
                forall|k: int| 0 <= k < i ==> (#[trigger] self.sessions@[k].id@) != session_id@,
            decreases n - i,
        {
            if self.sessions[i].id == *session_id {
                return Some(i);
            }
            i = i + 1;
        }
        None
    }

    /// Find the position of the index entry for the given token.
    fn find_entry(&self, token: &String) -> (r: Option<usize>)
        ensures
            match r {
                Some(j) => j < self.index().len() && self.index()[j as int].token@ == token@,
                None => !has_entry(self.index(), token@),
            },
    {
        let n = self.token_index.len();
        let mut j: usize = 0;
        while j < n
            invariant
                n == self.token_index@.len(),
                j <= n,
                forall|k: int| 0 <= k < j ==> (#[trigger] self.token_index@[k].token@) != token@,
            decreases n - j,
        {
            if self.token_index[j].token == *token {
                return Some(j);
            }
            j = j + 1;
        }
        None
    }

    /// Number of sessions in the table.
    pub fn session_count(&self) -> (r: usize)
        ensures
            r == self.sessions().len(),
    {
        self.sessions.len()
    }

    /// Whether a session with this identifier exists (the primary still holds
    /// it).
    pub fn is_session_active(&self, session_id: &String) -> (r: bool)
        ensures
            r == has_session(self.sessions(), session_id@),
    {
        self.find_session(session_id).is_some()
    }

    /// The identifier of the session, if it exists.
    pub fn get_session(&self, session_id: &String) -> (r: Option<String>)
        ensures
            match r {
                Some(id) => id@ == session_id@ && has_session(self.sessions(), session_id@),
                None => !has_session(self.sessions(), session_id@),
            },
    {
        match self.find_session(session_id) {
            Some(i) => Some(self.sessions[i].id.clone()),
            None => None,
        }
    }

    /// Whether the input connection has joined the session; false when no
    /// such session exists.
    pub fn is_input_connected(&self, session_id: &String) -> (r: bool)
        requires
            self.wf(),
        ensures
            r == (has_session(self.sessions(), session_id@) && self.sessions()[session_at(
                self.sessions(),
                session_id@,
            )].input_connected),
    {
        match self.find_session(session_id) {
            Some(i) => {
                proof {
                    lemma_session_at_unique(self.sessions(), session_id@, i as int);
                }
                self.sessions[i].input_connected
            },
            None => false,
        }
    }

    /// Whether a message can be forwarded from the streamer to the input
    /// connection: the session exists and its streamer-to-input endpoint is
    /// attached.
    pub fn can_send_to_input(&self, session_id: &String) -> (r: bool)
        requires
            self.wf(),
        ensures
            r == (has_session(self.sessions(), session_id@) && self.sessions()[session_at(
                self.sessions(),
                session_id@,
            )].streamer_to_input),
    {
        match self.find_session(session_id) {
            Some(i) => {
                proof {
                    lemma_session_at_unique(self.sessions(), session_id@, i as int);
                }
                self.sessions[i].streamer_to_input
            },
            None => false,
        }
    }

    /// Attach the notification endpoint of the primary side.
    pub fn set_primary_notify(&mut self, session_id: &String)
        requires
            old(self).wf(),
        ensures
            final(self).wf(),
            final(self).index() == old(self).index(),
            final(self).sessions() == if has_session(old(self).sessions(), session_id@) {
                old(self).sessions().update(
                    session_at(old(self).sessions(), session_id@),
                    HybridSession {
                        primary_notify: true,
                        ..old(self).sessions()[session_at(old(self).sessions(), session_id@)]
                    },
                )
            } else {
                old(self).sessions()
            },
    {
        let found = self.find_session(session_id);
        if let Some(i) = found {
            proof {
                lemma_session_at_unique(self.sessions(), session_id@, i as int);
            }
            let mut s = self.sessions.remove(i);
            s.primary_notify = true;
            self.sessions.insert(i, s);
            proof {
                assert(self.sessions@ =~= old(self).sessions().update(
                    i as int,
                    HybridSession { primary_notify: true, ..old(self).sessions()[i as int] },
                ));
                lemma_wf_after_update_same_core(
                    old(self).sessions(),
                    self.sessions@,
                    self.token_index@,
                );
            }
        }
    }

    /// Attach the notification endpoint of the input side.
    pub fn set_input_notify(&mut self, session_id: &String)
        requires
            old(self).wf(),
        ensures
            final(self).wf(),
            final(self).index() == old(self).index(),
            final(self).sessions() == if has_session(old(self).sessions(), session_id@) {
                old(self).sessions().update(
                    session_at(old(self).sessions(), session_id@),
                    HybridSession {
                        input_notify: true,
                        ..old(self).sessions()[session_at(old(self).sessions(), session_id@)]
                    },
                )
            } else {
                old(self).sessions()
            },
    {
        let found = self.find_session(session_id);
        if let Some(i) = found {
            proof {
                lemma_session_at_unique(self.sessions(), session_id@, i as int);
            }
            let mut s = self.sessions.remove(i);
            s.input_notify = true;
            self.sessions.insert(i, s);
            proof {
                assert(self.sessions@ =~= old(self).sessions().update(
                    i as int,
                    HybridSession { input_notify: true, ..old(self).sessions()[i as int] },
                ));
                lemma_wf_after_update_same_core(
                    old(self).sessions(),
                    self.sessions@,
                    self.token_index@,
                );
            }
        }
    }

    /// Insert a new session under a caller-supplied identifier and token.
    ///
    /// The token expires `TOKEN_EXPIRATION_MS` after `now`.
    pub fn register_with_id(&mut self, session_id: String, token: String, now: u64)
        requires
            old(self).wf(),
            !has_session(old(self).sessions(), session_id@),
            !has_entry(old(self).index(), token@),
        ensures
            final(self).wf(),
            final(self).sessions().len() == old(self).sessions().len() + 1,
            final(self).sessions().drop_last() == old(self).sessions(),
            is_fresh_session(final(self).sessions().last(), session_id@, token@, now),
            final(self).index().len() == old(self).index().len() + 1,
            final(self).index().drop_last() == old(self).index(),
            final(self).index().last().token@ == token@,
            final(self).index().last().session_id@ == session_id@,
    {
        let entry = TokenEntry { token: token.clone(), session_id: session_id.clone() };
        let session = HybridSession {
            id: session_id,
            token: Some(token),
            token_expires_at: now.saturating_add(TOKEN_EXPIRATION_MS),
            input_connected: false,
            primary_notify: false,
            input_notify: false,
            input_to_streamer: true,
            streamer_to_input: false,
            created_at: now,
        };
        self.sessions.push(session);
        self.token_index.push(entry);
        proof {
            let s = self.sessions@;
            let t = self.token_index@;
            assert(s.drop_last() =~= old(self).sessions());
            assert(t.drop_last() =~= old(self).index());
            lemma_wf_after_register(
                old(self).sessions(),
                old(self).index(),
                s.last(),
                t.last(),
            );
        }
    }

    /// Register a new hybrid session: mint a fresh identifier and install the
    /// caller's token.  Returns `None`, leaving the manager unchanged, when
    /// the token is already indexed or the minted identifier collides with an
    /// existing session.
    pub fn register_session(&mut self, token: String, now: u64) -> (r: Option<Registration>)
        requires
            old(self).wf(),
        ensures
            final(self).wf(),
            match r {
                Some(reg) => {
                    &&& reg.token@ == token@
                    &&& !has_session(old(self).sessions(), reg.session_id@)
                    &&& !has_entry(old(self).index(), token@)
                    &&& final(self).sessions().len() == old(self).sessions().len() + 1
                    &&& final(self).sessions().drop_last() == old(self).sessions()
                    &&& is_fresh_session(
                        final(self).sessions().last(),
                        reg.session_id@,
                        token@,
                        now,
                    )
                    &&& final(self).index().len() == old(self).index().len() + 1
                    &&& final(self).index().drop_last() == old(self).index()
                    &&& final(self).index().last().token@ == token@
                    &&& final(self).index().last().session_id@ == reg.session_id@
                },
                None => *final(self) == *old(self),
            },
            has_entry(old(self).index(), token@) ==> r is None,
            (old(self).sessions().len() == 0 && !has_entry(old(self).index(), token@)) ==> r
                is Some,
    {
        if self.find_entry(&token).is_some() {
            return None;
        }
        let session_id = mint_identifier();
        if self.find_session(&session_id).is_some() {
            return None;
        }
        let reg = Registration { session_id: session_id.clone(), token: token.clone() };
        self.register_with_id(session_id, token, now);
        Some(reg)
    }

    /// Attempt to claim a session with the presented token.
    ///
    /// On success the token is consumed — the session's token field is
    /// cleared and the token's index entry is removed — the session is marked
    /// input-connected and its streamer-to-input endpoint is considered
    /// attached; the grant says whether an `InputJoined` notification is owed
    /// to the primary side.  Errors leave the manager unchanged and say
    /// exactly why the claim was refused.
    pub fn claim_session(&mut self, token: &String, now: u64) -> (r: Result<
        ClaimGrant,
        SessionError,
    >)
        requires
            old(self).wf(),
        ensures
            final(self).wf(),
            ({
                let tgt = indexed_session(old(self).sessions(), old(self).index(), token@);
                match r {
                    Ok(grant) => {
                        &&& tgt is Some
                        &&& {
                            let s = old(self).sessions()[tgt->0];
                            &&& s.token is Some && s.token->0@ == token@
                            &&& now <= s.token_expires_at
                            &&& !s.input_connected
                            &&& grant.session_id@ == s.id@
                            &&& grant.notify_primary == s.primary_notify
                            &&& final(self).sessions() == old(self).sessions().update(
                                tgt->0,
                                claimed(s),
                            )
                            &&& final(self).index() == old(self).index().remove(
                                entry_at(old(self).index(), token@),
                            )
                            &&& !has_entry(final(self).index(), token@)
                        }
                    },
                    Err(e) => {
                        &&& final(self).sessions() == old(self).sessions()
                        &&& final(self).index() == old(self).index()
                        &&& match e {
                            SessionError::SessionNotFound => tgt is None || {
                                let s = old(self).sessions()[tgt->0];
                                &&& now <= s.token_expires_at
                                &&& !s.input_connected
                                &&& !(s.token is Some && s.token->0@ == token@)
                            },
                            SessionError::TokenExpired => tgt is Some && now > old(self).sessions()[tgt->0].token_expires_at,
                            SessionError::InputAlreadyConnected => tgt is Some && {
                                let s = old(self).sessions()[tgt->0];
                                now <= s.token_expires_at && s.input_connected
                            },
                            _ => false,
                        }
                    },
                }
            }),
    {
        let entry = self.find_entry(token);
        let j = match entry {
            Some(j) => j,
            None => {
                return Err(SessionError::SessionNotFound);
            },
        };
        proof {
            lemma_entry_at_unique(self.index(), token@, j as int);
        }
        let sid = self.token_index[j].session_id.clone();
        let found = self.find_session(&sid);
        let i = match found {
            Some(i) => i,
            None => {
                return Err(SessionError::SessionNotFound);
            },
        };
        proof {
            lemma_session_at_unique(self.sessions(), sid@, i as int);
        }
        if now > self.sessions[i].token_expires_at {
            return Err(SessionError::TokenExpired);
        }
        if self.sessions[i].input_connected {
            return Err(SessionError::InputAlreadyConnected);
        }
        let token_matches = match &self.sessions[i].token {
            Some(t) => *t == *token,
            None => false,
        };
        if !token_matches {
            return Err(SessionError::SessionNotFound);
        }
        let mut s = self.sessions.remove(i);
        let grant = ClaimGrant { session_id: s.id.clone(), notify_primary: s.primary_notify };
        s.token = None;
        s.input_connected = true;
        s.streamer_to_input = true;
        self.sessions.insert(i, s);
        self.token_index.remove(j);
        proof {
            let pre_s = old(self).sessions();
            let pre_t = old(self).index();
            let post_s = self.sessions@;
            let post_t = self.token_index@;
            assert(post_s =~= pre_s.update(i as int, claimed(pre_s[i as int])));
            assert(post_t == pre_t.remove(j as int));
            assert(index_tokens_distinct(post_t)) by {
                assert forall|a: int, b: int|
                    0 <= a < b < post_t.len() implies (#[trigger] post_t[a].token@) != (
                #[trigger] post_t[b].token@) by {
                    let a0 = if a < j as int { a } else { a + 1 };
                    let b0 = if b < j as int { b } else { b + 1 };
                    assert(pre_t[a0].token@ != pre_t[b0].token@);
                }
            }
            assert(!has_entry(post_t, token@)) by {
                if has_entry(post_t, token@) {
                    let k = choose|k: int|
                        0 <= k < post_t.len() && (#[trigger] post_t[k].token@) == token@;
                    let k0 = if k < j as int { k } else { k + 1 };
                    assert(pre_t[k0].token@ == token@);
                    if k0 < j as int {
                        assert(pre_t[k0].token@ != pre_t[j as int].token@);
                    } else {
                        assert(pre_t[j as int].token@ != pre_t[k0].token@);
                    }
                }
            }
            assert(live_tokens_indexed(post_s, post_t)) by {
                assert forall|k: int|
                    0 <= k < post_s.len() && (#[trigger] post_s[k].token) is Some implies
                    has_entry(post_t, post_s[k].token->0@) && post_t[entry_at(
                    post_t,
                    post_s[k].token->0@,
                )].session_id@ == post_s[k].id@ by {
                    assert(k != i as int);
                    assert(post_s[k] == pre_s[k]);
                    let tok = post_s[k].token->0@;
                    let e0 = entry_at(pre_t, tok);
                    assert(has_entry(pre_t, tok) && pre_t[e0].session_id@ == pre_s[k].id@);
                    assert(tok != token@) by {
                        if tok == token@ {
                            lemma_entry_at_unique(pre_t, token@, j as int);
                            assert(pre_t[j as int].session_id@ == pre_s[k].id@);
                            assert(pre_s[i as int].id@ == pre_t[j as int].session_id@);
                            if k < i as int {
                                assert(pre_s[k].id@ != pre_s[i as int].id@);
                            } else {
                                assert(pre_s[i as int].id@ != pre_s[k].id@);
                            }
                        }
                    }
                    assert(e0 != j as int);
                    let e1 = if e0 < j as int { e0 } else { e0 - 1 };
                    assert(post_t[e1] == pre_t[e0]);
                    lemma_entry_at_unique(post_t, tok, e1);
                }
            }
            assert(entries_point_at_sessions(post_s, post_t)) by {
                assert forall|k: int| 0 <= k < post_t.len() implies has_session(
                    post_s,
                    (#[trigger] post_t[k].session_id@),
                ) by {
                    let k0 = if k < j as int { k } else { k + 1 };
                    assert(post_t[k] == pre_t[k0]);
                    assert(has_session(pre_s, pre_t[k0].session_id@));
                    let w = choose|w: int|
                        0 <= w < pre_s.len() && (#[trigger] pre_s[w].id@)
                            == pre_t[k0].session_id@;
                    assert(post_s[w].id@ == pre_s[w].id@);
                }
            }
        }
        Ok(grant)
    }

    /// The primary stream disconnected: remove the session and every index
    /// entry that points at it.  Returns whether a `PrimaryDisconnected`
    /// notification is owed to the input side.
    pub fn primary_disconnected(&mut self, session_id: &String) -> (r: bool)
        requires
            old(self).wf(),
        ensures
            final(self).wf(),
            !has_session(final(self).sessions(), session_id@),
            forall|j: int|
                0 <= j < final(self).index().len() ==> (#[trigger] final(self).index()[j].session_id@) != session_id@,
            if has_session(old(self).sessions(), session_id@) {
                &&& r == old(self).sessions()[session_at(
                    old(self).sessions(),
                    session_id@,
                )].input_notify
                &&& final(self).sessions() == old(self).sessions().remove(
                    session_at(old(self).sessions(), session_id@),
                )
                &&& final(self).index() == entries_not_of(old(self).index(), session_id@)
            } else {
                &&& r == false
                &&& *final(self) == *old(self)
            },
    {
        match self.close_session(session_id) {
            Some(notices) => notices.notify_input,
            None => false,
        }
    }

    /// Force a session closed: remove it and every index entry that points at
    /// it.  The notices say which notifications are owed to each side.
    pub fn force_close_session(&mut self, session_id: &String) -> (r: Option<CloseNotices>)
        requires
            old(self).wf(),
        ensures
            final(self).wf(),
            !has_session(final(self).sessions(), session_id@),
            forall|j: int|
                0 <= j < final(self).index().len() ==> (#[trigger] final(self).index()[j].session_id@) != session_id@,
            match r {
                Some(notices) => {
                    &&& has_session(old(self).sessions(), session_id@)
                    &&& notices.notify_primary == old(self).sessions()[session_at(
                        old(self).sessions(),
                        session_id@,
                    )].primary_notify
                    &&& notices.notify_input == old(self).sessions()[session_at(
                        old(self).sessions(),
                        session_id@,
                    )].input_notify
                    &&& final(self).sessions() == old(self).sessions().remove(
                        session_at(old(self).sessions(), session_id@),
                    )
                    &&& final(self).index() == entries_not_of(old(self).index(), session_id@)
                },
                None => !has_session(old(self).sessions(), session_id@) && *final(self) == *old(self),
            },
    {
        self.close_session(session_id)
    }

    /// Remove the session with this identifier, and all its index entries.
    fn close_session(&mut self, session_id: &String) -> (r: Option<CloseNotices>)
        requires
            old(self).wf(),
        ensures
            final(self).wf(),
            !has_session(final(self).sessions(), session_id@),
            forall|j: int|
                0 <= j < final(self).index().len() ==> (#[trigger] final(self).index()[j].session_id@) != session_id@,
            match r {
                Some(notices) => {
                    &&& has_session(old(self).sessions(), session_id@)
                    &&& notices.notify_primary == old(self).sessions()[session_at(
                        old(self).sessions(),
                        session_id@,
                    )].primary_notify
                    &&& notices.notify_input == old(self).sessions()[session_at(
                        old(self).sessions(),
                        session_id@,
                    )].input_notify
                    &&& final(self).sessions() == old(self).sessions().remove(
                        session_at(old(self).sessions(), session_id@),
                    )
                    &&& final(self).index() == entries_not_of(old(self).index(), session_id@)
                },
                None => !has_session(old(self).sessions(), session_id@) && *final(self) == *old(self),
            },
    {
        let found = self.find_session(session_id);
        let i = match found {
            Some(i) => i,
            None => {
                proof {
                    assert forall|j: int| 0 <= j < self.index().len() implies (
                    #[trigger] self.index()[j].session_id@) != session_id@ by {
                        assert(has_session(self.sessions(), self.index()[j].session_id@));
                    }
                }
                return None;
            },
        };
        proof {
            lemma_session_at_unique(self.sessions(), session_id@, i as int);
        }
        let removed = self.sessions.remove(i);
        let notices = CloseNotices {
            notify_primary: removed.primary_notify,
            notify_input: removed.input_notify,
        };
        self.retain_entries_not_of(session_id);
        proof {
            let pre_s = old(self).sessions();
            let pre_t = old(self).index();
            lemma_entries_not_of_distinct(pre_t, session_id@);
            lemma_entries_not_of_from(pre_t, session_id@);
            lemma_entries_not_of_keeps(pre_t, session_id@);
            assert(index_tokens_distinct(entries_not_of(pre_t, session_id@)));
            assert(!has_session(self.sessions@, session_id@)) by {
                if has_session(self.sessions@, session_id@) {
                    let k = choose|k: int|
                        0 <= k < self.sessions@.len() && (#[trigger] self.sessions@[k].id@)
                            == session_id@;
                    let k0 = if k < i as int { k } else { k + 1 };
                    assert(pre_s[k0].id@ == session_id@);
                    if k0 < i as int {
                        assert(pre_s[k0].id@ != pre_s[i as int].id@);
                    } else {
                        assert(pre_s[i as int].id@ != pre_s[k0].id@);
                    }
                }
            }
            assert(session_ids_distinct(self.sessions@)) by {
                assert forall|a: int, b: int|
                    0 <= a < b < self.sessions@.len() implies (#[trigger] self.sessions@[a].id@)
                    != (#[trigger] self.sessions@[b].id@) by {
                    let a0 = if a < i as int { a } else { a + 1 };
                    let b0 = if b < i as int { b } else { b + 1 };
                    assert(pre_s[a0].id@ != pre_s[b0].id@);
                }
            }
            assert(connected_sessions_hold_no_token(self.sessions@)) by {
                assert forall|k: int|
                    0 <= k < self.sessions@.len() && (#[trigger] self.sessions@[k].input_connected)
                        implies self.sessions@[k].token is None by {
                    let k0 = if k < i as int { k } else { k + 1 };
                    assert(pre_s[k0].input_connected);
                }
            }
            assert(live_tokens_indexed(self.sessions@, self.token_index@)) by {
                assert forall|k: int|
                    0 <= k < self.sessions@.len() && (#[trigger] self.sessions@[k].token) is Some
                        implies has_entry(self.token_index@, self.sessions@[k].token->0@)
                        && self.token_index@[entry_at(
                        self.token_index@,
                        self.sessions@[k].token->0@,
                    )].session_id@ == self.sessions@[k].id@ by {
                    let k0 = if k < i as int { k } else { k + 1 };
                    let sess = self.sessions@[k];
                    assert(pre_s[k0] == sess);
                    assert(pre_s[k0].token is Some);
                    let tok = sess.token->0@;
                    let e0 = entry_at(pre_t, tok);
                    assert(has_entry(pre_t, tok) && pre_t[e0].session_id@ == sess.id@);
                    assert(pre_t[e0].session_id@ != session_id@) by {
                        if k0 < i as int {
                            assert(pre_s[k0].id@ != pre_s[i as int].id@);
                        } else {
                            assert(pre_s[i as int].id@ != pre_s[k0].id@);
                        }
                    }
                    let kept = entries_not_of(pre_t, session_id@);
                    let w = choose|w: int| 0 <= w < kept.len() && kept[w] == pre_t[e0];
                    lemma_entry_at_unique(kept, tok, w);
                }
            }
            assert(entries_point_at_sessions(self.sessions@, self.token_index@)) by {
                assert forall|j: int| 0 <= j < self.token_index@.len() implies has_session(
                    self.sessions@,
                    (#[trigger] self.token_index@[j].session_id@),
                ) by {
                    let kept = entries_not_of(pre_t, session_id@);
                    assert(self.token_index@[j] == kept[j]);
                    assert(entries_not_of(pre_t, session_id@)[j].session_id@ != session_id@);
                    let w = choose|w: int| 0 <= w < pre_t.len() && (#[trigger] pre_t[w]) == kept[j];
                    assert(pre_t[w].session_id@ == kept[j].session_id@);
                    assert(has_session(pre_s, pre_t[w].session_id@));
                    let v = choose|v: int|
                        0 <= v < pre_s.len() && (#[trigger] pre_s[v].id@)
                            == pre_t[w].session_id@;
                    assert(pre_s[v].id@ != session_id@);
                    assert(v != i as int);
                    let v1 = if v < i as int { v } else { v - 1 };
                    assert(self.sessions@[v1].id@ == pre_s[v].id@);
                }
            }
        }
        Some(notices)
    }

    /// The input connection disconnected: clear its endpoints and mint a
    /// reconnection token with a fresh expiry window.  Returns `None`, leaving
    /// the manager unchanged, when no such session exists or the minted token
    /// is already indexed.
    pub fn input_disconnected(&mut self, session_id: &String, now: u64) -> (r: Option<
        ReconnectOffer,
    >)
        requires
            old(self).wf(),
        ensures
            final(self).wf(),
            match r {
                Some(offer) => {
                    &&& has_session(old(self).sessions(), session_id@)
                    &&& {
                        let i = session_at(old(self).sessions(), session_id@);
                        &&& offer.notify_primary == old(self).sessions()[i].primary_notify
                        &&& final(self).sessions().len() == old(self).sessions().len()
                        &&& forall|k: int|
                            0 <= k < old(self).sessions().len() && k != i ==> (#[trigger] final(self).sessions()[k]) == old(self).sessions()[k]
                        &&& is_reconnect_offered(
                            final(self).sessions()[i],
                            old(self).sessions()[i],
                            offer.new_token@,
                            now,
                        )
                        &&& final(self).index().len() == old(self).index().len() + 1
                        &&& final(self).index().drop_last() == old(self).index()
                        &&& final(self).index().last().token@ == offer.new_token@
                        &&& final(self).index().last().session_id@ == session_id@
                        &&& !has_entry(old(self).index(), offer.new_token@)
                    }
                },
                None => *final(self) == *old(self),
            },
            !has_session(old(self).sessions(), session_id@) ==> r is None,
            (has_session(old(self).sessions(), session_id@) && old(self).index().len() == 0) ==> r
                is Some,
    {
        let found = self.find_session(session_id);
        let i = match found {
            Some(i) => i,
            None => {
                return None;
            },
        };
        proof {
            lemma_session_at_unique(self.sessions(), session_id@, i as int);
        }
        let new_token = mint_identifier();
        if self.find_entry(&new_token).is_some() {
            return None;
        }
        let mut sess = self.sessions.remove(i);
        let offer = ReconnectOffer {
            new_token: new_token.clone(),
            notify_primary: sess.primary_notify,
        };
        let entry = TokenEntry { token: new_token.clone(), session_id: sess.id.clone() };
        sess.token = Some(new_token);
        sess.token_expires_at = now.saturating_add(TOKEN_EXPIRATION_MS);
        sess.input_connected = false;
        sess.input_notify = false;
        sess.streamer_to_input = false;
        sess.input_to_streamer = true;
        self.sessions.insert(i, sess);
        self.token_index.push(entry);
        proof {
            let pre_s = old(self).sessions();
            let pre_t = old(self).index();
            let post_s = self.sessions@;
            let post_t = self.token_index@;
            assert(post_t.drop_last() =~= pre_t);
            assert forall|k: int| 0 <= k < pre_s.len() && k != i as int implies (
            #[trigger] post_s[k]) == pre_s[k] by {}
            assert(session_ids_distinct(post_s)) by {
                assert forall|a: int, b: int|
                    0 <= a < b < post_s.len() implies (#[trigger] post_s[a].id@) != (
                #[trigger] post_s[b].id@) by {
                    assert(pre_s[a].id@ != pre_s[b].id@);
                    assert(post_s[a].id@ == pre_s[a].id@);
                    assert(post_s[b].id@ == pre_s[b].id@);
                }
            }
            assert(index_tokens_distinct(post_t)) by {
                assert forall|a: int, b: int|
                    0 <= a < b < post_t.len() implies (#[trigger] post_t[a].token@) != (
                #[trigger] post_t[b].token@) by {
                    if b == post_t.len() - 1 {
                        assert(!(pre_t[a].token@ == post_t[b].token@));
                    } else {
                        assert(pre_t[a].token@ != pre_t[b].token@);
                    }
                }
            }
            assert(connected_sessions_hold_no_token(post_s)) by {
                assert forall|k: int|
                    0 <= k < post_s.len() && (#[trigger] post_s[k].input_connected) implies
                    post_s[k].token is None by {
                    assert(k != i as int);
                    assert(pre_s[k].input_connected);
                }
            }
            assert(live_tokens_indexed(post_s, post_t)) by {
                assert forall|k: int|
                    0 <= k < post_s.len() && (#[trigger] post_s[k].token) is Some implies
                    has_entry(post_t, post_s[k].token->0@) && post_t[entry_at(
                    post_t,
                    post_s[k].token->0@,
                )].session_id@ == post_s[k].id@ by {
                    if k == i as int {
                        lemma_entry_at_unique(post_t, post_s[k].token->0@, post_t.len() - 1);
                    } else {
                        assert(pre_s[k].token is Some);
                        let tok = pre_s[k].token->0@;
                        let j = entry_at(pre_t, tok);
                        assert(has_entry(pre_t, tok) && pre_t[j].session_id@ == pre_s[k].id@);
                        assert(post_t[j] == pre_t[j]);
                        lemma_entry_at_unique(post_t, tok, j);
                    }
                }
            }
            assert(entries_point_at_sessions(post_s, post_t)) by {
                assert forall|j: int| 0 <= j < post_t.len() implies has_session(
                    post_s,
                    (#[trigger] post_t[j].session_id@),
                ) by {
                    if j == post_t.len() - 1 {
                        assert(post_s[i as int].id@ == session_id@);
                    } else {
                        assert(has_session(pre_s, pre_t[j].session_id@));
                        let w = choose|w: int|
                            0 <= w < pre_s.len() && (#[trigger] pre_s[w].id@)
                                == pre_t[j].session_id@;
                        assert(post_s[w].id@ == pre_s[w].id@);
                    }
                }
            }
        }
        Some(offer)
    }

    /// Find the position of a session whose unclaimed token has expired.
    fn find_expired(&self, now: u64) -> (r: Option<usize>)
        ensures
            match r {
                Some(i) => i < self.sessions().len() && expired_unclaimed(
                    self.sessions()[i as int],
                    now,
                ),
                None => forall|i: int|
                    0 <= i < self.sessions().len() ==> !expired_unclaimed(
                        #[trigger] self.sessions()[i],
                        now,
                    ),
            },
    {
        let n = self.sessions.len();
        let mut i: usize = 0;
        while i < n
            invariant
                n == self.sessions@.len(),
                i <= n,
                forall|k: int| 0 <= k < i ==> !expired_unclaimed(#[trigger] self.sessions@[k], now),
            decreases n - i,
        {
            let expired = self.sessions[i].token.is_some() && now
                > self.sessions[i].token_expires_at && !self.sessions[i].input_connected;
            if expired {
                return Some(i);
            }
            i = i + 1;
        }
        None
    }

    /// Sweep the table: remove every session whose token was never claimed
    /// and has expired, together with all index entries of those sessions.
    /// Sessions whose input is connected are never swept.  Returns how many
    /// sessions were removed.
    #[verifier::rlimit(80)]
    pub fn cleanup_expired(&mut self, now: u64) -> (r: usize)
        requires
            old(self).wf(),
        ensures
            final(self).wf(),
            r == old(self).sessions().len() - final(self).sessions().len(),
            forall|i: int|
                0 <= i < final(self).sessions().len() ==> !expired_unclaimed(
                    #[trigger] final(self).sessions()[i],
                    now,
                ),
            sessions_from(final(self).sessions(), old(self).sessions()),
            survivors_kept(old(self).sessions(), final(self).sessions(), now),
            entries_from(final(self).index(), old(self).index()),
            surviving_entries_kept(
                old(self).sessions(),
                old(self).index(),
                final(self).index(),
                now,
            ),
    {
        let ghost pre_s = old(self).sessions();
        let ghost pre_t = old(self).index();
        let mut removed: usize = 0;
        let n0 = self.sessions.len();
        proof {
            assert(pre_s.len() == n0);
            assert forall|i: int|
                0 <= i < self.sessions().len() implies pre_s.contains(
                #[trigger] self.sessions()[i],
            ) by {
                assert(pre_s[i] == self.sessions()[i]);
            }
            assert forall|w: int|
                0 <= w < pre_s.len() && !expired_unclaimed(#[trigger] pre_s[w], now) implies
                self.sessions().contains(pre_s[w]) by {
                assert(self.sessions()[w] == pre_s[w]);
            }
            assert forall|j: int|
                0 <= j < self.index().len() implies pre_t.contains(
                #[trigger] self.index()[j],
            ) by {
                assert(pre_t[j] == self.index()[j]);
            }
            assert forall|w: int|
                0 <= w < pre_t.len() && entry_session_survives(pre_s, #[trigger] pre_t[w], now)
                    implies self.index().contains(pre_t[w]) by {
                assert(self.index()[w] == pre_t[w]);
            }
        }
        loop
            invariant
                self.wf(),
                removed == pre_s.len() - self.sessions().len(),
                self.sessions().len() <= pre_s.len(),
                sessions_from(self.sessions(), pre_s),
                survivors_kept(pre_s, self.sessions(), now),
                entries_from(self.index(), pre_t),
                surviving_entries_kept(pre_s, pre_t, self.index(), now),
                session_ids_distinct(pre_s),
                pre_s.len() <= usize::MAX,
            ensures
                self.wf(),
                removed == pre_s.len() - self.sessions().len(),
                sessions_from(self.sessions(), pre_s),
                survivors_kept(pre_s, self.sessions(), now),
                entries_from(self.index(), pre_t),
                surviving_entries_kept(pre_s, pre_t, self.index(), now),
                forall|i: int|
                    0 <= i < self.sessions().len() ==> !expired_unclaimed(
                        #[trigger] self.sessions()[i],
                        now,
                    ),
            decreases self.sessions().len(),
        {
            let target = self.find_expired(now);
            let i = match target {
                Some(i) => i,
                None => {
                    break;
                },
            };
            let id = self.sessions[i].id.clone();
            let ghost cur_s = self.sessions();
            let ghost cur_t = self.index();
            proof {
                lemma_session_at_unique(cur_s, id@, i as int);
            }
            proof {
                assert(removed < pre_s.len());
            }
            self.close_session(&id);
            removed = removed + 1;
            proof {
                lemma_cleanup_step(
                    pre_s,
                    pre_t,
                    cur_s,
                    cur_t,
                    self.sessions(),
                    self.index(),
                    id@,
                    i as int,
                    now,
                );
            }
        }
        removed
    }

    /// Remove every index entry whose session identifier equals `session_id`.
    fn retain_entries_not_of(&mut self, session_id: &String)
        ensures
            final(self).sessions() == old(self).sessions(),
            final(self).index() == entries_not_of(old(self).index(), session_id@),
    {
        let ghost orig = self.token_index@;
        let mut k: usize = 0;
        let ghost mut done: int = 0;
        proof {
            assert(orig.take(0) =~= Seq::<TokenEntry>::empty());
            assert(self.token_index@ =~= entries_not_of(orig.take(0), session_id@) + orig.skip(0));
        }
        while k < self.token_index.len()
            invariant
                0 <= done <= orig.len(),
                k == entries_not_of(orig.take(done), session_id@).len(),
                self.token_index@ =~= entries_not_of(orig.take(done), session_id@) + orig.skip(
                    done,
                ),
                self.sessions@ == old(self).sessions(),
            decreases orig.len() - done,
        {
            proof {
                lemma_entries_not_of_len(orig.take(done), session_id@);
                assert(orig.take(done + 1) =~= orig.take(done).push(orig[done]));
                lemma_entries_not_of_push(orig.take(done), session_id@, orig[done]);
                assert(orig.skip(done)[0] == orig[done]);
                assert(self.token_index@[k as int] == orig[done]);
            }
            let keep = !(self.token_index[k].session_id == *session_id);
            if keep {
                k = k + 1;
                proof {
                    assert(orig[done].session_id@ != session_id@);
                    assert(orig.skip(done) =~= seq![orig[done]] + orig.skip(done + 1));
                    assert(self.token_index@ =~= entries_not_of(orig.take(done + 1), session_id@)
                        + orig.skip(done + 1));
                    done = done + 1;
                }
            } else {
                let ghost pre_step_view = self.token_index@;
                self.token_index.remove(k);
                proof {
                    assert(orig[done].session_id@ == session_id@);
                    assert(self.token_index@ =~= pre_step_view.remove(k as int));
                    assert(orig.skip(done) =~= seq![orig[done]] + orig.skip(done + 1));
                    assert(self.token_index@ =~= entries_not_of(orig.take(done + 1), session_id@)
                        + orig.skip(done + 1));
                    done = done + 1;
                }
            }
        }
        proof {
            lemma_entries_not_of_len(orig.take(done), session_id@);
            assert(orig.skip(done).len() == orig.len() - done);
            assert(done == orig.len()) by {
                if done < orig.len() {
                    assert(self.token_index@.len() == entries_not_of(
                        orig.take(done),
                        session_id@,
                    ).len() + orig.skip(done).len());
                }
            }
            assert(orig.take(done) =~= orig);
        }
    }
}

/// The index entries whose session identifier differs from `id`, in order.
pub open spec fn entries_not_of(t: Seq<TokenEntry>, id: Seq<char>) -> Seq<TokenEntry>
    decreases t.len(),
{
    if t.len() == 0 {
        t
    } else {
        let rest = entries_not_of(t.drop_last(), id);
        if t.last().session_id@ == id {
            rest
        } else {
            rest.push(t.last())
        }
    }
}

/// Keeping only the entries of other sessions cannot grow the index.
proof fn lemma_entries_not_of_len(t: Seq<TokenEntry>, id: Seq<char>)
    ensures
        entries_not_of(t, id).len() <= t.len(),
    decreases t.len(),
{
    if t.len() > 0 {
        lemma_entries_not_of_len(t.drop_last(), id);
    }
}

/// How `entries_not_of` acts on an index extended by one entry.
proof fn lemma_entries_not_of_push(t: Seq<TokenEntry>, id: Seq<char>, e: TokenEntry)
    ensures
        entries_not_of(t.push(e), id) == if e.session_id@ == id {
            entries_not_of(t, id)
        } else {
            entries_not_of(t, id).push(e)
        },
{
    assert(t.push(e).drop_last() =~= t);
    assert(t.push(e).last() == e);
}

/// Every kept entry is not of the dropped session and occurs in the
/// original index.
proof fn lemma_entries_not_of_from(t: Seq<TokenEntry>, id: Seq<char>)
    ensures
        forall|k: int|
            0 <= k < entries_not_of(t, id).len() ==> (#[trigger] entries_not_of(
                t,
                id,
            )[k].session_id@) != id && exists|w: int|
                0 <= w < t.len() && (#[trigger] t[w]) == entries_not_of(t, id)[k],
    decreases t.len(),
{
    let kept = entries_not_of(t, id);
    if t.len() > 0 {
        let sub = t.drop_last();
        lemma_entries_not_of_from(sub, id);
        let kept_sub = entries_not_of(sub, id);
        assert forall|k: int| 0 <= k < kept.len() implies (#[trigger] kept[k].session_id@) != id
            && exists|w: int| 0 <= w < t.len() && (#[trigger] t[w]) == kept[k] by {
            if t.last().session_id@ != id && k == kept.len() - 1 {
                assert(t[t.len() - 1] == kept[k]);
            } else {
                assert(kept[k] == kept_sub[k]);
                assert(entries_not_of(sub, id)[k].session_id@ != id);
                let w = choose|w: int| 0 <= w < sub.len() && (#[trigger] sub[w]) == kept_sub[k];
                assert(t[w] == kept[k]);
            }
        }
    }
}

/// Every original entry of another session is kept.
proof fn lemma_entries_not_of_keeps(t: Seq<TokenEntry>, id: Seq<char>)
    ensures
        forall|w: int|
            0 <= w < t.len() && (#[trigger] t[w].session_id@) != id ==> exists|k: int|
                0 <= k < entries_not_of(t, id).len() && (#[trigger] entries_not_of(t, id)[k])
                    == t[w],
    decreases t.len(),
{
    let kept = entries_not_of(t, id);
    if t.len() > 0 {
        let sub = t.drop_last();
        lemma_entries_not_of_keeps(sub, id);
        let kept_sub = entries_not_of(sub, id);
        assert forall|w: int|
            0 <= w < t.len() && (#[trigger] t[w].session_id@) != id implies exists|k: int|
                0 <= k < kept.len() && (#[trigger] kept[k]) == t[w] by {
            if w == t.len() - 1 {
                assert(kept[kept.len() - 1] == t[w]);
            } else {
                assert(sub[w].session_id@ != id);
                let k = choose|k: int|
                    0 <= k < kept_sub.len() && (#[trigger] kept_sub[k]) == sub[w];
                assert(kept[k] == t[w]);
            }
        }
    }
}

/// Distinct index tokens stay distinct when the entries of one session are
/// dropped.
proof fn lemma_entries_not_of_distinct(t: Seq<TokenEntry>, id: Seq<char>)
    requires
        index_tokens_distinct(t),
    ensures
        index_tokens_distinct(entries_not_of(t, id)),
    decreases t.len(),
{
    let kept = entries_not_of(t, id);
    if t.len() > 0 {
        let sub = t.drop_last();
        assert(index_tokens_distinct(sub)) by {
            assert forall|a: int, b: int|
                0 <= a < b < sub.len() implies (#[trigger] sub[a].token@) != (
            #[trigger] sub[b].token@) by {
                assert(t[a].token@ != t[b].token@);
            }
        }
        lemma_entries_not_of_distinct(sub, id);
        let kept_sub = entries_not_of(sub, id);
        if t.last().session_id@ != id {
            lemma_entries_not_of_from(sub, id);
            assert forall|a: int, b: int|
                0 <= a < b < kept.len() implies (#[trigger] kept[a].token@) != (
            #[trigger] kept[b].token@) by {
                if b == kept.len() - 1 {
                    assert(kept[a] == kept_sub[a]);
                    assert(entries_not_of(sub, id)[a].session_id@ != id);
                    let w = choose|w: int|
                        0 <= w < sub.len() && (#[trigger] sub[w]) == kept_sub[a];
                    assert(t[w].token@ != t[t.len() - 1].token@);
                }
            }
        }
    }
}

/// Every session of `sub` occurs in `sup`.
pub open spec fn sessions_from(sub: Seq<HybridSession>, sup: Seq<HybridSession>) -> bool {
    forall|i: int| 0 <= i < sub.len() ==> sup.contains(#[trigger] sub[i])
}

/// Every index entry of `sub` occurs in `sup`.
pub open spec fn entries_from(sub: Seq<TokenEntry>, sup: Seq<TokenEntry>) -> bool {
    forall|j: int| 0 <= j < sub.len() ==> sup.contains(#[trigger] sub[j])
}

/// Every session of `pre` that the sweeper must not remove is kept in `cur`.
pub open spec fn survivors_kept(pre: Seq<HybridSession>, cur: Seq<HybridSession>, now: u64) -> bool {
    forall|w: int|
        0 <= w < pre.len() && !expired_unclaimed(#[trigger] pre[w], now) ==> cur.contains(pre[w])
}

/// The entry's session exists in the table and survives the sweep: it is not
/// expired-unclaimed.
pub open spec fn entry_session_survives(s: Seq<HybridSession>, e: TokenEntry, now: u64) -> bool {
    exists|v: int|
        0 <= v < s.len() && (#[trigger] s[v].id@) == e.session_id@ && !expired_unclaimed(s[v], now)
}

/// Every index entry of `pre_t` whose session survives the sweep is kept in
/// `cur_t`.
pub open spec fn surviving_entries_kept(
    pre_s: Seq<HybridSession>,
    pre_t: Seq<TokenEntry>,
    cur_t: Seq<TokenEntry>,
    now: u64,
) -> bool {
    forall|w: int|
        0 <= w < pre_t.len() && entry_session_survives(pre_s, #[trigger] pre_t[w], now)
            ==> cur_t.contains(pre_t[w])
}

/// One sweeper step: removing an expired session and its index entries keeps
/// the sweep's bookkeeping — everything kept comes from the original state,
/// and nothing that must survive is lost.
#[verifier::rlimit(80)]
proof fn lemma_cleanup_step(
    pre_s: Seq<HybridSession>,
    pre_t: Seq<TokenEntry>,
    cur_s: Seq<HybridSession>,
    cur_t: Seq<TokenEntry>,
    post_s: Seq<HybridSession>,
    post_t: Seq<TokenEntry>,
    id: Seq<char>,
    i: int,
    now: u64,
)
    requires
        session_ids_distinct(pre_s),
        0 <= i < cur_s.len(),
        cur_s[i].id@ == id,
        expired_unclaimed(cur_s[i], now),
        post_s == cur_s.remove(i),
        post_t == entries_not_of(cur_t, id),
        sessions_from(cur_s, pre_s),
        survivors_kept(pre_s, cur_s, now),
        entries_from(cur_t, pre_t),
        surviving_entries_kept(pre_s, pre_t, cur_t, now),
    ensures
        sessions_from(post_s, pre_s),
        survivors_kept(pre_s, post_s, now),
        entries_from(post_t, pre_t),
        surviving_entries_kept(pre_s, pre_t, post_t, now),
{
    assert forall|k: int| 0 <= k < post_s.len() implies pre_s.contains(#[trigger] post_s[k]) by {
        let k0 = if k < i { k } else { k + 1 };
        assert(post_s[k] == cur_s[k0]);
        assert(pre_s.contains(cur_s[k0]));
    }
    assert forall|w: int|
        0 <= w < pre_s.len() && !expired_unclaimed(#[trigger] pre_s[w], now) implies
        post_s.contains(pre_s[w]) by {
        assert(cur_s.contains(pre_s[w]));
        let c = choose|c: int| 0 <= c < cur_s.len() && cur_s[c] == pre_s[w];
        assert(c != i);
        let c1 = if c < i { c } else { c - 1 };
        assert(post_s[c1] == cur_s[c]);
    }
    lemma_entries_not_of_from(cur_t, id);
    assert forall|j: int| 0 <= j < post_t.len() implies pre_t.contains(#[trigger] post_t[j]) by {
        assert(entries_not_of(cur_t, id)[j].session_id@ != id);
        let c = choose|c: int| 0 <= c < cur_t.len() && (#[trigger] cur_t[c]) == post_t[j];
        assert(pre_t.contains(cur_t[c]));
    }
    lemma_entries_not_of_keeps(cur_t, id);
    assert forall|w: int|
        0 <= w < pre_t.len() && entry_session_survives(pre_s, #[trigger] pre_t[w], now) implies
        post_t.contains(pre_t[w]) by {
        assert(cur_t.contains(pre_t[w]));
        let c = choose|c: int| 0 <= c < cur_t.len() && cur_t[c] == pre_t[w];
        assert(pre_t[w].session_id@ != id) by {
            if pre_t[w].session_id@ == id {
                let v = choose|v: int|
                    0 <= v < pre_s.len() && (#[trigger] pre_s[v].id@) == pre_t[w].session_id@
                        && !expired_unclaimed(pre_s[v], now);
                assert(pre_s.contains(cur_s[i]));
                let g = choose|g: int| 0 <= g < pre_s.len() && pre_s[g] == cur_s[i];
                assert(pre_s[g].id@ == id);
                assert(expired_unclaimed(pre_s[g], now));
                if v != g {
                    if v < g {
                        assert(pre_s[v].id@ != pre_s[g].id@);
                    } else {
                        assert(pre_s[g].id@ != pre_s[v].id@);
                    }
                }
            }
        }
        assert(cur_t[c].session_id@ != id);
        let j = choose|j: int|
            0 <= j < entries_not_of(cur_t, id).len() && (#[trigger] entries_not_of(cur_t, id)[j])
                == cur_t[c];
        assert(post_t[j] == pre_t[w]);
    }
}

/// Well-formedness is preserved by a pointwise change that keeps every
/// session's identifier, token and input-connected flag.
proof fn lemma_wf_after_update_same_core(
    pre: Seq<HybridSession>,
    post: Seq<HybridSession>,
    t: Seq<TokenEntry>,
)
    requires
        session_ids_distinct(pre),
        index_tokens_distinct(t),
        connected_sessions_hold_no_token(pre),
        live_tokens_indexed(pre, t),
        entries_point_at_sessions(pre, t),
        post.len() == pre.len(),
        forall|i: int|
            0 <= i < pre.len() ==> (#[trigger] post[i].id@) == pre[i].id@ && post[i].token
                == pre[i].token && post[i].input_connected == pre[i].input_connected,
    ensures
        session_ids_distinct(post),
        connected_sessions_hold_no_token(post),
        live_tokens_indexed(post, t),
        entries_point_at_sessions(post, t),
{
    assert forall|i: int|
        0 <= i < post.len() && (#[trigger] post[i].token) is Some implies has_entry(
        t,
        post[i].token->0@,
    ) && t[entry_at(t, post[i].token->0@)].session_id@ == post[i].id@ by {
        assert(post[i].id@ == pre[i].id@);
        assert(pre[i].token is Some);
    }
    assert forall|j: int| 0 <= j < t.len() implies has_session(
        post,
        (#[trigger] t[j].session_id@),
    ) by {
        assert(has_session(pre, t[j].session_id@));
        let w = choose|w: int|
            0 <= w < pre.len() && (#[trigger] pre[w].id@) == t[j].session_id@;
        assert(post[w].id@ == pre[w].id@);
    }
}

/// Well-formedness is preserved by registering a fresh session and its index
/// entry.
proof fn lemma_wf_after_register(
    pre_s: Seq<HybridSession>,
    pre_t: Seq<TokenEntry>,
    sess: HybridSession,
    entry: TokenEntry,
)
    requires
        session_ids_distinct(pre_s),
        index_tokens_distinct(pre_t),
        connected_sessions_hold_no_token(pre_s),
        live_tokens_indexed(pre_s, pre_t),
        entries_point_at_sessions(pre_s, pre_t),
        !has_session(pre_s, sess.id@),
        !has_entry(pre_t, entry.token@),
        sess.token is Some,
        sess.token->0@ == entry.token@,
        entry.session_id@ == sess.id@,
        !sess.input_connected,
    ensures
        session_ids_distinct(pre_s.push(sess)),
        index_tokens_distinct(pre_t.push(entry)),
        connected_sessions_hold_no_token(pre_s.push(sess)),
        live_tokens_indexed(pre_s.push(sess), pre_t.push(entry)),
        entries_point_at_sessions(pre_s.push(sess), pre_t.push(entry)),
{
    let s = pre_s.push(sess);
    let t = pre_t.push(entry);
    assert(session_ids_distinct(s)) by {
        assert forall|a: int, b: int| 0 <= a < b < s.len() implies (#[trigger] s[a].id@) != (
        #[trigger] s[b].id@) by {
            if b == s.len() - 1 {
                assert(!(pre_s[a].id@ == sess.id@));
            } else {
                assert(pre_s[a].id@ != pre_s[b].id@);
            }
        }
    }
    assert(index_tokens_distinct(t)) by {
        assert forall|a: int, b: int| 0 <= a < b < t.len() implies (#[trigger] t[a].token@) != (
        #[trigger] t[b].token@) by {
            if b == t.len() - 1 {
                assert(!(pre_t[a].token@ == entry.token@));
            } else {
                assert(pre_t[a].token@ != pre_t[b].token@);
            }
        }
    }
    assert(live_tokens_indexed(s, t)) by {
        assert forall|i: int|
            0 <= i < s.len() && (#[trigger] s[i].token) is Some implies has_entry(
            t,
            s[i].token->0@,
        ) && t[entry_at(t, s[i].token->0@)].session_id@ == s[i].id@ by {
            if i == s.len() - 1 {
                lemma_entry_at_unique(t, entry.token@, t.len() - 1);
            } else {
                assert(pre_s[i].token is Some);
                let tok = pre_s[i].token->0@;
                let j = entry_at(pre_t, tok);
                assert(has_entry(pre_t, tok) && pre_t[j].session_id@ == pre_s[i].id@);
                assert(t[j] == pre_t[j]);
                lemma_entry_at_unique(t, tok, j);
            }
        }
    }
    assert(entries_point_at_sessions(s, t)) by {
        assert forall|j: int| 0 <= j < t.len() implies has_session(
            s,
            (#[trigger] t[j].session_id@),
        ) by {
            if j == t.len() - 1 {
                assert(s[s.len() - 1].id@ == entry.session_id@);
            } else {
                assert(has_session(pre_s, pre_t[j].session_id@));
                let w = choose|w: int|
                    0 <= w < pre_s.len() && (#[trigger] pre_s[w].id@) == pre_t[j].session_id@;
                assert(s[w].id@ == pre_s[w].id@);
            }
        }
    }
}

/// In a table with distinct identifiers, `session_at` agrees with any witness
/// position.
pub proof fn lemma_session_at_unique(s: Seq<HybridSession>, id: Seq<char>, i: int)
    requires
        session_ids_distinct(s),
        0 <= i < s.len(),
        s[i].id@ == id,
    ensures
        has_session(s, id),
        session_at(s, id) == i,
{
    assert(has_session(s, id));
    let k = session_at(s, id);
    if k != i {
        if k < i {
            assert(s[k].id@ != s[i].id@);
        } else {
            assert(s[i].id@ != s[k].id@);
        }
    }
}

/// In an index with distinct tokens, `entry_at` agrees with any witness
/// position.
pub proof fn lemma_entry_at_unique(t: Seq<TokenEntry>, token: Seq<char>, j: int)
    requires
        index_tokens_distinct(t),
        0 <= j < t.len(),
        t[j].token@ == token,
    ensures
        has_entry(t, token),
        entry_at(t, token) == j,
{
    assert(has_entry(t, token));
    let k = entry_at(t, token);
    if k != j {
        if k < j {
            assert(t[k].token@ != t[j].token@);
        } else {
            assert(t[j].token@ != t[k].token@);
        }
    }
}

/// Law: across the whole process, the token index is a function — two
/// sessions never hold the same valid token at the same time, so every valid
/// token leads to exactly one session.
pub proof fn lemma_valid_token_maps_to_one_session(m: SessionManager, i: int, j: int)
    requires
        m.wf(),
        0 <= i < m.sessions().len(),
        0 <= j < m.sessions().len(),
        m.sessions()[i].token is Some,
        m.sessions()[j].token is Some,
        m.sessions()[i].token->0@ == m.sessions()[j].token->0@,
    ensures
        i == j,
{
    let tok = m.sessions()[i].token->0@;
    let e = entry_at(m.index(), tok);
    assert(m.index()[e].session_id@ == m.sessions()[i].id@);
    assert(m.index()[e].session_id@ == m.sessions()[j].id@);
    if i != j {
        if i < j {
            assert(m.sessions()[i].id@ != m.sessions()[j].id@);
        } else {
            assert(m.sessions()[j].id@ != m.sessions()[i].id@);
        }
    }
}

/// Law: a session's token admits at most one successful claim.  A claim
/// consumes the token: its index entry is gone and the session is
/// input-connected and tokenless, so by `claim_session`'s contract every
/// further claim of that token reports that no session can be found for it.
pub proof fn lemma_claim_exactly_once(
    pre: SessionManager,
    post: SessionManager,
    token: Seq<char>,
    now: u64,
)
    requires
        pre.wf(),
        post.wf(),
        indexed_session(pre.sessions(), pre.index(), token) is Some,
        ({
            let i = indexed_session(pre.sessions(), pre.index(), token)->0;
            let sess = pre.sessions()[i];
            &&& sess.token is Some && sess.token->0@ == token
            &&& now <= sess.token_expires_at
            &&& !sess.input_connected
            &&& post.sessions() == pre.sessions().update(i, claimed(sess))
            &&& post.index() == pre.index().remove(entry_at(pre.index(), token))
        }),
    ensures
        !has_entry(post.index(), token),
        indexed_session(post.sessions(), post.index(), token) is None,
        ({
            let i = indexed_session(pre.sessions(), pre.index(), token)->0;
            &&& post.sessions()[i].input_connected
            &&& post.sessions()[i].token is None
        }),
{
    let pre_t = pre.index();
    let post_t = post.index();
    let e = entry_at(pre_t, token);
    assert(0 <= e < pre_t.len());
    assert(!has_entry(post_t, token)) by {
        if has_entry(post_t, token) {
            let k = choose|k: int| 0 <= k < post_t.len() && (#[trigger] post_t[k].token@) == token;
            let k0 = if k < e { k } else { k + 1 };
            assert(pre_t[k0].token@ == token);
            if k0 < e {
                assert(pre_t[k0].token@ != pre_t[e].token@);
            } else {
                assert(pre_t[e].token@ != pre_t[k0].token@);
            }
        }
    }
}

/// Law: when a session has been removed — as after an input disconnect
/// followed by a primary disconnect — neither the session table nor the token
/// index holds anything of it: every reconnection token minted for it is gone
/// from the index.
pub proof fn lemma_removed_session_leaves_no_trace(m: SessionManager, id: Seq<char>)
    requires
        m.wf(),
        !has_session(m.sessions(), id),
    ensures
        forall|j: int| 0 <= j < m.index().len() ==> (#[trigger] m.index()[j].session_id@) != id,
        forall|i: int|
            0 <= i < m.sessions().len() ==> (#[trigger] m.sessions()[i].id@) != id,
{
    assert forall|j: int| 0 <= j < m.index().len() implies (#[trigger] m.index()[j].session_id@)
        != id by {
        assert(has_session(m.sessions(), m.index()[j].session_id@));
    }
}

} // verus!
