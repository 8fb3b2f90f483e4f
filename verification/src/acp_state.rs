//! The settings of the ACP channel and its sessions.
use vstd::prelude::*;

use crate::text::{holds_text, text};
use crate::textmap::TextMap;

verus! {

/// The channel's name on the bus.
pub const ACP_HTTP_CHANNEL_NAME: &'static str = "acp_http";

/// The sender of every message that comes over the channel.
pub const ACP_HTTP_SENDER_ID: &'static str = "acp_client";

/// The largest request, headers and body together, in bytes.
pub const MAX_REQUEST_BYTES: usize = 118_784;

/// The largest prompt, in bytes.
pub const MAX_PROMPT_BYTES: usize = 102_400;

/// The largest number of sessions at a time.
pub const MAX_ACP_SESSIONS: usize = 1_000;

/// The largest number of connections at a time.
pub const MAX_CONCURRENT_CONNECTIONS: usize = 128;

/// How many seconds a prompt waits for its reply.
pub const PROMPT_TIMEOUT_SECS: u64 = 300;

/// How many seconds pass between two signs of life on a stream.
pub const SSE_HEARTBEAT_SECS: u64 = 5;

/// How many pieces of a reply wait for the stream's writer.
pub const PROMPT_FRAGMENT_BUFFER: usize = 64;


// ---------------------------------------------------------------------------
// Configuration
// ---------------------------------------------------------------------------
/// Who may use a channel.
#[derive(Debug)]
pub struct BaseChannelConfig {
    pub name: String,
    pub allowlist: Vec<String>,
    pub deny_by_default: bool,
}

impl BaseChannelConfig {
    /// Whether a sender may use the channel: one on the list may, and where the
    /// list is empty everybody may, unless the channel denies by default.
    pub open spec fn allows(&self, sender: Seq<char>) -> bool {
        if self.allowlist@.len() == 0 {
            !self.deny_by_default
        } else {
            self.allowlist.deep_view().contains(sender)
        }
    }

    /// A channel that everybody may use.
    pub fn new(name: &str) -> (r: Self)
        ensures
            r.name@ == name@,
            r.allowlist@.len() == 0,
            !r.deny_by_default,
    {
        BaseChannelConfig { name: text(name), allowlist: Vec::new(), deny_by_default: false }
    }

    /// Whether a sender may use the channel.
    pub fn is_allowed(&self, sender: &str) -> (r: bool)
        ensures
            r == self.allows(sender@),
    {
        if self.allowlist.len() == 0 {
            return !self.deny_by_default;
        }
        holds_text(&self.allowlist, sender)
    }
}

/// Settings of the ACP channels.
#[derive(Debug)]
pub struct AcpChannelConfig {
    pub deny_by_default: bool,
    /// After how many idle seconds a session may be dropped.
    pub session_ttl_secs: Option<u64>,
}

impl Default for AcpChannelConfig {
    fn default() -> (r: Self)
        ensures
            !r.deny_by_default,
            r.session_ttl_secs is None,
    {
        AcpChannelConfig { deny_by_default: false, session_ttl_secs: None }
    }
}

/// Settings of the HTTP transport.
#[derive(Debug)]
pub struct AcpHttpConfig {
    pub bind: String,
    pub port: u16,
    pub auth_token: Option<String>,
}

// ---------------------------------------------------------------------------
// State
// ---------------------------------------------------------------------------
/// A prompt that waits for its reply.
#[derive(Debug, Clone, Copy, PartialEq, Eq, Structural)]
pub struct PendingPrompt {
    pub cancelled: bool,
}

/// A live session.
#[derive(Debug)]
pub struct SessionEntry {
    pub cwd: String,
    /// When the session was last used, in nanoseconds of a clock that does not go
    /// back.
    pub last_active: u64,
}

/// The model of a [`SessionEntry`].
pub struct SessionV {
    pub cwd: Seq<char>,
    pub last_active: u64,
}

/// The model of a session.
pub open spec fn session_view(e: SessionEntry) -> SessionV {
    SessionV { cwd: e.cwd@, last_active: e.last_active }
}

/// The sessions and the prompts in flight.
#[derive(Debug)]
pub struct AcpHttpState {
    pub sessions: TextMap<SessionEntry>,
    pub pending: TextMap<PendingPrompt>,
}

/// The model of an [`AcpHttpState`].
#[verifier::ext_equal]
pub struct StateV {
    pub sessions: Map<Seq<char>, SessionV>,
    pub pending: Map<Seq<char>, PendingPrompt>,
}

impl View for AcpHttpState {
    type V = StateV;

    open spec fn view(&self) -> StateV {
        StateV {
            sessions: self.sessions@.map_values(|e: SessionEntry| session_view(e)),
            pending: self.pending@,
        }
    }
}

/// Whether a session was idle for at least `ttl` seconds.
pub open spec fn is_stale(entry: SessionV, now: u64, ttl: u64) -> bool {
    (if now >= entry.last_active {
        now - entry.last_active
    } else {
        0
    }) >= ttl * 1_000_000_000
}

impl StateV {
    /// Every prompt in flight belongs to a live session.
    pub open spec fn wf(self) -> bool {
        self.pending.dom().subset_of(self.sessions.dom())
    }

    /// The sessions that were idle for at least `ttl` seconds.
    pub open spec fn stale(self, now: u64, ttl: u64) -> Set<Seq<char>> {
        Set::new(
            |id: Seq<char>|
                self.sessions.contains_key(id) && is_stale(self.sessions[id], now, ttl),
        )
    }

    /// The state without stale sessions and without their prompts.
    pub open spec fn swept(self, now: u64, ttl: u64) -> StateV {
        StateV {
            sessions: self.sessions.remove_keys(self.stale(now, ttl)),
            pending: self.pending.remove_keys(self.stale(now, ttl)),
        }
    }

    /// The state with stale sessions swept where sessions age.
    pub open spec fn swept_if(self, now: u64, ttl: Option<u64>) -> StateV {
        match ttl {
            Some(t) => self.swept(now, t),
            None => self,
        }
    }

    /// The state in which a session was just used.
    pub open spec fn touched(self, id: Seq<char>, now: u64) -> StateV {
        StateV {
            sessions: self.sessions.insert(
                id,
                SessionV { last_active: now, ..self.sessions[id] },
            ),
            ..self
        }
    }

    /// The state in which a session's prompt, if one is in flight, is cancelled.
    pub open spec fn cancelled(self, id: Seq<char>) -> StateV {
        if self.pending.contains_key(id) {
            StateV { pending: self.pending.insert(id, PendingPrompt { cancelled: true }), ..self }
        } else {
            self
        }
    }
}

/// Sweeping keeps a state in which every prompt in flight belongs to a live
/// session, leaves fresh sessions as they were and keeps no stale one.
pub proof fn law_sweep_drops_exactly_the_stale(s: StateV, now: u64, ttl: u64, id: Seq<char>)
    ensures
        s.wf() ==> s.swept(now, ttl).wf(),
        s.swept(now, ttl).sessions.contains_key(id) <==> s.sessions.contains_key(id) && !is_stale(
            s.sessions[id],
            now,
            ttl,
        ),
        s.swept(now, ttl).sessions.contains_key(id) ==> s.swept(now, ttl).sessions[id]
            == s.sessions[id],
        s.sessions.contains_key(id) && is_stale(s.sessions[id], now, ttl) ==> !s.swept(
            now,
            ttl,
        ).pending.contains_key(id),
{
}

impl AcpHttpState {
    /// No sessions and no prompts.
    pub fn new() -> (r: Self)
        ensures
            r@ == (StateV { sessions: Map::empty(), pending: Map::empty() }),
            r@.wf(),
    {
        let r = AcpHttpState { sessions: TextMap::new(), pending: TextMap::new() };
        proof {
            assert(r@.sessions =~= Map::<Seq<char>, SessionV>::empty());
        }
        r
    }

    /// The names of the stale sessions.
    fn stale_ids(&self, now: u64, ttl_secs: u64) -> (r: Vec<String>)
        ensures
            forall|id: Seq<char>|
                self@.stale(now, ttl_secs).contains(id) <==> #[trigger] r.deep_view().contains(id),
    {
        let n: usize = self.sessions.len();
        let ghost keys = self.sessions.keys();
        let ghost stale = self@.stale(now, ttl_secs);
        let limit: u128 = (ttl_secs as u128) * 1_000_000_000;
        let mut out: Vec<String> = Vec::new();
        let mut i: usize = 0;
        while i < n
            invariant
                i <= n == keys.len(),
                keys == self.sessions.keys(),
                keys.to_set() == self.sessions@.dom(),
                stale == self@.stale(now, ttl_secs),
                limit == ttl_secs * 1_000_000_000,
                forall|k: int| 0 <= k < out@.len() ==> stale.contains((#[trigger] out@[k])@),
                forall|j: int|
                    0 <= j < i && stale.contains(#[trigger] keys[j]) ==> out.deep_view().contains(
                        keys[j],
                    ),
            decreases n - i,
        {
            let ghost before = out.deep_view();
            let idle: u64 = now.saturating_sub(self.sessions.value_at(i).last_active);
            let name = self.sessions.key_at(i);
            if idle as u128 >= limit {
                out.push(text(name));
                proof {
                    assert(out.deep_view() =~= before.push(keys[i as int]));
                    assert(out.deep_view()[before.len() as int] == keys[i as int]);
                }
            }
            proof {
                assert forall|j: int| 0 <= j < i + 1 && stale.contains(#[trigger] keys[j]) implies
                    out.deep_view().contains(keys[j]) by {
                    if j < i {
                        assert(before.contains(keys[j]));
                        let k = before.index_of(keys[j]);
                        assert(out.deep_view()[k] == before[k]);
                    }
                }
            }
            i = i + 1;
        }
        proof {
            assert forall|id: Seq<char>| stale.contains(id) <==> #[trigger] out.deep_view().contains(
                id,
            ) by {
                if stale.contains(id) {
                    assert(keys.to_set().contains(id));
                    let j = keys.index_of(id);
                    assert(keys[j] == id);
                }
                if out.deep_view().contains(id) {
                    let k = out.deep_view().index_of(id);
                    assert(out@[k]@ == id);
                }
            }
        }
        out
    }

    /// Drops the sessions that were idle for at least `ttl_secs` seconds, with
    /// their prompts.
    pub fn sweep_expired(&mut self, now: u64, ttl_secs: u64)
        ensures
            final(self)@ == old(self)@.swept(now, ttl_secs),
    {
        let expired = self.stale_ids(now, ttl_secs);
        let ghost ids = expired.deep_view();
        let ghost start = *self;
        let mut i: usize = 0;
        proof {
            assert(ids.take(0).to_set() =~= Set::<Seq<char>>::empty());
            assert(start.sessions@.remove_keys(Set::empty()) =~= start.sessions@);
            assert(start.pending@.remove_keys(Set::empty()) =~= start.pending@);
        }
        while i < expired.len()
            invariant
                i <= expired@.len(),
                ids == expired.deep_view(),
                self.sessions@ == start.sessions@.remove_keys(ids.take(i as int).to_set()),
                self.pending@ == start.pending@.remove_keys(ids.take(i as int).to_set()),
            decreases expired@.len() - i,
        {
            proof {
                let a = ids.take(i as int);
                let b = ids.take(i + 1);
                assert(b =~= a.push(ids[i as int]));
                assert(ids[i as int] == expired@[i as int]@);
                assert forall|x: Seq<char>| b.to_set().contains(x) == (#[trigger] a.to_set().contains(
                    x,
                ) || x == ids[i as int]) by {
                    if a.contains(x) {
                        let k = a.index_of(x);
                        assert(b[k] == x);
                    }
                    if b.contains(x) && x != ids[i as int] {
                        let k = b.index_of(x);
                        assert(a[k] == x);
                    }
                    assert(b[i as int] == ids[i as int]);
                }
                assert(start.sessions@.remove_keys(a.to_set()).remove(ids[i as int])
                    =~= start.sessions@.remove_keys(b.to_set()));
                assert(start.pending@.remove_keys(a.to_set()).remove(ids[i as int])
                    =~= start.pending@.remove_keys(b.to_set()));
            }
            let _ = self.sessions.remove(expired[i].as_str());
            let _ = self.pending.remove(expired[i].as_str());
            i = i + 1;
        }
        proof {
            assert(ids.take(ids.len() as int) =~= ids);
            let stale = start@.stale(now, ttl_secs);
            assert forall|x: Seq<char>| ids.to_set().contains(x) == #[trigger] stale.contains(x) by {
                assert(ids.contains(x) == stale.contains(x));
            }
            assert(ids.to_set() =~= stale);
            assert(self@.sessions =~= start@.swept(now, ttl_secs).sessions);
        }
    }

    /// Notes that a session was used; tells whether there is such a session.
    pub fn touch(&mut self, session_id: &str, now: u64) -> (r: bool)
        ensures
            r == old(self)@.sessions.contains_key(session_id@),
            final(self)@ == (if r {
                old(self)@.touched(session_id@, now)
            } else {
                old(self)@
            }),
    {
        let cwd = match self.sessions.get(session_id) {
            Some(entry) => entry.cwd.clone(),
            None => {
                return false;
            },
        };
        self.sessions.insert(session_id, SessionEntry { cwd, last_active: now });
        proof {
            assert(self@.sessions =~= old(self)@.touched(session_id@, now).sessions);
        }
        true
    }

    /// Cancels a session's prompt, if one is in flight.
    pub fn cancel(&mut self, session_id: &str)
        ensures
            final(self)@ == old(self)@.cancelled(session_id@),
    {
        if self.pending.contains_key(session_id) {
            self.pending.insert(session_id, PendingPrompt { cancelled: true });
        }
    }
}

/// Who may use a channel: those on its list, or everybody where the list is empty and
/// the channel does not deny by default.
pub proof fn law_who_may_use_a_channel(config: BaseChannelConfig, sender: Seq<char>)
    ensures
        config.allowlist@.len() == 0 ==> config.allows(sender) == !config.deny_by_default,
        config.allowlist@.len() > 0 ==> (config.allows(sender) <==> exists|i: int|
            0 <= i < config.allowlist@.len() && #[trigger] config.allowlist@[i]@ == sender),
{
    let all = config.allowlist.deep_view();
    if config.allowlist@.len() > 0 {
        if config.allows(sender) {
            let i = choose|i: int| 0 <= i < all.len() && all[i] == sender;
            assert(config.allowlist@[i]@ == sender);
        }
        if exists|i: int|
            0 <= i < config.allowlist@.len() && #[trigger] config.allowlist@[i]@ == sender {
            let i = choose|i: int|
                0 <= i < config.allowlist@.len() && #[trigger] config.allowlist@[i]@ == sender;
            assert(all[i] == sender);
        }
    }
}

/// A session is stale once it was idle for the given number of seconds.
pub proof fn law_when_sessions_are_stale(entry: SessionV, now: u64, ttl: u64)
    ensures
        now >= entry.last_active ==> (is_stale(entry, now, ttl) <==> now - entry.last_active >= ttl
            * 1_000_000_000),
        now < entry.last_active && ttl > 0 ==> !is_stale(entry, now, ttl),
{
}

/// Using a session changes when it was used last, and cancelling its prompt marks that
/// prompt; every other session and prompt stays as it is.
pub proof fn law_sessions_are_kept_apart(s: StateV, id: Seq<char>, other: Seq<char>, now: u64)
    requires
        other != id,
    ensures
        s.touched(id, now).sessions.contains_key(id),
        s.touched(id, now).sessions[id].last_active == now,
        s.touched(id, now).sessions[id].cwd == s.sessions[id].cwd,
        s.touched(id, now).sessions.contains_key(other) == s.sessions.contains_key(other),
        s.sessions.contains_key(other) ==> s.touched(id, now).sessions[other] == s.sessions[other],
        s.touched(id, now).pending == s.pending,
        s.cancelled(id).sessions == s.sessions,
        s.cancelled(id).pending.contains_key(id) == s.pending.contains_key(id),
        s.pending.contains_key(id) ==> s.cancelled(id).pending[id].cancelled,
        s.cancelled(id).pending.contains_key(other) == s.pending.contains_key(other),
        s.pending.contains_key(other) ==> s.cancelled(id).pending[other] == s.pending[other],
        s.swept_if(now, None) == s,
{
}

/// Sweeping leaves the prompts of fresh sessions in flight.
pub proof fn law_sweep_keeps_prompts_of_fresh_sessions(
    s: StateV,
    now: u64,
    ttl: u64,
    id: Seq<char>,
)
    requires
        !(s.sessions.contains_key(id) && is_stale(s.sessions[id], now, ttl)),
    ensures
        s.swept(now, ttl).pending.contains_key(id) == s.pending.contains_key(id),
        s.pending.contains_key(id) ==> s.swept(now, ttl).pending[id] == s.pending[id],
        s.swept_if(now, Some(ttl)) == s.swept(now, ttl),
{
}

/// A session and the state of a channel hold what their models hold.
pub proof fn law_states_hold_their_sessions(entry: SessionEntry, state: AcpHttpState, id: Seq<char>)
    ensures
        session_view(entry).cwd == entry.cwd@,
        session_view(entry).last_active == entry.last_active,
        state@.sessions.contains_key(id) == state.sessions@.contains_key(id),
        state.sessions@.contains_key(id) ==> state@.sessions[id].cwd == state.sessions@[id].cwd@
            && state@.sessions[id].last_active == state.sessions@[id].last_active,
        state@.pending == state.pending@,
{
}

} // verus!
