//! The session core: the readiness flag, the recorded game session and
//! termination time, the dispatcher's decisions about user callbacks, the
//! health-report decision, the reconnect identity, and the fleet-role
//! credential cache with its freshness rule.

use vstd::prelude::*;

use crate::connection_state::ServerEventInner;
use crate::error::Error;
use crate::json::chars_vec;
use crate::json::string_from_chars;
use crate::message::{CreateGameSessionMessage, CreateGameSessionMessageV, RefreshConnectionMessage,
    UpdateGameSessionMessageV};
use crate::data::PlayerSessionCreationPolicy;
use crate::request::{
    AcceptPlayerSessionRequest, ActivateGameSessionRequest, ActivateServerProcessRequest,
    GetFleetRoleCredentialsRequest, HeartbeatServerProcessRequest, RemovePlayerSessionRequest,
    TerminateServerProcessRequest, UpdatePlayerSessionCreationPolicyRequest,
};
use crate::responce_result::{GetFleetRoleCredentialsResult, GetFleetRoleCredentialsResultV};
use crate::server_parameters::ServerParameters;

verus! {

/// The longest role session name the credentials service accepts.
pub const ROLE_SESSION_NAME_MAX_LENGTH: usize = 64;

/// Cached credentials count as fresh while they have more than this long
/// before expiration.
pub const INSTANCE_ROLE_CREDENTIAL_TTL_MILLIS: i64 = 900000;

pub const HEALTHCHECK_INTERVAL_SECONDS: u64 = 60;

pub const HEALTHCHECK_MAX_JITTER_SECONDS: u64 = 10;

pub const HEALTHCHECK_TIMEOUT_SECONDS: u64 = HEALTHCHECK_INTERVAL_SECONDS
    - HEALTHCHECK_MAX_JITTER_SECONDS;

// ---------------------------------------------------------------------------
// Session state and the dispatcher's decisions
// ---------------------------------------------------------------------------
/// The single source of truth for one connection's session.
pub struct ServerStateInner {
    is_process_ready: bool,
    game_session_id: Option<String>,
    termination_time: Option<i64>,
    fleet_id: String,
    host_id: String,
    process_id: String,
}

impl ServerStateInner {
    pub closed spec fn spec_ready(&self) -> bool {
        self.is_process_ready
    }

    pub closed spec fn spec_game_session_id(&self) -> Option<Seq<char>> {
        match self.game_session_id {
            Some(s) => Some(s@),
            None => None,
        }
    }

    pub closed spec fn spec_termination_time(&self) -> Option<int> {
        match self.termination_time {
            Some(t) => Some(t as int),
            None => None,
        }
    }

    pub closed spec fn spec_fleet_id(&self) -> Seq<char> {
        self.fleet_id@
    }

    pub closed spec fn spec_host_id(&self) -> Seq<char> {
        self.host_id@
    }

    pub closed spec fn spec_process_id(&self) -> Seq<char> {
        self.process_id@
    }

    /// A fresh session for a new connection: not ready, nothing recorded.
    pub fn new(fleet_id: String, host_id: String, process_id: String) -> (r: ServerStateInner)
        ensures
            !r.spec_ready(),
            r.spec_game_session_id() is None,
            r.spec_termination_time() is None,
            r.spec_fleet_id() == fleet_id@,
            r.spec_host_id() == host_id@,
            r.spec_process_id() == process_id@,
    {
        ServerStateInner {
            is_process_ready: false,
            game_session_id: None,
            termination_time: None,
            fleet_id,
            host_id,
            process_id,
        }
    }

    pub fn is_process_ready(&self) -> (r: bool)
        ensures
            r == self.spec_ready(),
    {
        self.is_process_ready
    }

    pub fn set_is_process_ready(&mut self, value: bool)
        ensures
            final(self).spec_ready() == value,
            final(self).spec_game_session_id() == old(self).spec_game_session_id(),
            final(self).spec_termination_time() == old(self).spec_termination_time(),
            final(self).spec_fleet_id() == old(self).spec_fleet_id(),
            final(self).spec_host_id() == old(self).spec_host_id(),
            final(self).spec_process_id() == old(self).spec_process_id(),
    {
        self.is_process_ready = value;
    }

    /// The recorded game session id; an error until a session-start event has
    /// been delivered.
    pub fn get_game_session_id(&self) -> (r: Result<String, Error>)
        ensures
            match self.spec_game_session_id() {
                Some(s) => r matches Result::Ok(v) && v@ == s,
                None => r matches Result::Err(e) && e is GameSessionIdNotSet,
            },
    {
        match &self.game_session_id {
            Some(s) => Ok(s.clone()),
            None => Err(Error::GameSessionIdNotSet),
        }
    }

    /// The recorded termination time; an error until a terminate notice has
    /// been delivered.
    pub fn get_termination_time(&self) -> (r: Result<i64, Error>)
        ensures
            match self.spec_termination_time() {
                Some(t) => r matches Result::Ok(v) && v as int == t,
                None => r matches Result::Err(e) && e is TerminationTimeNotSet,
            },
    {
        match &self.termination_time {
            Some(t) => Ok(*t),
            None => Err(Error::TerminationTimeNotSet),
        }
    }
}

/// One user callback the dispatcher must invoke.
pub enum CallbackCall {
    StartGameSession(CreateGameSessionMessage),
    UpdateGameSession(crate::message::UpdateGameSessionMessage),
    ProcessTerminate,
    HealthCheck,
}

pub enum CallbackCallV {
    StartGameSession(CreateGameSessionMessageV),
    UpdateGameSession(UpdateGameSessionMessageV),
    ProcessTerminate,
    HealthCheck,
}

impl View for CallbackCall {
    type V = CallbackCallV;

    open spec fn view(&self) -> CallbackCallV {
        match self {
            CallbackCall::StartGameSession(m) => CallbackCallV::StartGameSession(m@),
            CallbackCall::UpdateGameSession(m) => CallbackCallV::UpdateGameSession(m@),
            CallbackCall::ProcessTerminate => CallbackCallV::ProcessTerminate,
            CallbackCall::HealthCheck => CallbackCallV::HealthCheck,
        }
    }
}

impl DeepView for CallbackCall {
    type V = CallbackCallV;

    open spec fn deep_view(&self) -> CallbackCallV {
        self@
    }
}

/// What the dispatcher does with one dequeued event.
pub enum DispatchStep {
    /// Invoke this user callback.
    Invoke(CallbackCall),
    /// Drop the event.
    Skip,
    /// Reconnect to a new endpoint; never surfaced to user code.
    Reconnect(RefreshConnectionMessage),
}

/// The session descriptor with the fleet id this server already knows.
pub open spec fn inject_fleet(g: CreateGameSessionMessageV, fleet: Seq<char>) -> (
    CreateGameSessionMessageV) {
    CreateGameSessionMessageV { fleet_id: fleet, ..g }
}

/// Which callback one event earns, given the readiness at delivery.
pub open spec fn event_call(e: ServerEventInner, ready: bool, fleet: Seq<char>) -> Option<
    CallbackCallV,
> {
    match e {
        ServerEventInner::OnStartGameSession(m) => if ready {
            Some(CallbackCallV::StartGameSession(inject_fleet(m@, fleet)))
        } else {
            None
        },
        ServerEventInner::OnUpdateGameSession(m) => if ready {
            Some(CallbackCallV::UpdateGameSession(m@))
        } else {
            None
        },
        ServerEventInner::OnTerminateProcess(_) => Some(CallbackCallV::ProcessTerminate),
        ServerEventInner::OnRefreshConnection(_) => None,
        ServerEventInner::OnHealthCheck => if ready {
            Some(CallbackCallV::HealthCheck)
        } else {
            None
        },
    }
}

impl ServerStateInner {
    /// One dequeued event: a session start is recorded and surfaced only on a
    /// ready process; an update is surfaced only on a ready process; a
    /// terminate notice is recorded and surfaced regardless; a refresh is
    /// handled internally; a health tick is surfaced as a health check.
    pub fn dispatch_event(&mut self, event: ServerEventInner) -> (r: DispatchStep)
        ensures
            final(self).spec_ready() == old(self).spec_ready(),
            final(self).spec_fleet_id() == old(self).spec_fleet_id(),
            final(self).spec_host_id() == old(self).spec_host_id(),
            final(self).spec_process_id() == old(self).spec_process_id(),
            match event_call(event, old(self).spec_ready(), old(self).spec_fleet_id()) {
                Some(c) => r matches DispatchStep::Invoke(cc) && cc@ == c,
                None => (event matches ServerEventInner::OnRefreshConnection(m) ==> (
                r matches DispatchStep::Reconnect(m2) && m2 == m)) && (!(
                event is OnRefreshConnection) ==> r is Skip),
            },
            match event {
                ServerEventInner::OnStartGameSession(m) => {
                    &&& final(self).spec_game_session_id() == (if old(self).spec_ready() {
                        Some(m@.game_session_id)
                    } else {
                        old(self).spec_game_session_id()
                    })
                    &&& final(self).spec_termination_time() == old(self).spec_termination_time()
                },
                ServerEventInner::OnTerminateProcess(m) => {
                    &&& final(self).spec_termination_time() == Some(m@.termination_time)
                    &&& final(self).spec_game_session_id() == old(self).spec_game_session_id()
                },
                _ => {
                    &&& final(self).spec_game_session_id() == old(self).spec_game_session_id()
                    &&& final(self).spec_termination_time() == old(self).spec_termination_time()
                },
            },
    {
        match event {
            ServerEventInner::OnStartGameSession(m) => {
                let mut m = m;
                m.fleet_id = self.fleet_id.clone();
                if !self.is_process_ready {
                    return DispatchStep::Skip;
                }
                self.game_session_id = Some(m.game_session_id.clone());
                DispatchStep::Invoke(CallbackCall::StartGameSession(m))
            },
            ServerEventInner::OnUpdateGameSession(m) => {
                if !self.is_process_ready {
                    return DispatchStep::Skip;
                }
                DispatchStep::Invoke(CallbackCall::UpdateGameSession(m))
            },
            ServerEventInner::OnTerminateProcess(m) => {
                self.termination_time = Some(m.termination_time);
                DispatchStep::Invoke(CallbackCall::ProcessTerminate)
            },
            ServerEventInner::OnRefreshConnection(m) => DispatchStep::Reconnect(m),
            ServerEventInner::OnHealthCheck => {
                if !self.is_process_ready {
                    return DispatchStep::Skip;
                }
                DispatchStep::Invoke(CallbackCall::HealthCheck)
            },
        }
    }

    /// The identity a reconnect uses: the same process, host and fleet, under
    /// the refreshed endpoint and token.
    pub fn on_refresh_connection(&self, message: RefreshConnectionMessage) -> (r: ServerParameters)
        ensures
            r@.web_socket_url == message@.refresh_connection_endpoint,
            r@.auth_token == message@.auth_token,
            r@.process_id == self.spec_process_id(),
            r@.host_id == self.spec_host_id(),
            r@.fleet_id == self.spec_fleet_id(),
    {
        ServerParameters {
            web_socket_url: message.refresh_connection_endpoint,
            process_id: self.process_id.clone(),
            host_id: self.host_id.clone(),
            fleet_id: self.fleet_id.clone(),
            auth_token: message.auth_token,
        }
    }

    /// The health tick's decision: nothing is reported on a process that is
    /// not ready; otherwise a heartbeat carries the callback's verdict, and a
    /// callback that timed out counts as unhealthy.
    pub fn report_health(&self, callback_result: Option<bool>) -> (r: Option<
        HeartbeatServerProcessRequest,
    >)
        ensures
            !self.spec_ready() ==> r is None,
            self.spec_ready() ==> (r matches Some(h) && h.health_status == (callback_result
                == Some(true))),
    {
        if !self.is_process_ready {
            return None;
        }
        let health_status = match callback_result {
            Some(b) => b,
            None => false,
        };
        Some(HeartbeatServerProcessRequest { health_status })
    }
}

// ---------------------------------------------------------------------------
// Callback order and session-id delivery, over whole event sequences
// ---------------------------------------------------------------------------
/// The callbacks a sequence of events earns, in event order.
pub open spec fn calls_view(events: Seq<ServerEventInner>, ready: bool, fleet: Seq<char>) -> Seq<
    CallbackCallV,
>
    decreases events.len(),
{
    if events.len() == 0 {
        Seq::empty()
    } else {
        match event_call(events[0], ready, fleet) {
            Some(c) => seq![c] + calls_view(events.drop_first(), ready, fleet),
            None => calls_view(events.drop_first(), ready, fleet),
        }
    }
}

/// The recorded game session id after a sequence of events.
pub open spec fn gsid_after(
    events: Seq<ServerEventInner>,
    ready: bool,
    init: Option<Seq<char>>,
) -> Option<Seq<char>>
    decreases events.len(),
{
    if events.len() == 0 {
        init
    } else {
        let next = match events[0] {
            ServerEventInner::OnStartGameSession(m) => if ready {
                Some(m@.game_session_id)
            } else {
                init
            },
            _ => init,
        };
        gsid_after(events.drop_first(), ready, next)
    }
}

impl ServerStateInner {
    /// Delivers a batch of dequeued events in order. The callbacks come out
    /// exactly in the order their events entered, none is earned by an event
    /// that arrived while the process was not ready, and the recorded game
    /// session id ends as the last ready session start dictates.
    pub fn dispatch_all(&mut self, events: Vec<ServerEventInner>) -> (r: Vec<CallbackCall>)
        requires
            !(exists|i: int|
                0 <= i < events@.len() && (#[trigger] events@[i]) is OnRefreshConnection),
        ensures
            final(self).spec_ready() == old(self).spec_ready(),
            final(self).spec_fleet_id() == old(self).spec_fleet_id(),
            r.deep_view() == calls_view(events@, old(self).spec_ready(), old(self).spec_fleet_id()),
            final(self).spec_game_session_id() == gsid_after(
                events@,
                old(self).spec_ready(),
                old(self).spec_game_session_id(),
            ),
    {
        let ghost all = events@;
        let ghost ready0 = self.spec_ready();
        let ghost fleet0 = self.spec_fleet_id();
        let mut events = events;
        let total = events.len();
        let mut r: Vec<CallbackCall> = Vec::new();
        proof {
            assert(all.skip(0) =~= all);
            assert(all.len() == total);
            assert(r.deep_view() =~= Seq::<CallbackCallV>::empty());
        }
        let mut n: usize = 0;
        while events.len() > 0
            invariant
                0 <= n <= all.len(),
                all.len() <= usize::MAX,
                events@ == all.skip(n as int),
                self.spec_ready() == ready0,
                self.spec_fleet_id() == fleet0,
                !(exists|i: int|
                    0 <= i < all.len() && (#[trigger] all[i]) is OnRefreshConnection),
                calls_view(all, ready0, fleet0) == r.deep_view() + calls_view(
                    all.skip(n as int),
                    ready0,
                    fleet0,
                ),
                gsid_after(all, ready0, old(self).spec_game_session_id()) == gsid_after(
                    all.skip(n as int),
                    ready0,
                    self.spec_game_session_id(),
                ),
            decreases events@.len(),
        {
            let e = events.remove(0);
            proof {
                assert(all.skip(n as int).len() == all.len() - n);
                assert(n < all.len());
                assert(all.skip(n as int)[0] == all[n as int]);
                assert(events@ =~= all.skip(n + 1 as int));
                assert(all.skip(n as int).drop_first() =~= all.skip(n + 1 as int));
                assert(!(all[n as int] is OnRefreshConnection));
            }
            let ghost r0 = r.deep_view();
            let step = self.dispatch_event(e);
            match step {
                DispatchStep::Invoke(c) => {
                    r.push(c);
                    proof {
                        assert(r.deep_view() =~= r0.push(r@[r@.len() - 1]@));
                        assert(r0.push(r@[r@.len() - 1]@) =~= r0 + seq![r@[r@.len() - 1]@]);
                        assert(r0 + seq![r@[r@.len() - 1]@] + calls_view(
                            all.skip(n + 1 as int),
                            ready0,
                            fleet0,
                        ) =~= r0 + (seq![r@[r@.len() - 1]@] + calls_view(
                            all.skip(n + 1 as int),
                            ready0,
                            fleet0,
                        )));
                    }
                },
                DispatchStep::Skip => {
                },
                DispatchStep::Reconnect(_) => {
                },
            }
            n = n + 1;
        }
        proof {
            assert(all.skip(all.len() as int) =~= Seq::<ServerEventInner>::empty());
            assert(r.deep_view() + Seq::<CallbackCallV>::empty() =~= r.deep_view());
        }
        r
    }
}

/// A game session id is on record exactly when one was already on record or a
/// session-start event was delivered while the process was ready.
pub proof fn lemma_game_session_id_delivery(
    events: Seq<ServerEventInner>,
    ready: bool,
    init: Option<Seq<char>>,
)
    ensures
        gsid_after(events, ready, init) is Some <==> (init is Some || (ready && exists|i: int|
            0 <= i < events.len() && (#[trigger] events[i]) is OnStartGameSession)),
    decreases events.len(),
{
    if events.len() > 0 {
        let next = match events[0] {
            ServerEventInner::OnStartGameSession(m) => if ready {
                Some(m@.game_session_id)
            } else {
                init
            },
            _ => init,
        };
        lemma_game_session_id_delivery(events.drop_first(), ready, next);
        assert forall|i: int|
            0 <= i < events.drop_first().len() implies events.drop_first()[i] == events[i
            + 1] by {}
        if gsid_after(events, ready, init) is Some {
            if !(init is Some) && ready {
                if next is Some {
                    assert(events[0] is OnStartGameSession);
                } else {
                    let j = choose|j: int|
                        0 <= j < events.drop_first().len() && (#[trigger] events.drop_first()[j])
                            is OnStartGameSession;
                    assert(events[j + 1] is OnStartGameSession);
                }
            }
        }
        if init is Some || (ready && exists|i: int|
            0 <= i < events.len() && (#[trigger] events[i]) is OnStartGameSession) {
            if !(init is Some) && !(next is Some) {
                let j = choose|j: int|
                    0 <= j < events.len() && (#[trigger] events[j]) is OnStartGameSession;
                assert(j > 0);
                assert(events.drop_first()[j - 1] is OnStartGameSession);
            }
        }
    }
}

// ---------------------------------------------------------------------------
// The credential cache
// ---------------------------------------------------------------------------
type CacheEntry = (String, GetFleetRoleCredentialsResult);

/// The first cached result for a role, if any.
pub open spec fn cache_lookup(c: Seq<CacheEntry>, arn: Seq<char>) -> Option<
    GetFleetRoleCredentialsResult,
>
    decreases c.len(),
{
    if c.len() == 0 {
        None
    } else if c[0].0@ == arn {
        Some(c[0].1)
    } else {
        cache_lookup(c.drop_first(), arn)
    }
}

/// The cache without any entry for a role.
pub open spec fn cache_remove(c: Seq<CacheEntry>, arn: Seq<char>) -> Seq<CacheEntry>
    decreases c.len(),
{
    if c.len() == 0 {
        Seq::empty()
    } else if c[0].0@ == arn {
        cache_remove(c.drop_first(), arn)
    } else {
        seq![c[0]] + cache_remove(c.drop_first(), arn)
    }
}

proof fn lemma_cache_remove_absent(c: Seq<CacheEntry>, arn: Seq<char>)
    requires
        forall|k: int| 0 <= k < c.len() ==> (#[trigger] c[k]).0@ != arn,
    ensures
        cache_remove(c, arn) == c,
        cache_lookup(c, arn) is None,
    decreases c.len(),
{
    if c.len() > 0 {
        assert(forall|k: int|
            0 <= k < c.drop_first().len() ==> (#[trigger] c.drop_first()[k]).0@ != arn);
        lemma_cache_remove_absent(c.drop_first(), arn);
        assert(seq![c[0]] + c.drop_first() =~= c);
    }
}

proof fn lemma_cache_remove_at(c: Seq<CacheEntry>, arn: Seq<char>, i: int)
    requires
        0 <= i < c.len(),
        c[i].0@ == arn,
        forall|k: int| 0 <= k < c.len() && k != i ==> (#[trigger] c[k]).0@ != arn,
    ensures
        cache_remove(c, arn) == c.remove(i),
        cache_lookup(c, arn) == Some(c[i].1),
    decreases i,
{
    if i == 0 {
        assert forall|k: int| 0 <= k < c.drop_first().len() implies (#[trigger] c.drop_first()[
        k]).0@ != arn by {
            assert(c.drop_first()[k] == c[k + 1]);
        }
        lemma_cache_remove_absent(c.drop_first(), arn);
        assert(c.remove(0) =~= c.drop_first());
    } else {
        assert(c.drop_first()[i - 1] == c[i]);
        assert forall|k: int|
            0 <= k < c.drop_first().len() && k != i - 1 implies (#[trigger] c.drop_first()[k]).0@
            != arn by {
            assert(c.drop_first()[k] == c[k + 1]);
        }
        lemma_cache_remove_at(c.drop_first(), arn, i - 1);
        assert(seq![c[0]] + c.drop_first().remove(i - 1) =~= c.remove(i));
    }
}

/// No two cache entries name the same role.
pub open spec fn cache_unique(c: Seq<CacheEntry>) -> bool {
    forall|i: int, j: int| 0 <= i < j < c.len() ==> (#[trigger] c[i]).0@ != (#[trigger] c[j]).0@
}

/// Whether a cached result is still fresh at the given time.
pub open spec fn credentials_fresh(e: GetFleetRoleCredentialsResultV, now_ms: int) -> bool {
    e.expiration - INSTANCE_ROLE_CREDENTIAL_TTL_MILLIS > now_ms
}

/// The role session name synthesized from the fleet and host ids, capped at
/// the service's limit.
pub open spec fn synthesized_role_session_name(fleet: Seq<char>, host: Seq<char>) -> Seq<char> {
    let full = fleet + seq!['-'] + host;
    if full.len() <= ROLE_SESSION_NAME_MAX_LENGTH {
        full
    } else {
        full.take(ROLE_SESSION_NAME_MAX_LENGTH as int)
    }
}

/// What the credential path decides before any network traffic.
pub enum CredentialsStep {
    /// A fresh cached result answers the call; no request is sent.
    Cached(GetFleetRoleCredentialsResult),
    /// No fresh entry: this request must be sent.
    Send(GetFleetRoleCredentialsRequest),
    /// The request is rejected before sending.
    Rejected(Error),
}

/// The session core together with the credential cache.
pub struct ServerState {
    inner: ServerStateInner,
    instance_role_result_cache: Vec<CacheEntry>,
}

impl ServerState {
    pub closed spec fn spec_inner(&self) -> ServerStateInner {
        self.inner
    }

    pub closed spec fn spec_cache(&self) -> Seq<CacheEntry> {
        self.instance_role_result_cache@
    }

    pub closed spec fn cache_wf(&self) -> bool {
        cache_unique(self.spec_cache())
    }

    /// A fresh session core around the connection identity.
    pub fn new(params: &ServerParameters) -> (r: ServerState)
        ensures
            r.cache_wf(),
            r.spec_cache() == Seq::<CacheEntry>::empty(),
            !r.spec_inner().spec_ready(),
            r.spec_inner().spec_game_session_id() is None,
            r.spec_inner().spec_termination_time() is None,
            r.spec_inner().spec_fleet_id() == params@.fleet_id,
            r.spec_inner().spec_host_id() == params@.host_id,
            r.spec_inner().spec_process_id() == params@.process_id,
    {
        let r = ServerState {
            inner: ServerStateInner::new(
                params.fleet_id.clone(),
                params.host_id.clone(),
                params.process_id.clone(),
            ),
            instance_role_result_cache: Vec::new(),
        };
        proof {
            assert(r.instance_role_result_cache@ =~= Seq::<CacheEntry>::empty());
        }
        r
    }

    /// Read-only access to the session core.
    pub fn inner_ref(&self) -> (r: &ServerStateInner)
        ensures
            *r == self.spec_inner(),
    {
        &self.inner
    }

    /// Marks the process ready and builds the activation request the caller
    /// must send; the dispatcher and health loop start on its success.
    pub fn process_ready(&mut self, port: u16, log_paths: &Vec<String>) -> (r:
        ActivateServerProcessRequest)
        ensures
            final(self).spec_inner().spec_ready(),
            final(self).spec_inner().spec_game_session_id()
                == old(self).spec_inner().spec_game_session_id(),
            final(self).spec_inner().spec_termination_time()
                == old(self).spec_inner().spec_termination_time(),
            final(self).spec_inner().spec_fleet_id() == old(self).spec_inner().spec_fleet_id(),
            final(self).spec_inner().spec_host_id() == old(self).spec_inner().spec_host_id(),
            final(self).spec_inner().spec_process_id() == old(self).spec_inner().spec_process_id(),
            final(self).spec_cache() == old(self).spec_cache(),
            final(self).cache_wf() == old(self).cache_wf(),
            r.sdk_version@ == "5.0.0"@,
            r.sdk_language@ == "Rust"@,
            r.port == port,
            r.log_paths.deep_view() == log_paths.deep_view(),
    {
        self.inner.set_is_process_ready(true);
        let mut paths: Vec<String> = Vec::new();
        let mut i: usize = 0;
        while i < log_paths.len()
            invariant
                0 <= i <= log_paths@.len(),
                paths@.len() == i,
                forall|k: int| 0 <= k < i ==> (#[trigger] paths@[k])@ == log_paths@[k]@,
            decreases log_paths@.len() - i,
        {
            paths.push(log_paths[i].clone());
            i = i + 1;
        }
        proof {
            assert(paths.deep_view() =~= log_paths.deep_view());
        }
        ActivateServerProcessRequest {
            sdk_version: String::from_str("5.0.0"),
            sdk_language: String::from_str("Rust"),
            port,
            log_paths: paths,
        }
    }

    /// Clears readiness and builds the terminate request the caller must
    /// send; the gateway acknowledges it with a close frame.
    pub fn process_ending(&mut self) -> (r: TerminateServerProcessRequest)
        ensures
            !final(self).spec_inner().spec_ready(),
            final(self).spec_inner().spec_game_session_id()
                == old(self).spec_inner().spec_game_session_id(),
            final(self).spec_inner().spec_termination_time()
                == old(self).spec_inner().spec_termination_time(),
            final(self).spec_inner().spec_fleet_id() == old(self).spec_inner().spec_fleet_id(),
            final(self).spec_inner().spec_host_id() == old(self).spec_inner().spec_host_id(),
            final(self).spec_inner().spec_process_id() == old(self).spec_inner().spec_process_id(),
            final(self).spec_cache() == old(self).spec_cache(),
            final(self).cache_wf() == old(self).cache_wf(),
    {
        self.inner.set_is_process_ready(false);
        TerminateServerProcessRequest {  }
    }

    /// Builds the activation request for the recorded game session; an error
    /// when no session has been delivered.
    pub fn activate_game_session(&self) -> (r: Result<ActivateGameSessionRequest, Error>)
        ensures
            match self.spec_inner().spec_game_session_id() {
                Some(s) => r matches Result::Ok(q) && q.game_session_id@ == s,
                None => r matches Result::Err(e) && e is GameSessionIdNotSet,
            },
    {
        match self.inner.get_game_session_id() {
            Ok(game_session_id) => Ok(ActivateGameSessionRequest { game_session_id }),
            Err(e) => Err(e),
        }
    }

    /// Builds the policy update for the recorded game session; an error when
    /// no session has been delivered.
    pub fn update_player_session_creation_policy(
        &self,
        player_session_policy: PlayerSessionCreationPolicy,
    ) -> (r: Result<UpdatePlayerSessionCreationPolicyRequest, Error>)
        ensures
            match self.spec_inner().spec_game_session_id() {
                Some(s) => r matches Result::Ok(q) && (q.game_session_id@ == s
                    && q.player_session_policy == player_session_policy),
                None => r matches Result::Err(e) && e is GameSessionIdNotSet,
            },
    {
        match self.inner.get_game_session_id() {
            Ok(game_session_id) => Ok(
                UpdatePlayerSessionCreationPolicyRequest { game_session_id, player_session_policy },
            ),
            Err(e) => Err(e),
        }
    }

    /// Builds the acceptance of a player's connection to the recorded game
    /// session; an error when no session has been delivered.
    pub fn accept_player_session(&self, player_session_id: String) -> (r: Result<
        AcceptPlayerSessionRequest,
        Error,
    >)
        ensures
            match self.spec_inner().spec_game_session_id() {
                Some(s) => r matches Result::Ok(q) && (q.game_session_id@ == s
                    && q.player_session_id@ == player_session_id@),
                None => r matches Result::Err(e) && e is GameSessionIdNotSet,
            },
    {
        match self.inner.get_game_session_id() {
            Ok(game_session_id) => Ok(
                AcceptPlayerSessionRequest { game_session_id, player_session_id },
            ),
            Err(e) => Err(e),
        }
    }

    /// Builds the removal of a player from the recorded game session; an
    /// error when no session has been delivered.
    pub fn remove_player_session(&self, player_session_id: String) -> (r: Result<
        RemovePlayerSessionRequest,
        Error,
    >)
        ensures
            match self.spec_inner().spec_game_session_id() {
                Some(s) => r matches Result::Ok(q) && (q.game_session_id@ == s
                    && q.player_session_id@ == player_session_id@),
                None => r matches Result::Err(e) && e is GameSessionIdNotSet,
            },
    {
        match self.inner.get_game_session_id() {
            Ok(game_session_id) => Ok(
                RemovePlayerSessionRequest { game_session_id, player_session_id },
            ),
            Err(e) => Err(e),
        }
    }

    /// The recorded game session id, exactly when one has been delivered.
    pub fn get_game_session_id(&self) -> (r: Result<String, Error>)
        ensures
            match self.spec_inner().spec_game_session_id() {
                Some(s) => r matches Result::Ok(v) && v@ == s,
                None => r matches Result::Err(e) && e is GameSessionIdNotSet,
            },
    {
        self.inner.get_game_session_id()
    }

    /// The recorded termination time, exactly when a notice has arrived.
    pub fn get_termination_time(&self) -> (r: Result<i64, Error>)
        ensures
            match self.spec_inner().spec_termination_time() {
                Some(t) => r matches Result::Ok(v) && v as int == t,
                None => r matches Result::Err(e) && e is TerminationTimeNotSet,
            },
    {
        self.inner.get_termination_time()
    }

    /// Delivers one dequeued event.
    pub fn dispatch_event(&mut self, event: ServerEventInner) -> (r: DispatchStep)
        ensures
            final(self).spec_cache() == old(self).spec_cache(),
            final(self).cache_wf() == old(self).cache_wf(),
            final(self).spec_inner().spec_ready() == old(self).spec_inner().spec_ready(),
            final(self).spec_inner().spec_fleet_id() == old(self).spec_inner().spec_fleet_id(),
            final(self).spec_inner().spec_host_id() == old(self).spec_inner().spec_host_id(),
            final(self).spec_inner().spec_process_id() == old(self).spec_inner().spec_process_id(),
            match event_call(
                event,
                old(self).spec_inner().spec_ready(),
                old(self).spec_inner().spec_fleet_id(),
            ) {
                Some(c) => r matches DispatchStep::Invoke(cc) && cc@ == c,
                None => (event matches ServerEventInner::OnRefreshConnection(m) ==> (
                r matches DispatchStep::Reconnect(m2) && m2 == m)) && (!(
                event is OnRefreshConnection) ==> r is Skip),
            },
            match event {
                ServerEventInner::OnStartGameSession(m) => final(self).spec_inner().spec_game_session_id()
                    == (if old(self).spec_inner().spec_ready() {
                    Some(m@.game_session_id)
                } else {
                    old(self).spec_inner().spec_game_session_id()
                }),
                ServerEventInner::OnTerminateProcess(m) => final(self).spec_inner().spec_termination_time()
                    == Some(m@.termination_time),
                _ => final(self).spec_inner().spec_game_session_id()
                    == old(self).spec_inner().spec_game_session_id()
                    && final(self).spec_inner().spec_termination_time()
                    == old(self).spec_inner().spec_termination_time(),
            },
    {
        self.inner.dispatch_event(event)
    }

    /// Delivers a batch of dequeued events in order, with the guarantees of
    /// the session core's batch delivery.
    pub fn dispatch_all(&mut self, events: Vec<ServerEventInner>) -> (r: Vec<CallbackCall>)
        requires
            !(exists|i: int|
                0 <= i < events@.len() && (#[trigger] events@[i]) is OnRefreshConnection),
        ensures
            final(self).spec_cache() == old(self).spec_cache(),
            final(self).cache_wf() == old(self).cache_wf(),
            final(self).spec_inner().spec_ready() == old(self).spec_inner().spec_ready(),
            r.deep_view() == calls_view(
                events@,
                old(self).spec_inner().spec_ready(),
                old(self).spec_inner().spec_fleet_id(),
            ),
            final(self).spec_inner().spec_game_session_id() == gsid_after(
                events@,
                old(self).spec_inner().spec_ready(),
                old(self).spec_inner().spec_game_session_id(),
            ),
    {
        self.inner.dispatch_all(events)
    }

    /// The health tick's decision for this session.
    pub fn report_health(&self, callback_result: Option<bool>) -> (r: Option<
        HeartbeatServerProcessRequest,
    >)
        ensures
            !self.spec_inner().spec_ready() ==> r is None,
            self.spec_inner().spec_ready() ==> (r matches Some(h) && h.health_status == (
            callback_result == Some(true))),
    {
        self.inner.report_health(callback_result)
    }

    /// The identity a reconnect uses.
    pub fn on_refresh_connection(&self, message: RefreshConnectionMessage) -> (r: ServerParameters)
        ensures
            r@.web_socket_url == message@.refresh_connection_endpoint,
            r@.auth_token == message@.auth_token,
            r@.process_id == self.spec_inner().spec_process_id(),
            r@.host_id == self.spec_inner().spec_host_id(),
            r@.fleet_id == self.spec_inner().spec_fleet_id(),
    {
        self.inner.on_refresh_connection(message)
    }

    /// The credential path's first half: a missing session name is
    /// synthesized from the fleet and host ids and capped at the limit, a
    /// given name over the limit is rejected; then a fresh cached entry
    /// answers at once, and otherwise a stale entry is evicted and the call
    /// goes out under the resolved name.
    pub fn prepare_fleet_role_credentials(
        &mut self,
        request: GetFleetRoleCredentialsRequest,
        now_ms: i64,
    ) -> (r: CredentialsStep)
        requires
            old(self).cache_wf(),
        ensures
            final(self).cache_wf(),
            final(self).spec_inner() == old(self).spec_inner(),
            match resolved_name(request.role_session_name, old(self).spec_inner()) {
                None => {
                    &&& final(self).spec_cache() == old(self).spec_cache()
                    &&& (r matches CredentialsStep::Rejected(e) && e is BadRequest)
                },
                Some(name) => match cache_lookup(old(self).spec_cache(), request.role_arn@) {
                    Some(e) => if credentials_fresh(e@, now_ms as int) {
                        &&& final(self).spec_cache() == old(self).spec_cache()
                        &&& (r matches CredentialsStep::Cached(c) && c@ == e@)
                    } else {
                        &&& final(self).spec_cache() == cache_remove(
                            old(self).spec_cache(),
                            request.role_arn@,
                        )
                        &&& sent_with_name(r, request.role_arn@, name)
                    },
                    None => {
                        &&& final(self).spec_cache() == old(self).spec_cache()
                        &&& sent_with_name(r, request.role_arn@, name)
                    },
                },
            },
    {
        let role_arn = request.role_arn;
        let name: String = match request.role_session_name {
            Some(s) => {
                let cs = chars_vec(s.as_str());
                if cs.len() > ROLE_SESSION_NAME_MAX_LENGTH {
                    return CredentialsStep::Rejected(
                        Error::BadRequest(
                            String::from_str(
                                "Role session name cannot be over 64 chars (enforced by the credentials service)",
                            ),
                        ),
                    );
                }
                s
            },
            None => self.synthesize_role_session_name(),
        };
        let ghost c0 = self.instance_role_result_cache@;
        let n = self.instance_role_result_cache.len();
        let mut idx: usize = 0;
        while idx < n
            invariant
                0 <= idx <= n,
                n == self.instance_role_result_cache@.len(),
                self.instance_role_result_cache@ == c0,
                *self == *old(self),
                cache_unique(c0),
                role_arn@ == request.role_arn@,
                Some(name@) == resolved_name(request.role_session_name, old(self).spec_inner()),
                forall|k: int| 0 <= k < idx ==> (#[trigger] c0[k]).0@ != role_arn@,
            decreases n - idx,
        {
            if self.instance_role_result_cache[idx].0 == role_arn {
                proof {
                    assert forall|k: int|
                        0 <= k < c0.len() && k != idx implies (#[trigger] c0[k]).0@ != role_arn@
                    by {
                        if k > idx {
                            assert(c0[idx as int].0@ == role_arn@);
                        }
                    }
                    lemma_cache_remove_at(c0, role_arn@, idx as int);
                }
                let entry_expiration = self.instance_role_result_cache[idx].1.expiration;
                let fresh = (entry_expiration as i128) - (INSTANCE_ROLE_CREDENTIAL_TTL_MILLIS
                    as i128) > (now_ms as i128);
                if fresh {
                    let e = &self.instance_role_result_cache[idx].1;
                    let copy = GetFleetRoleCredentialsResult {
                        assumed_role_user_arn: e.assumed_role_user_arn.clone(),
                        assumed_role_id: e.assumed_role_id.clone(),
                        access_key_id: e.access_key_id.clone(),
                        secret_access_key: e.secret_access_key.clone(),
                        session_token: e.session_token.clone(),
                        expiration: e.expiration,
                    };
                    return CredentialsStep::Cached(copy);
                }
                proof {
                    let q = c0.remove(idx as int);
                    assert forall|a: int, b: int|
                        0 <= a < b < q.len() implies (#[trigger] q[a]).0@ != (#[trigger] q[b]).0@
                    by {
                        let a0: int = if a < idx {
                            a
                        } else {
                            a + 1
                        };
                        let b0: int = if b < idx {
                            b
                        } else {
                            b + 1
                        };
                        assert(q[a] == c0[a0] && q[b] == c0[b0]);
                    }
                }
                self.instance_role_result_cache.remove(idx);
                return CredentialsStep::Send(
                    GetFleetRoleCredentialsRequest { role_arn, role_session_name: Some(name) },
                );
            }
            idx = idx + 1;
        }
        proof {
            lemma_cache_remove_absent(c0, role_arn@);
        }
        CredentialsStep::Send(
            GetFleetRoleCredentialsRequest { role_arn, role_session_name: Some(name) },
        )
    }

    /// The session name used when the caller gave none: the fleet and host
    /// ids joined by a hyphen, capped at the limit.
    fn synthesize_role_session_name(&self) -> (r: String)
        ensures
            r@ == synthesized_role_session_name(
                self.spec_inner().spec_fleet_id(),
                self.spec_inner().spec_host_id(),
            ),
    {
        let fleet = self.inner.fleet_id();
        let host = self.inner.host_id();
        let mut cs = chars_vec(fleet.as_str());
        cs.push('-');
        let hs = chars_vec(host.as_str());
        let mut k: usize = 0;
        while k < hs.len()
            invariant
                0 <= k <= hs@.len(),
                cs@ == fleet@ + seq!['-'] + hs@.take(k as int),
                hs@ == host@,
                fleet@ == self.spec_inner().spec_fleet_id(),
                host@ == self.spec_inner().spec_host_id(),
            decreases hs@.len() - k,
        {
            cs.push(hs[k]);
            proof {
                assert(hs@.take(k + 1 as int) =~= hs@.take(k as int).push(hs@[k as int]));
                assert(cs@ =~= fleet@ + seq!['-'] + hs@.take(k + 1 as int));
            }
            k = k + 1;
        }
        proof {
            assert(hs@.take(hs@.len() as int) =~= hs@);
        }
        if cs.len() > ROLE_SESSION_NAME_MAX_LENGTH {
            let mut t: Vec<char> = Vec::new();
            let mut k2: usize = 0;
            while k2 < ROLE_SESSION_NAME_MAX_LENGTH
                invariant
                    0 <= k2 <= ROLE_SESSION_NAME_MAX_LENGTH,
                    cs@.len() > ROLE_SESSION_NAME_MAX_LENGTH,
                    t@ == cs@.take(k2 as int),
                decreases ROLE_SESSION_NAME_MAX_LENGTH - k2,
            {
                t.push(cs[k2]);
                proof {
                    assert(cs@.take(k2 + 1 as int) =~= cs@.take(k2 as int).push(cs@[k2 as int]));
                }
                k2 = k2 + 1;
            }
            string_from_chars(&t)
        } else {
            string_from_chars(&cs)
        }
    }

    /// The credential path's second half: an answer with an empty access key
    /// means the process is not running on a managed host and is rejected;
    /// anything else replaces the cache entry for the role and is returned.
    pub fn complete_fleet_role_credentials(
        &mut self,
        role_arn: String,
        result: GetFleetRoleCredentialsResult,
    ) -> (r: Result<GetFleetRoleCredentialsResult, Error>)
        requires
            old(self).cache_wf(),
        ensures
            final(self).cache_wf(),
            final(self).spec_inner() == old(self).spec_inner(),
            result.access_key_id@.len() == 0 ==> {
                &&& final(self).spec_cache() == old(self).spec_cache()
                &&& (r matches Result::Err(e) && e is BadRequest)
            },
            result.access_key_id@.len() > 0 ==> {
                &&& final(self).spec_cache() == cache_remove(
                    old(self).spec_cache(),
                    role_arn@,
                ).push((role_arn, result))
                &&& (r matches Result::Ok(v) && v@ == result@)
            },
    {
        if result.access_key_id.as_str().is_empty() {
            return Err(
                Error::BadRequest(
                    String::from_str("SDK is not running on managed hosting, failing the request"),
                ),
            );
        }
        let copy = GetFleetRoleCredentialsResult {
            assumed_role_user_arn: result.assumed_role_user_arn.clone(),
            assumed_role_id: result.assumed_role_id.clone(),
            access_key_id: result.access_key_id.clone(),
            secret_access_key: result.secret_access_key.clone(),
            session_token: result.session_token.clone(),
            expiration: result.expiration,
        };
        let ghost c0 = self.instance_role_result_cache@;
        let mut idx: usize = 0;
        while idx < self.instance_role_result_cache.len()
            invariant
                0 <= idx <= self.instance_role_result_cache@.len(),
                self.instance_role_result_cache@ == c0,
                c0 == old(self).spec_cache(),
                self.inner == old(self).spec_inner(),
                cache_unique(c0),
                result.access_key_id@.len() > 0,
                copy@ == result@,
                forall|k: int| 0 <= k < idx ==> (#[trigger] c0[k]).0@ != role_arn@,
            decreases self.instance_role_result_cache@.len() - idx,
        {
            if self.instance_role_result_cache[idx].0 == role_arn {
                proof {
                    assert forall|k: int|
                        0 <= k < c0.len() && k != idx implies (#[trigger] c0[k]).0@ != role_arn@
                    by {
                        if k > idx {
                            assert(c0[idx as int].0@ == role_arn@);
                        }
                    }
                    lemma_cache_remove_at(c0, role_arn@, idx as int);
                    let q = c0.remove(idx as int);
                    assert forall|a: int, b: int|
                        0 <= a < b < q.len() implies (#[trigger] q[a]).0@ != (#[trigger] q[b]).0@
                    by {
                        let a0: int = if a < idx {
                            a
                        } else {
                            a + 1
                        };
                        let b0: int = if b < idx {
                            b
                        } else {
                            b + 1
                        };
                        assert(q[a] == c0[a0] && q[b] == c0[b0]);
                    }
                    assert forall|k: int|
                        0 <= k < q.len() implies (#[trigger] q[k]).0@ != role_arn@ by {
                        let k0: int = if k < idx {
                            k
                        } else {
                            k + 1
                        };
                        assert(q[k] == c0[k0]);
                    }
                }
                self.instance_role_result_cache.remove(idx);
                self.instance_role_result_cache.push((role_arn, result));
                proof {
                    let q = c0.remove(idx as int);
                    let fin = self.instance_role_result_cache@;
                    assert(fin == q.push((role_arn, result)));
                    assert forall|a: int, b: int|
                        0 <= a < b < fin.len() implies (#[trigger] fin[a]).0@ != (
                    #[trigger] fin[b]).0@ by {
                        if b < q.len() {
                            assert(fin[a] == q[a] && fin[b] == q[b]);
                        } else {
                            assert(fin[a] == q[a] && fin[b] == (role_arn, result));
                        }
                    }
                }
                return Ok(copy);
            }
            idx = idx + 1;
        }
        proof {
            lemma_cache_remove_absent(c0, role_arn@);
        }
        self.instance_role_result_cache.push((role_arn, result));
        proof {
            let fin = self.instance_role_result_cache@;
            assert(fin == c0.push((role_arn, result)));
            assert forall|a: int, b: int|
                0 <= a < b < fin.len() implies (#[trigger] fin[a]).0@ != (#[trigger] fin[b]).0@
            by {
                if b < c0.len() {
                    assert(fin[a] == c0[a] && fin[b] == c0[b]);
                } else {
                    assert(fin[a] == c0[a] && fin[b] == (role_arn, result));
                }
            }
        }
        Ok(copy)
    }
}

/// The session name a request goes out under: the given one when within the
/// limit, the synthesized one when none was given, nothing when the given one
/// is over the limit.
pub open spec fn resolved_name(given: Option<String>, inner: ServerStateInner) -> Option<
    Seq<char>,
> {
    match given {
        Some(s) => if s@.len() > ROLE_SESSION_NAME_MAX_LENGTH {
            None
        } else {
            Some(s@)
        },
        None => Some(
            synthesized_role_session_name(inner.spec_fleet_id(), inner.spec_host_id()),
        ),
    }
}

/// The request that goes out: the same role, the resolved session name.
pub open spec fn sent_with_name(r: CredentialsStep, arn: Seq<char>, name: Seq<char>) -> bool {
    r matches CredentialsStep::Send(q) && (q.role_arn@ == arn && (q.role_session_name matches Some(
        n,
    ) && n@ == name))
}

impl ServerStateInner {
    /// The fleet this process belongs to.
    pub fn fleet_id(&self) -> (r: String)
        ensures
            r@ == self.spec_fleet_id(),
    {
        self.fleet_id.clone()
    }

    /// The host this process runs on.
    pub fn host_id(&self) -> (r: String)
        ensures
            r@ == self.spec_host_id(),
    {
        self.host_id.clone()
    }
}

} // verus!
