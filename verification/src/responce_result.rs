//! Typed responses and how a reply envelope becomes one: a status other than
//! 200 is the gateway's failure, a malformed payload is a decode failure, and
//! a unit response accepts an empty payload.

use vstd::prelude::*;

use crate::data::{spec_player_session, PlayerSession, PlayerSessionV};
use crate::error::Error;
use crate::json::{elems_view, spec_get, Json, JsonV};
use crate::protocol::{
    i64_field, i64_field_ok, payload_empty, payload_is_empty, str_field, str_field_ok,
    take_i64_field, take_str_field, ResponceMessage, ResponceMessageV,
};

verus! {

/// What every typed decode agrees on for a failed reply: a status other than
/// 200 becomes exactly `RequestUnsuccessful` with that status and message.
pub open spec fn unsuccessful<T>(m: ResponceMessageV, r: Result<T, Error>) -> bool {
    match r {
        Result::Err(Error::RequestUnsuccessful(c, e)) => c == m.status_code && e@
            == m.error_message,
        _ => false,
    }
}

/// Decodes a unit response: 200 with an empty payload is success.
pub fn unit_from_response(m: ResponceMessage) -> (r: Result<(), Error>)
    ensures
        m@.status_code != 200 ==> unsuccessful(m@, r),
        m@.status_code == 200 && payload_empty(m@.rest_data) ==> r is Ok,
        m@.status_code == 200 && !payload_empty(m@.rest_data) ==> r matches Result::Err(
            Error::InvalidJson(_),
        ),
{
    if m.status_code != 200 {
        return Err(Error::RequestUnsuccessful(m.status_code, m.error_message));
    }
    if payload_is_empty(&m.rest_data) {
        Ok(())
    } else {
        Err(Error::InvalidJson(String::from_str("expected an empty payload")))
    }
}

#[derive(Clone, Debug)]
pub struct GetComputeCertificateResult {
    pub certificate_path: String,
    pub compute_name: String,
}

pub struct GetComputeCertificateResultV {
    pub certificate_path: Seq<char>,
    pub compute_name: Seq<char>,
}

impl View for GetComputeCertificateResult {
    type V = GetComputeCertificateResultV;

    open spec fn view(&self) -> GetComputeCertificateResultV {
        GetComputeCertificateResultV {
            certificate_path: self.certificate_path@,
            compute_name: self.compute_name@,
        }
    }
}

pub open spec fn spec_compute_certificate(v: JsonV) -> Option<GetComputeCertificateResultV> {
    if v is Obj && str_field_ok(spec_get(v, "CertificatePath"@)) && str_field_ok(
        spec_get(v, "ComputeName"@),
    ) {
        Some(
            GetComputeCertificateResultV {
                certificate_path: str_field(spec_get(v, "CertificatePath"@)),
                compute_name: str_field(spec_get(v, "ComputeName"@)),
            },
        )
    } else {
        None
    }
}

impl GetComputeCertificateResult {
    /// Decodes the typed reply.
    pub fn from_response(m: ResponceMessage) -> (r: Result<GetComputeCertificateResult, Error>)
        ensures
            m@.status_code != 200 ==> unsuccessful(m@, r),
            m@.status_code == 200 ==> match spec_compute_certificate(m@.rest_data) {
                Some(d) => r matches Result::Ok(x) && x@ == d,
                None => r matches Result::Err(Error::InvalidJson(_)),
            },
    {
        if m.status_code != 200 {
            return Err(Error::RequestUnsuccessful(m.status_code, m.error_message));
        }
        let v = m.rest_data;
        match &v {
            Json::Obj(_) => {},
            _ => {
                return Err(Error::InvalidJson(String::from_str("expected an object payload")));
            },
        }
        let certificate_path = match take_str_field(&v, "CertificatePath") {
            Some(s) => s,
            None => {
                return Err(Error::InvalidJson(String::from_str("CertificatePath")));
            },
        };
        let compute_name = match take_str_field(&v, "ComputeName") {
            Some(s) => s,
            None => {
                return Err(Error::InvalidJson(String::from_str("ComputeName")));
            },
        };
        Ok(GetComputeCertificateResult { certificate_path, compute_name })
    }
}

#[derive(Clone, Debug)]
pub struct StartMatchBackfillResult {
    pub ticket_id: String,
}

pub struct StartMatchBackfillResultV {
    pub ticket_id: Seq<char>,
}

impl View for StartMatchBackfillResult {
    type V = StartMatchBackfillResultV;

    open spec fn view(&self) -> StartMatchBackfillResultV {
        StartMatchBackfillResultV { ticket_id: self.ticket_id@ }
    }
}

pub open spec fn spec_start_match_backfill(v: JsonV) -> Option<StartMatchBackfillResultV> {
    if v is Obj && str_field_ok(spec_get(v, "TicketId"@)) {
        Some(StartMatchBackfillResultV { ticket_id: str_field(spec_get(v, "TicketId"@)) })
    } else {
        None
    }
}

impl StartMatchBackfillResult {
    /// Decodes the typed reply.
    pub fn from_response(m: ResponceMessage) -> (r: Result<StartMatchBackfillResult, Error>)
        ensures
            m@.status_code != 200 ==> unsuccessful(m@, r),
            m@.status_code == 200 ==> match spec_start_match_backfill(m@.rest_data) {
                Some(d) => r matches Result::Ok(x) && x@ == d,
                None => r matches Result::Err(Error::InvalidJson(_)),
            },
    {
        if m.status_code != 200 {
            return Err(Error::RequestUnsuccessful(m.status_code, m.error_message));
        }
        let v = m.rest_data;
        match &v {
            Json::Obj(_) => {},
            _ => {
                return Err(Error::InvalidJson(String::from_str("expected an object payload")));
            },
        }
        let ticket_id = match take_str_field(&v, "TicketId") {
            Some(s) => s,
            None => {
                return Err(Error::InvalidJson(String::from_str("TicketId")));
            },
        };
        Ok(StartMatchBackfillResult { ticket_id })
    }
}

/// Fleet-role credentials; the expiration is milliseconds since the epoch.
#[derive(Clone, Debug)]
pub struct GetFleetRoleCredentialsResult {
    pub assumed_role_user_arn: String,
    pub assumed_role_id: String,
    pub access_key_id: String,
    pub secret_access_key: String,
    pub session_token: String,
    pub expiration: i64,
}

pub struct GetFleetRoleCredentialsResultV {
    pub assumed_role_user_arn: Seq<char>,
    pub assumed_role_id: Seq<char>,
    pub access_key_id: Seq<char>,
    pub secret_access_key: Seq<char>,
    pub session_token: Seq<char>,
    pub expiration: int,
}

impl View for GetFleetRoleCredentialsResult {
    type V = GetFleetRoleCredentialsResultV;

    open spec fn view(&self) -> GetFleetRoleCredentialsResultV {
        GetFleetRoleCredentialsResultV {
            assumed_role_user_arn: self.assumed_role_user_arn@,
            assumed_role_id: self.assumed_role_id@,
            access_key_id: self.access_key_id@,
            secret_access_key: self.secret_access_key@,
            session_token: self.session_token@,
            expiration: self.expiration as int,
        }
    }
}

pub open spec fn spec_fleet_role_credentials(v: JsonV) -> Option<GetFleetRoleCredentialsResultV> {
    if v is Obj && str_field_ok(spec_get(v, "AssumedRoleUserArn"@)) && str_field_ok(
        spec_get(v, "AssumedRoleId"@),
    ) && str_field_ok(spec_get(v, "AccessKeyId"@)) && str_field_ok(
        spec_get(v, "SecretAccessKey"@),
    ) && str_field_ok(spec_get(v, "SessionToken"@)) && i64_field_ok(spec_get(v, "Expiration"@)) {
        Some(
            GetFleetRoleCredentialsResultV {
                assumed_role_user_arn: str_field(spec_get(v, "AssumedRoleUserArn"@)),
                assumed_role_id: str_field(spec_get(v, "AssumedRoleId"@)),
                access_key_id: str_field(spec_get(v, "AccessKeyId"@)),
                secret_access_key: str_field(spec_get(v, "SecretAccessKey"@)),
                session_token: str_field(spec_get(v, "SessionToken"@)),
                expiration: i64_field(spec_get(v, "Expiration"@)),
            },
        )
    } else {
        None
    }
}

impl Default for GetFleetRoleCredentialsResult {
    /// Blank credentials expiring at the epoch.
    fn default() -> (r: Self)
        ensures
            r@.assumed_role_user_arn == Seq::<char>::empty(),
            r@.assumed_role_id == Seq::<char>::empty(),
            r@.access_key_id == Seq::<char>::empty(),
            r@.secret_access_key == Seq::<char>::empty(),
            r@.session_token == Seq::<char>::empty(),
            r@.expiration == 0,
    {
        GetFleetRoleCredentialsResult {
            assumed_role_user_arn: String::new(),
            assumed_role_id: String::new(),
            access_key_id: String::new(),
            secret_access_key: String::new(),
            session_token: String::new(),
            expiration: 0,
        }
    }
}

impl GetFleetRoleCredentialsResult {
    /// Decodes the typed reply.
    pub fn from_response(m: ResponceMessage) -> (r: Result<GetFleetRoleCredentialsResult, Error>)
        ensures
            m@.status_code != 200 ==> unsuccessful(m@, r),
            m@.status_code == 200 ==> match spec_fleet_role_credentials(m@.rest_data) {
                Some(d) => r matches Result::Ok(x) && x@ == d,
                None => r matches Result::Err(Error::InvalidJson(_)),
            },
    {
        if m.status_code != 200 {
            return Err(Error::RequestUnsuccessful(m.status_code, m.error_message));
        }
        let v = m.rest_data;
        match &v {
            Json::Obj(_) => {},
            _ => {
                return Err(Error::InvalidJson(String::from_str("expected an object payload")));
            },
        }
        let assumed_role_user_arn = match take_str_field(&v, "AssumedRoleUserArn") {
            Some(s) => s,
            None => {
                return Err(Error::InvalidJson(String::from_str("AssumedRoleUserArn")));
            },
        };
        let assumed_role_id = match take_str_field(&v, "AssumedRoleId") {
            Some(s) => s,
            None => {
                return Err(Error::InvalidJson(String::from_str("AssumedRoleId")));
            },
        };
        let access_key_id = match take_str_field(&v, "AccessKeyId") {
            Some(s) => s,
            None => {
                return Err(Error::InvalidJson(String::from_str("AccessKeyId")));
            },
        };
        let secret_access_key = match take_str_field(&v, "SecretAccessKey") {
            Some(s) => s,
            None => {
                return Err(Error::InvalidJson(String::from_str("SecretAccessKey")));
            },
        };
        let session_token = match take_str_field(&v, "SessionToken") {
            Some(s) => s,
            None => {
                return Err(Error::InvalidJson(String::from_str("SessionToken")));
            },
        };
        let expiration = match take_i64_field(&v, "Expiration") {
            Some(n) => n,
            None => {
                return Err(Error::InvalidJson(String::from_str("Expiration")));
            },
        };
        Ok(
            GetFleetRoleCredentialsResult {
                assumed_role_user_arn,
                assumed_role_id,
                access_key_id,
                secret_access_key,
                session_token,
                expiration,
            },
        )
    }
}

/// A page of player sessions.
pub struct DescribePlayerSessionsResult {
    pub next_token: String,
    pub player_sessions: Vec<PlayerSession>,
}

pub struct DescribePlayerSessionsResultV {
    pub next_token: Seq<char>,
    pub player_sessions: Seq<PlayerSessionV>,
}

impl View for DescribePlayerSessionsResult {
    type V = DescribePlayerSessionsResultV;

    open spec fn view(&self) -> DescribePlayerSessionsResultV {
        DescribePlayerSessionsResultV {
            next_token: self.next_token@,
            player_sessions: Seq::new(
                self.player_sessions@.len(),
                |i: int| self.player_sessions@[i]@,
            ),
        }
    }
}

/// How a list of player-session documents decodes: every element must decode.
pub open spec fn spec_player_sessions(items: Seq<JsonV>) -> Option<Seq<PlayerSessionV>>
    decreases items.len(),
{
    if items.len() == 0 {
        Some(Seq::empty())
    } else {
        match spec_player_session(items[0]) {
            Some(p) => match spec_player_sessions(items.drop_first()) {
                Some(rest) => Some(seq![p] + rest),
                None => None,
            },
            None => None,
        }
    }
}

pub open spec fn sessions_field_ok(o: Option<JsonV>) -> bool {
    match o {
        None => true,
        Some(JsonV::Arr(items)) => spec_player_sessions(items) is Some,
        Some(_) => false,
    }
}

pub open spec fn sessions_field(o: Option<JsonV>) -> Seq<PlayerSessionV> {
    match o {
        Some(JsonV::Arr(items)) => match spec_player_sessions(items) {
            Some(s) => s,
            None => Seq::empty(),
        },
        _ => Seq::empty(),
    }
}

pub open spec fn spec_describe_player_sessions(v: JsonV) -> Option<DescribePlayerSessionsResultV> {
    if v is Obj && str_field_ok(spec_get(v, "NextToken"@)) && sessions_field_ok(
        spec_get(v, "PlayerSessions"@),
    ) {
        Some(
            DescribePlayerSessionsResultV {
                next_token: str_field(spec_get(v, "NextToken"@)),
                player_sessions: sessions_field(spec_get(v, "PlayerSessions"@)),
            },
        )
    } else {
        None
    }
}

impl Default for DescribePlayerSessionsResult {
    /// An empty page.
    fn default() -> (r: Self)
        ensures
            r@.next_token == Seq::<char>::empty(),
            r@.player_sessions == Seq::<PlayerSessionV>::empty(),
    {
        let r = DescribePlayerSessionsResult { next_token: String::new(), player_sessions: Vec::new() };
        proof {
            assert(r@.player_sessions =~= Seq::<PlayerSessionV>::empty());
        }
        r
    }
}

impl DescribePlayerSessionsResult {
    /// Appends one player session, up to the page limit of 1024; beyond it
    /// the session is dropped.
    pub fn add_player_session(&mut self, value: PlayerSession)
        ensures
            old(self)@.player_sessions.len() < 1024 ==> final(self)@.player_sessions == old(
                self,
            )@.player_sessions.push(value@),
            old(self)@.player_sessions.len() >= 1024 ==> final(self)@.player_sessions == old(
                self,
            )@.player_sessions,
            final(self)@.next_token == old(self)@.next_token,
    {
        if self.player_sessions.len() < 1024 {
            self.player_sessions.push(value);
            proof {
                assert(self@.player_sessions =~= old(self)@.player_sessions.push(value@));
            }
        } else {
            proof {
                assert(self@.player_sessions =~= old(self)@.player_sessions);
            }
        }
    }

    /// Decodes the typed reply.
    pub fn from_response(m: ResponceMessage) -> (r: Result<DescribePlayerSessionsResult, Error>)
        ensures
            m@.status_code != 200 ==> unsuccessful(m@, r),
            m@.status_code == 200 ==> match spec_describe_player_sessions(m@.rest_data) {
                Some(d) => r matches Result::Ok(x) && x@ == d,
                None => r matches Result::Err(Error::InvalidJson(_)),
            },
    {
        let ghost mv = m@;
        if m.status_code != 200 {
            return Err(Error::RequestUnsuccessful(m.status_code, m.error_message));
        }
        let v = m.rest_data;
        match &v {
            Json::Obj(_) => {},
            _ => {
                return Err(Error::InvalidJson(String::from_str("expected an object payload")));
            },
        }
        let next_token = match take_str_field(&v, "NextToken") {
            Some(s) => s,
            None => {
                return Err(Error::InvalidJson(String::from_str("NextToken")));
            },
        };
        let sessions_key = String::from_str("PlayerSessions");
        let player_sessions: Vec<PlayerSession> = match v.get(&sessions_key) {
            None => Vec::new(),
            Some(f) => match f {
                Json::Arr(items) => {
                    proof {
                        crate::json::lemma_elems_view(items@);
                    }
                    let mut out: Vec<PlayerSession> = Vec::new();
                    let mut i: usize = 0;
                    while i < items.len()
                        invariant
                            0 <= i <= items@.len(),
                            mv == m@,
                            mv.status_code == 200,
                            mv.rest_data == v@,
                            v@ is Obj,
                            str_field_ok(spec_get(v@, "NextToken"@)),
                            spec_get(v@, "PlayerSessions"@) == Some(
                                JsonV::Arr(elems_view(items@)),
                            ),
                            elems_view(items@).len() == items@.len(),
                            forall|k: int|
                                0 <= k < items@.len() ==> elems_view(items@)[k]
                                    == crate::json::json_view(#[trigger] items@[k]),
                            out@.len() == i,
                            spec_player_sessions(elems_view(items@).take(i as int)) == Some(
                                Seq::new(out@.len(), |k: int| out@[k]@),
                            ),
                        decreases items@.len() - i,
                    {
                        match PlayerSession::from_json(&items[i]) {
                            Some(p) => {
                                let ghost out0 = out@;
                                out.push(p);
                                proof {
                                    lemma_sessions_take_step(elems_view(items@), i as int);
                                    assert(Seq::new(out@.len(), |k: int| out@[k]@) =~= Seq::new(
                                        out0.len(),
                                        |k: int| out0[k]@,
                                    ).push(p@));
                                }
                            },
                            None => {
                                proof {
                                    lemma_sessions_bad_elem(elems_view(items@), i as int);
                                    assert(!sessions_field_ok(spec_get(v@, "PlayerSessions"@)));
                                    assert(spec_describe_player_sessions(mv.rest_data) is None);
                                }
                                return Err(
                                    Error::InvalidJson(String::from_str("PlayerSessions")),
                                );
                            },
                        }
                        i = i + 1;
                    }
                    proof {
                        assert(elems_view(items@).take(items@.len() as int) =~= elems_view(
                            items@,
                        ));
                    }
                    out
                },
                _ => {
                    return Err(Error::InvalidJson(String::from_str("PlayerSessions")));
                },
            },
        };
        let res = DescribePlayerSessionsResult { next_token, player_sessions };
        proof {
            assert(res@.player_sessions =~= sessions_field(spec_get(v@, "PlayerSessions"@)));
        }
        Ok(res)
    }
}

/// Decoding a prefix extends by one decoded element.
proof fn lemma_sessions_take_step(items: Seq<JsonV>, i: int)
    requires
        0 <= i < items.len(),
        spec_player_session(items[i]) is Some,
        spec_player_sessions(items.take(i)) is Some,
    ensures
        spec_player_sessions(items.take(i + 1)) == Some(
            spec_player_sessions(items.take(i))->Some_0.push(spec_player_session(items[i])->Some_0),
        ),
    decreases i,
{
    if i == 0 {
        let p0 = spec_player_session(items[0])->Some_0;
        assert(items.take(1).len() == 1);
        assert(items.take(1)[0] == items[0]);
        assert(items.take(1).drop_first() =~= Seq::<JsonV>::empty());
        assert(spec_player_sessions(Seq::<JsonV>::empty()) == Some(Seq::<
            PlayerSessionV,
        >::empty()));
        assert(spec_player_sessions(items.take(1)) == Some(seq![p0] + Seq::<
            PlayerSessionV,
        >::empty()));
        assert(items.take(0) =~= Seq::<JsonV>::empty());
        assert(seq![p0] + Seq::<PlayerSessionV>::empty() =~= spec_player_sessions(
            items.take(0),
        )->Some_0.push(p0));
    } else {
        assert(items.take(i)[0] == items[0]);
        assert(items.take(i + 1)[0] == items[0]);
        assert(items.take(i).drop_first() =~= items.drop_first().take(i - 1));
        assert(items.take(i + 1).drop_first() =~= items.drop_first().take(i));
        assert(items.drop_first()[i - 1] == items[i]);
        lemma_sessions_take_step(items.drop_first(), i - 1);
        let rest0 = spec_player_sessions(items.drop_first().take(i - 1))->Some_0;
        let p0 = spec_player_session(items[0])->Some_0;
        let pi = spec_player_session(items[i])->Some_0;
        assert(spec_player_sessions(items.take(i)) == Some(seq![p0] + rest0));
        assert(spec_player_sessions(items.take(i + 1)) == Some(seq![p0] + rest0.push(pi)));
        assert(seq![p0] + rest0.push(pi) =~= (seq![p0] + rest0).push(pi));
    }
}

/// A bad element fails the whole list.
proof fn lemma_sessions_bad_elem(items: Seq<JsonV>, i: int)
    requires
        0 <= i < items.len(),
        spec_player_session(items[i]) is None,
    ensures
        spec_player_sessions(items) is None,
    decreases i,
{
    if items.len() > 0 {
        if i == 0 {
        } else {
            assert(items.drop_first()[i - 1] == items[i]);
            lemma_sessions_bad_elem(items.drop_first(), i - 1);
        }
    }
}

} // verus!
