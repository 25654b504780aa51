//! The climate provider's three-step authenticated session: credential
//! exchange, installation lookup, climate query. Each step's decision logic
//! is here; the transport that carries the requests is not.
//!
//! The session is a small state machine — unauthenticated, authenticated,
//! installation resolved, climate fetched — and no step can run before the
//! one it depends on has succeeded. Temperatures are carried in
//! milli-degrees.

use vstd::prelude::*;

use crate::errors::Error;
use crate::strorder::lex_lt;
use crate::strorder::lemma_lex_connected;
use crate::strorder::lemma_lex_irrefl;
use crate::strorder::lemma_lex_trans;
use crate::strorder::str_lex_lt;

verus! {

/// What the base64 encoding (standard alphabet, no padding) of the UTF-8
/// bytes of a text is; it depends on the text alone.
pub uninterp spec fn base64_nopad_of(s: Seq<char>) -> Seq<char>;

/// Relies on base64's `STANDARD_NO_PAD` engine: `encode` returns the
/// standard-alphabet, unpadded base64 text of the input bytes, a function of
/// the input alone; an empty input encodes to an empty text.
#[verifier::external_body]
fn b64_nopad(s: &str) -> (r: String)
    ensures
        r@ == base64_nopad_of(s@),
        s@.len() == 0 ==> r@.len() == 0,
{
    base64::Engine::encode(&base64::engine::general_purpose::STANDARD_NO_PAD, s)
}

/// The value of the HTTP `Authorization` header the login step sends:
/// the scheme, then the encoded `username:password` pair.
pub fn basic_auth_header(username: &str, password: &str) -> (r: String)
    ensures
        r@ == "Basic "@ + base64_nopad_of(username@ + ":"@ + password@),
{
    let creds = String::from_str(username).concat(":").concat(password);
    let encoded = b64_nopad(creds.as_str());
    String::from_str("Basic ").concat(encoded.as_str())
}

pub open spec fn installations_body_prefix() -> Seq<char> {
    "[{\"operationName\":\"AccountInstallations\",\"variables\":{\"email\":\""@
}

pub open spec fn installations_body_suffix() -> Seq<char> {
    "\"},\"query\":\"query AccountInstallations($email: String!) {\\n  account(email: $email) {\\n    owainstallations {\\n      giid\\n      alias\\n      type\\n      subsidiary\\n      dealerId\\n      installationOwner\\n      subtype\\n      __typename\\n    }\\n    __typename\\n  }\\n}\\n\"}]"@
}

/// The GraphQL request body of the installation lookup, scoped to the
/// account email.
pub fn installations_query_body(email: &str) -> (r: String)
    ensures
        r@ == installations_body_prefix() + email@ + installations_body_suffix(),
{
    String::from_str(
        "[{\"operationName\":\"AccountInstallations\",\"variables\":{\"email\":\"",
    ).concat(email).concat(
        "\"},\"query\":\"query AccountInstallations($email: String!) {\\n  account(email: $email) {\\n    owainstallations {\\n      giid\\n      alias\\n      type\\n      subsidiary\\n      dealerId\\n      installationOwner\\n      subtype\\n      __typename\\n    }\\n    __typename\\n  }\\n}\\n\"}]",
    )
}

pub open spec fn climate_body_prefix() -> Seq<char> {
    "[{\"operationName\":\"Climate\",\"variables\":{\"giid\":\""@
}

pub open spec fn climate_body_suffix() -> Seq<char> {
    "\"},\"query\":\"query Climate($giid: String!) {\\n  installation(giid: $giid) {\\n    climates {\\n      device {\\n        deviceLabel\\n        area\\n        __typename\\n      }\\n      temperatureValue\\n      __typename\\n    }\\n    __typename\\n  }\\n}\\n\"}]"@
}

/// The GraphQL request body of the climate query, scoped to one
/// installation.
pub fn climate_query_body(giid: &str) -> (r: String)
    ensures
        r@ == climate_body_prefix() + giid@ + climate_body_suffix(),
{
    String::from_str("[{\"operationName\":\"Climate\",\"variables\":{\"giid\":\"").concat(
        giid,
    ).concat(
        "\"},\"query\":\"query Climate($giid: String!) {\\n  installation(giid: $giid) {\\n    climates {\\n      device {\\n        deviceLabel\\n        area\\n        __typename\\n      }\\n      temperatureValue\\n      __typename\\n    }\\n    __typename\\n  }\\n}\\n\"}]",
    )
}

/// An HTTP status in the success range.
pub open spec fn status_success(status: u16) -> bool {
    200 <= status < 300
}

/// The token fields a successful login body must contain. They are not used
/// downstream, but their absence makes the login malformed.
#[derive(Debug)]
pub struct LoginTokens {
    pub access_token: String,
    pub access_token_max_age_seconds: u32,
    pub refresh_token: String,
    pub refresh_token_max_age_seconds: u32,
}

/// One installation of the account; only `giid` is consumed.
#[derive(Debug)]
pub struct OwaInstallation {
    pub giid: String,
    pub alias: String,
    pub kind: String,
    pub subsidiary: Option<String>,
    pub dealer_id: Option<String>,
}

/// The device part of one climate record.
#[derive(Debug)]
pub struct Device {
    pub device_label: String,
    pub area: String,
}

/// One climate record of the installation; a `None` temperature is a null
/// reading the provider sent and is skipped, not defaulted.
#[derive(Debug)]
pub struct Climate {
    pub device: Device,
    /// Milli-degrees; `None` where the provider sent null.
    pub temperature_value: Option<i64>,
}

/// Area names strictly ascend, so each area occurs once.
pub open spec fn wf_entries(s: Seq<(String, i64)>) -> bool {
    forall|i: int, j: int| 0 <= i < j < s.len() ==> lex_lt(s[i].0@, s[j].0@)
}

pub open spec fn set_has(s: Seq<(String, i64)>, a: Seq<char>, t: i64) -> bool {
    exists|i: int| 0 <= i < s.len() && s[i].0@ == a && s[i].1 == t
}

/// The temperature of the last record for `a` that carries one, if any:
/// a repeated area label keeps its last reading.
pub open spec fn last_temp(records: Seq<Climate>, a: Seq<char>) -> Option<i64>
    decreases records.len(),
{
    if records.len() == 0 {
        None::<i64>
    } else if records.last().device.area@ == a && records.last().temperature_value is Some {
        records.last().temperature_value
    } else {
        last_temp(records.drop_last(), a)
    }
}

/// The mapping from area name to temperature, keys unique and sorted by
/// name for stable display.
#[derive(Debug)]
pub struct ClimateSet {
    pub entries: Vec<(String, i64)>,
}

impl ClimateSet {
    pub open spec fn wf(self) -> bool {
        wf_entries(self.entries@)
    }

    pub open spec fn has(self, a: Seq<char>, t: i64) -> bool {
        set_has(self.entries@, a, t)
    }
}

/// The normalized climate result of one cycle.
#[derive(Debug)]
pub struct VerisureData {
    pub climate: ClimateSet,
}

/// Puts one reading into a sorted entry list, overwriting the area's
/// earlier reading if it has one.
fn insert_entry(entries: &mut Vec<(String, i64)>, area: String, t: i64)
    requires
        wf_entries(old(entries)@),
    ensures
        wf_entries(final(entries)@),
        forall|a: Seq<char>, v: i64|
            set_has(final(entries)@, a, v) <==> (if a == area@ {
                v == t
            } else {
                set_has(old(entries)@, a, v)
            }),
{
    let ghost pre = entries@;
    let mut k: usize = 0;
    while k < entries.len() && str_lex_lt(entries[k].0.as_str(), area.as_str())
        invariant
            pre == entries@,
            k <= pre.len(),
            wf_entries(pre),
            forall|i: int| 0 <= i < k ==> lex_lt(pre[i].0@, area@),
        decreases pre.len() - k,
    {
        k = k + 1;
    }
    if k < entries.len() && !str_lex_lt(area.as_str(), entries[k].0.as_str()) {
        // Neither name precedes the other: the area is already present.
        proof {
            lemma_lex_connected(pre[k as int].0@, area@);
            assert(pre[k as int].0@ == area@);
        }
        entries.remove(k);
        entries.insert(k, (area, t));
        let ghost post = entries@;
        proof {
            assert(forall|i: int| 0 <= i < post.len() && i != k ==> post[i] == pre[i]);
            assert(post[k as int].0@ == area@ && post[k as int].1 == t);
            assert(wf_entries(post));
            assert forall|i: int| 0 <= i < pre.len() && i != k implies pre[i].0@ != area@ by {
                lemma_lex_irrefl(area@);
            }
            assert forall|a: Seq<char>, v: i64|
                set_has(post, a, v) implies (if a == area@ {
                v == t
            } else {
                set_has(pre, a, v)
            }) by {
                let i = choose|i: int| 0 <= i < post.len() && post[i].0@ == a && post[i].1 == v;
                if i != k {
                    assert(pre[i].0@ == a && pre[i].1 == v);
                }
            }
            assert forall|a: Seq<char>, v: i64|
                a != area@ && set_has(pre, a, v) implies set_has(post, a, v) by {
                let i = choose|i: int| 0 <= i < pre.len() && pre[i].0@ == a && pre[i].1 == v;
                assert(i != k);
                assert(post[i].0@ == a && post[i].1 == v);
            }
            assert(set_has(post, area@, t));
        }
    } else {
        // The area is new; it belongs exactly at position k.
        proof {
            if k < pre.len() {
                assert(lex_lt(area@, pre[k as int].0@));
            }
            assert forall|i: int| k <= i < pre.len() implies lex_lt(area@, pre[i].0@) by {
                if i > k {
                    lemma_lex_trans(area@, pre[k as int].0@, pre[i].0@);
                }
            }
            assert forall|i: int| 0 <= i < pre.len() implies pre[i].0@ != area@ by {
                lemma_lex_irrefl(area@);
                if i < k {
                    assert(lex_lt(pre[i].0@, area@));
                } else {
                    assert(lex_lt(area@, pre[i].0@));
                }
            }
        }
        entries.insert(k, (area, t));
        let ghost post = entries@;
        proof {
            assert(forall|i: int| 0 <= i < k ==> post[i] == pre[i]);
            assert(post[k as int].0@ == area@ && post[k as int].1 == t);
            assert(forall|i: int| k < i < post.len() ==> post[i] == pre[i - 1]);
            assert(wf_entries(post));
            assert forall|a: Seq<char>, v: i64|
                set_has(post, a, v) implies (if a == area@ {
                v == t
            } else {
                set_has(pre, a, v)
            }) by {
                let i = choose|i: int| 0 <= i < post.len() && post[i].0@ == a && post[i].1 == v;
                if i < k {
                    assert(pre[i].0@ == a && pre[i].1 == v);
                } else if i > k {
                    assert(pre[i - 1].0@ == a && pre[i - 1].1 == v);
                }
            }
            assert forall|a: Seq<char>, v: i64|
                a != area@ && set_has(pre, a, v) implies set_has(post, a, v) by {
                let i = choose|i: int| 0 <= i < pre.len() && pre[i].0@ == a && pre[i].1 == v;
                if i < k {
                    assert(post[i].0@ == a && post[i].1 == v);
                } else {
                    assert(post[i + 1].0@ == a && post[i + 1].1 == v);
                }
            }
            assert(set_has(post, area@, t));
        }
    }
}

/// Builds the climate set of a cycle: one entry per area that has at least
/// one non-null reading, holding the last such reading, sorted by area.
pub fn climate_set_from_records(records: &Vec<Climate>) -> (r: ClimateSet)
    ensures
        r.wf(),
        forall|a: Seq<char>, t: i64| r.has(a, t) <==> last_temp(records@, a) == Some(t),
{
    let mut entries: Vec<(String, i64)> = Vec::new();
    let mut i: usize = 0;
    while i < records.len()
        invariant
            i <= records@.len(),
            wf_entries(entries@),
            forall|a: Seq<char>, t: i64|
                set_has(entries@, a, t) <==> last_temp(records@.take(i as int), a) == Some(t),
        decreases records@.len() - i,
    {
        let rec = &records[i];
        proof {
            assert(records@.take(i + 1).drop_last() =~= records@.take(i as int));
            assert(records@.take(i + 1).last() == records@[i as int]);
        }
        match rec.temperature_value {
            Some(t) => {
                insert_entry(&mut entries, rec.device.area.clone(), t);
                proof {
                    assert forall|a: Seq<char>, v: i64|
                        set_has(entries@, a, v) <==> last_temp(records@.take(i + 1), a) == Some(
                        v,
                    ) by {
                        if a == rec.device.area@ {
                            assert(last_temp(records@.take(i + 1), a) == Some(t));
                        } else {
                            assert(last_temp(records@.take(i + 1), a) == last_temp(
                                records@.take(i as int),
                                a,
                            ));
                        }
                    }
                }
            },
            None => {
                proof {
                    assert forall|a: Seq<char>|
                        last_temp(records@.take(i + 1), a) == last_temp(
                            records@.take(i as int),
                            a,
                        ) by {}
                }
            },
        }
        i = i + 1;
    }
    proof {
        assert(records@.take(records@.len() as int) =~= records@);
    }
    ClimateSet { entries }
}

/// Where in the three-step handshake a session stands.
#[derive(Debug, Clone, Copy, PartialEq, Eq, Structural)]
pub enum SessionStage {
    Unauthenticated,
    Authenticated,
    InstallationResolved,
    ClimateFetched,
}

/// One cycle's authenticated session context. A fresh session starts
/// unauthenticated; each step requires the previous step's success and the
/// whole value is discarded after the climate is fetched or any step fails.
#[derive(Debug)]
pub struct ClimateSession {
    st: SessionStage,
    giid: Option<String>,
}

impl ClimateSession {
    pub closed spec fn stage(self) -> SessionStage {
        self.st
    }

    /// The resolved installation id, once the lookup has succeeded.
    pub closed spec fn giid_view(self) -> Option<Seq<char>> {
        match self.giid {
            Some(g) => Some(g@),
            None => None::<Seq<char>>,
        }
    }

    pub fn new() -> (s: Self)
        ensures
            s.stage() == SessionStage::Unauthenticated,
            s.giid_view() is None,
    {
        ClimateSession { st: SessionStage::Unauthenticated, giid: None }
    }

    /// Where the handshake currently stands.
    pub fn current_stage(&self) -> (st: SessionStage)
        ensures
            st == self.stage(),
    {
        self.st
    }

    /// Settles the login step from the provider's reply: the HTTP status and
    /// the token fields, where the reply body decoded to them. Succeeds
    /// exactly on a success status with a well-formed body; any rejection or
    /// malformed body is an authentication error, with the reply text kept
    /// for diagnostics.
    pub fn login(&mut self, status: u16, tokens: Option<LoginTokens>, body: &str) -> (r: Result<
        (),
        Error,
    >)
        requires
            old(self).stage() == SessionStage::Unauthenticated,
        ensures
            r is Ok <==> (status_success(status) && tokens is Some),
            r is Ok ==> final(self).stage() == SessionStage::Authenticated,
            r is Err ==> final(self).stage() == SessionStage::Unauthenticated,
            !status_success(status) ==> (r matches Err(Error::AuthError(m)) && m@ == body@),
            (status_success(status) && tokens is None) ==> (r matches Err(Error::AuthError(m))
                && m@ == "login body lacked token fields"@),
    {
        if !(200 <= status && status < 300) {
            return Err(Error::AuthError(String::from_str(body)));
        }
        match tokens {
            Some(_) => {
                self.st = SessionStage::Authenticated;
                Ok(())
            },
            None => Err(Error::AuthError(String::from_str("login body lacked token fields"))),
        }
    }

    /// Settles the installation lookup from the provider's reply: the HTTP
    /// status and the decoded installation list, where the body decoded.
    /// Exactly one installation is expected; the first is used. An empty
    /// list is a defined not-found failure, never an out-of-bounds access.
    pub fn resolve_installation_id(
        &mut self,
        status: u16,
        installations: Option<&Vec<OwaInstallation>>,
        body: &str,
    ) -> (r: Result<String, Error>)
        requires
            old(self).stage() == SessionStage::Authenticated,
        ensures
            r is Ok <==> (status_success(status) && (installations matches Some(v) && v@.len()
                > 0)),
            !status_success(status) ==> (r matches Err(Error::AuthError(m)) && m@ == body@),
            (status_success(status) && installations is None) ==> (r matches Err(
                Error::DecodeError(m),
            ) && m@ == "installation reply did not match the expected schema"@),
            status_success(status) ==> (installations matches Some(v) ==> (v@.len() == 0 ==> r
                matches Err(Error::NotFoundError))),
            status_success(status) ==> (installations matches Some(v) ==> (v@.len() > 0 ==> (r
                matches Ok(g) && g@ == v@[0].giid@ && final(self).stage()
                == SessionStage::InstallationResolved && final(self).giid_view() == Some(
                v@[0].giid@,
            )))),
            r is Err ==> final(self).stage() == SessionStage::Authenticated,
    {
        if !(200 <= status && status < 300) {
            return Err(Error::AuthError(String::from_str(body)));
        }
        match installations {
            None => Err(
                Error::DecodeError(
                    String::from_str("installation reply did not match the expected schema"),
                ),
            ),
            Some(v) => {
                if v.len() == 0 {
                    Err(Error::NotFoundError)
                } else {
                    let g = v[0].giid.clone();
                    self.giid = Some(g.clone());
                    self.st = SessionStage::InstallationResolved;
                    Ok(g)
                }
            },
        }
    }

    /// Settles the climate query from the provider's reply: the HTTP status
    /// and the decoded records, where the body decoded. On success the
    /// records collapse to the climate set — null temperatures skipped,
    /// repeated areas keeping their last reading, areas sorted. An empty
    /// set is a valid result, not an error.
    pub fn fetch_climate(&mut self, status: u16, records: Option<&Vec<Climate>>, body: &str) -> (r:
        Result<VerisureData, Error>)
        requires
            old(self).stage() == SessionStage::InstallationResolved,
        ensures
            r is Ok <==> (status_success(status) && records is Some),
            !status_success(status) ==> (r matches Err(Error::AuthError(m)) && m@ == body@),
            (status_success(status) && records is None) ==> (r matches Err(Error::DecodeError(m))
                && m@ == "climate reply did not match the expected schema"@),
            status_success(status) ==> (records matches Some(recs) ==> (r matches Ok(d)
                && d.climate.wf() && forall|a: Seq<char>, t: i64|
                d.climate.has(a, t) <==> last_temp(recs@, a) == Some(t))),
            r is Ok ==> final(self).stage() == SessionStage::ClimateFetched,
            r is Err ==> final(self).stage() == SessionStage::InstallationResolved,
            final(self).giid_view() == old(self).giid_view(),
    {
        if !(200 <= status && status < 300) {
            return Err(Error::AuthError(String::from_str(body)));
        }
        match records {
            None => Err(
                Error::DecodeError(
                    String::from_str("climate reply did not match the expected schema"),
                ),
            ),
            Some(recs) => {
                let set = climate_set_from_records(recs);
                self.st = SessionStage::ClimateFetched;
                Ok(VerisureData { climate: set })
            },
        }
    }
}

} // verus!
