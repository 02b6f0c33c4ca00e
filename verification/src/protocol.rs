use vstd::prelude::*;
use crate::models::{Subscription, WebsocketEvent, OpStatus};
use crate::error::Error;
use crate::text::{
    contains_sub,
    json_quoted,
    dec_str_of,
    push_str,
    push_json_quoted,
    str_contains,
    str_eq,
    u64_to_dec,
};
use crate::sign::{
    pairs_view,
    signature_of,
    sign,
    lemma_canonical_payload_fits,
    lemma_encode_utf8_len,
};

verus! {

/// The streaming host every channel connects to.
pub open spec fn ws_host_spec() -> Seq<char> {
    "api.hbdm.vn"@
}

pub fn ws_host() -> (r: &'static str)
    ensures
        r@ == ws_host_spec(),
{
    "api.hbdm.vn"
}

pub fn ws_url() -> (r: &'static str)
    ensures
        r@ == "wss://api.hbdm.vn"@,
{
    "wss://api.hbdm.vn"
}

/// One outbound text frame, addressed to a channel's write half.
#[derive(Debug, Clone, PartialEq)]
pub struct OutFrame {
    pub channel: Subscription,
    pub text: String,
}

// ------------------------------------------------------------------
// The exact text of every outbound frame.
// ------------------------------------------------------------------

/// A market or index subscribe frame.
pub open spec fn sub_frame_of(topic: Seq<char>) -> Seq<char> {
    "{\"sub\": "@ + json_quoted(topic) + ", \"id\": \"huobifuture_rust_async\"}"@
}

/// The subscribe frame for a high-frequency topic, which asks for
/// snapshots.
pub open spec fn sub_snapshot_frame_of(topic: Seq<char>) -> Seq<char> {
    "{\"sub\": "@ + json_quoted(topic)
        + ", \"data_type\": \"snapshot\", \"id\": \"huobifuture_rust_async\"}"@
}

/// Which subscribe frame a market or index topic gets: a topic naming
/// `high_freq` selects the snapshot variant.
pub open spec fn market_sub_frame_of(topic: Seq<char>) -> Seq<char> {
    if contains_sub(topic, "high_freq"@) {
        sub_snapshot_frame_of(topic)
    } else {
        sub_frame_of(topic)
    }
}

/// An account-channel topic subscribe frame.
pub open spec fn account_sub_frame_of(topic: Seq<char>) -> Seq<char> {
    "{\"op\": \"sub\", \"cid\": \"huobifuture-rust-async\", \"topic\": "@ + json_quoted(topic)
        + "}"@
}

/// The keepalive answer on market and index channels, echoing the ping's
/// timestamp.
pub open spec fn pong_frame_of(ts: u64) -> Seq<char> {
    "{\"pong\": "@ + dec_str_of(ts) + "}"@
}

/// The keepalive answer on the account channel, carrying the present time
/// in milliseconds.
pub open spec fn op_pong_frame_of(ts: u64) -> Seq<char> {
    "{\"op\": \"pong\", \"ts\": "@ + dec_str_of(ts) + "}"@
}

/// The query parameters injected into the auth signature.
pub open spec fn auth_params_of(key: Seq<char>, ts: Seq<char>) -> Seq<(Seq<char>, Seq<char>)> {
    seq![
        ("AccessKeyId"@, key),
        ("SignatureMethod"@, "HmacSHA256"@),
        ("SignatureVersion"@, "2"@),
        ("Timestamp"@, ts),
    ]
}

/// The auth frame of the account channel. Its signature is the request
/// signature of a `GET` of `/notification` on the streaming host over the
/// injected parameters: the same signing scheme as every REST call.
pub open spec fn auth_frame_of(key: Seq<char>, ts: Seq<char>, secret: Seq<char>) -> Seq<char> {
    "{\"AccessKeyId\": "@ + json_quoted(key)
        + ", \"SignatureMethod\": \"HmacSHA256\", \"SignatureVersion\": \"2\", \"Timestamp\": "@
        + json_quoted(ts) + ", \"Signature\": "@ + json_quoted(
        signature_of(secret, "GET"@, ws_host_spec(), "/notification"@, auth_params_of(key, ts)),
    ) + ", \"op\": \"auth\", \"type\": \"api\"}"@
}

fn make_market_sub_frame(topic: &String) -> (r: String)
    ensures
        r@ == market_sub_frame_of(topic@),
{
    let mut out = String::new();
    push_str(&mut out, "{\"sub\": ");
    push_json_quoted(&mut out, topic.as_str());
    if str_contains(topic.as_str(), "high_freq") {
        push_str(&mut out, ", \"data_type\": \"snapshot\", \"id\": \"huobifuture_rust_async\"}");
        proof {
            assert(out@ =~= sub_snapshot_frame_of(topic@));
        }
    } else {
        push_str(&mut out, ", \"id\": \"huobifuture_rust_async\"}");
        proof {
            assert(out@ =~= sub_frame_of(topic@));
        }
    }
    out
}

fn make_account_sub_frame(topic: &String) -> (r: String)
    ensures
        r@ == account_sub_frame_of(topic@),
{
    let mut out = String::new();
    push_str(&mut out, "{\"op\": \"sub\", \"cid\": \"huobifuture-rust-async\", \"topic\": ");
    push_json_quoted(&mut out, topic.as_str());
    push_str(&mut out, "}");
    proof {
        assert(out@ =~= account_sub_frame_of(topic@));
    }
    out
}

fn make_pong_frame(ts: u64) -> (r: String)
    ensures
        r@ == pong_frame_of(ts),
{
    let mut out = String::new();
    push_str(&mut out, "{\"pong\": ");
    let d = u64_to_dec(ts);
    push_str(&mut out, d.as_str());
    push_str(&mut out, "}");
    proof {
        assert(out@ =~= pong_frame_of(ts));
    }
    out
}

fn make_op_pong_frame(ts: u64) -> (r: String)
    ensures
        r@ == op_pong_frame_of(ts),
{
    let mut out = String::new();
    push_str(&mut out, "{\"op\": \"pong\", \"ts\": ");
    let d = u64_to_dec(ts);
    push_str(&mut out, d.as_str());
    push_str(&mut out, "}");
    proof {
        assert(out@ =~= op_pong_frame_of(ts));
    }
    out
}

// ------------------------------------------------------------------
// Frame-shape facts that the auth-gating law rests on.
// ------------------------------------------------------------------

/// An auth frame is never a topic-subscribe frame: the two differ at
/// their third character.
proof fn lemma_auth_frame_not_account_sub(
    key: Seq<char>,
    ts: Seq<char>,
    secret: Seq<char>,
    t: Seq<char>,
)
    ensures
        auth_frame_of(key, ts, secret) != account_sub_frame_of(t),
{
    reveal_strlit("{\"AccessKeyId\": ");
    reveal_strlit("{\"op\": \"sub\", \"cid\": \"huobifuture-rust-async\", \"topic\": ");
    let a = auth_frame_of(key, ts, secret);
    let s = account_sub_frame_of(t);
    assert(a[2] == 'A');
    assert(s[2] == 'o');
    assert(a.len() > 2 && s.len() > 2);
    if a == s {
        assert(a[2] == s[2]);
    }
}

/// An account keepalive answer is never a topic-subscribe frame: the two
/// differ at their ninth character.
proof fn lemma_op_pong_not_account_sub(ts: u64, t: Seq<char>)
    ensures
        op_pong_frame_of(ts) != account_sub_frame_of(t),
{
    reveal_strlit("{\"op\": \"pong\", \"ts\": ");
    reveal_strlit("{\"op\": \"sub\", \"cid\": \"huobifuture-rust-async\", \"topic\": ");
    let a = op_pong_frame_of(ts);
    let s = account_sub_frame_of(t);
    assert(a[8] == 'p');
    assert(s[8] == 's');
    assert(a.len() > 8 && s.len() > 8);
    if a == s {
        assert(a[8] == s[8]);
    }
}

// ------------------------------------------------------------------
// The subscription state.
// ------------------------------------------------------------------

/// The subscription entries with every entry of channel `c` removed,
/// order kept.
pub open spec fn subs_without(
    subs: Seq<(Subscription, Vec<String>)>,
    c: Subscription,
) -> Seq<(Subscription, Vec<String>)>
    decreases subs.len(),
{
    if subs.len() == 0 {
        Seq::empty()
    } else if subs.last().0 == c {
        subs_without(subs.drop_last(), c)
    } else {
        subs_without(subs.drop_last(), c).push(subs.last())
    }
}

proof fn lemma_subs_without_no_c(subs: Seq<(Subscription, Vec<String>)>, c: Subscription)
    ensures
        forall|i: int|
            0 <= i < subs_without(subs, c).len() ==> (#[trigger] subs_without(subs, c)[i]).0 != c,
        subs_without(subs, c).len() <= subs.len(),
    decreases subs.len(),
{
    if subs.len() > 0 {
        lemma_subs_without_no_c(subs.drop_last(), c);
    }
}

proof fn lemma_subs_without_absent(subs: Seq<(Subscription, Vec<String>)>, c: Subscription)
    requires
        forall|i: int| 0 <= i < subs.len() ==> (#[trigger] subs[i]).0 != c,
    ensures
        subs_without(subs, c) == subs,
    decreases subs.len(),
{
    if subs.len() > 0 {
        assert(subs.last().0 != c);
        lemma_subs_without_absent(subs.drop_last(), c);
        assert(subs_without(subs, c) =~= subs);
    } else {
        assert(subs_without(subs, c) =~= subs);
    }
}

proof fn lemma_subs_without_present(subs: Seq<(Subscription, Vec<String>)>, c: Subscription, k: int)
    requires
        0 <= k < subs.len(),
        subs[k].0 == c,
        forall|i: int| 0 <= i < subs.len() && i != k ==> (#[trigger] subs[i]).0 != c,
    ensures
        subs_without(subs, c) == subs.remove(k),
    decreases subs.len(),
{
    if k == subs.len() - 1 {
        assert(forall|i: int|
            0 <= i < subs.drop_last().len() ==> (#[trigger] subs.drop_last()[i]).0 != c);
        lemma_subs_without_absent(subs.drop_last(), c);
        assert(subs_without(subs, c) =~= subs.remove(k));
    } else {
        assert(subs.last().0 != c);
        assert(subs.drop_last()[k].0 == c);
        lemma_subs_without_present(subs.drop_last(), c, k);
        assert(subs_without(subs, c) =~= subs.drop_last().remove(k).push(subs.last()));
        assert(subs.drop_last().remove(k).push(subs.last()) =~= subs.remove(k));
    }
}

/// The channels of every entry except the account channel, in entry
/// order: the channels that a market keepalive answer fans out to.
pub open spec fn non_account_channels(subs: Seq<(Subscription, Vec<String>)>) -> Seq<Subscription>
    decreases subs.len(),
{
    if subs.len() == 0 {
        Seq::empty()
    } else if subs.last().0 == Subscription::Account {
        non_account_channels(subs.drop_last())
    } else {
        non_account_channels(subs.drop_last()).push(subs.last().0)
    }
}

/// The topics requested for the account channel: those of its first
/// entry, or none.
pub open spec fn account_topics(subs: Seq<(Subscription, Vec<String>)>) -> Seq<Seq<char>>
    decreases subs.len(),
{
    if subs.len() == 0 {
        Seq::empty()
    } else if subs[0].0 == Subscription::Account {
        subs[0].1@.map_values(|t: String| t@)
    } else {
        account_topics(subs.drop_first())
    }
}

/// Whether some entry is for the account channel.
pub open spec fn has_account(subs: Seq<(Subscription, Vec<String>)>) -> bool {
    exists|i: int| 0 <= i < subs.len() && (#[trigger] subs[i]).0 == Subscription::Account
}

proof fn lemma_non_account_no_account(subs: Seq<(Subscription, Vec<String>)>)
    ensures
        forall|i: int|
            0 <= i < non_account_channels(subs).len() ==> (#[trigger] non_account_channels(
                subs,
            )[i]) != Subscription::Account,
    decreases subs.len(),
{
    if subs.len() > 0 {
        lemma_non_account_no_account(subs.drop_last());
    }
}

proof fn lemma_account_topics_absent(subs: Seq<(Subscription, Vec<String>)>)
    requires
        !has_account(subs),
    ensures
        account_topics(subs) == Seq::<Seq<char>>::empty(),
    decreases subs.len(),
{
    if subs.len() > 0 {
        assert(subs[0].0 != Subscription::Account);
        assert(forall|i: int|
            0 <= i < subs.drop_first().len() ==> (#[trigger] subs.drop_first()[i]) == subs[i + 1]);
        lemma_account_topics_absent(subs.drop_first());
    }
}

proof fn lemma_account_topics_at(subs: Seq<(Subscription, Vec<String>)>, k: int)
    requires
        0 <= k < subs.len(),
        subs[k].0 == Subscription::Account,
        forall|j: int| 0 <= j < k ==> (#[trigger] subs[j]).0 != Subscription::Account,
    ensures
        account_topics(subs) == subs[k].1@.map_values(|t: String| t@),
    decreases k,
{
    if k > 0 {
        assert(subs[0].0 != Subscription::Account);
        assert(subs.drop_first()[k - 1] == subs[k]);
        assert(forall|j: int|
            0 <= j < k - 1 ==> (#[trigger] subs.drop_first()[j]) == subs[j + 1]);
        lemma_account_topics_at(subs.drop_first(), k - 1);
    }
}

/// Whether an event is the successful auth acknowledgement: an operation
/// status for `auth` with a zero error code.
pub open spec fn is_auth_ack(event: WebsocketEvent) -> bool {
    match event {
        WebsocketEvent::OpStatus(o) => o.op@ == "auth"@ && o.err_code == Some(0u32),
        _ => false,
    }
}

/// The diagnostic that an event carries: an operation status with an
/// error code, other than the successful auth acknowledgement. Reported
/// to the caller, never fatal.
pub open spec fn event_diagnostic(event: WebsocketEvent) -> Option<OpStatus> {
    match event {
        WebsocketEvent::OpStatus(o) => (match o.err_code {
            Some(c) => if o.op@ == "auth"@ && c == 0 {
                None
            } else {
                Some(o)
            },
            None => None,
        }),
        _ => None,
    }
}

/// What frames an operation status provokes: the account keepalive gets
/// its answer on the account write half alone; the successful auth
/// acknowledgement releases exactly one subscribe frame per requested
/// account topic, in request order; everything else sends nothing.
pub open spec fn op_frames_rel(
    subs: Seq<(Subscription, Vec<String>)>,
    o: OpStatus,
    now_ms: u64,
    frames: Seq<OutFrame>,
) -> bool {
    if o.op@ == "ping"@ {
        if has_account(subs) {
            frames.len() == 1 && frames[0].channel == Subscription::Account && frames[0].text@
                == op_pong_frame_of(now_ms)
        } else {
            frames.len() == 0
        }
    } else if o.op@ == "auth"@ && o.err_code == Some(0u32) {
        &&& frames.len() == account_topics(subs).len()
        &&& forall|i: int|
            0 <= i < frames.len() ==> (#[trigger] frames[i]).channel == Subscription::Account
                && frames[i].text@ == account_sub_frame_of(account_topics(subs)[i])
    } else {
        frames.len() == 0
    }
}

/// The handshake and keepalive state machine of the streaming client. It
/// decides which frames to send and which events to hand on; the host
/// layer owns the sockets and performs the sends.
#[derive(Debug, Clone, PartialEq)]
pub struct SubscriptionProtocol {
    pub credential: Option<(String, String)>,
    pub subs: Vec<(Subscription, Vec<String>)>,
    pub auth_acked: bool,
    pub account_subs_sent: bool,
}

/// What one event provokes: frames to send, at most one event to deliver
/// to the caller's handler, and at most one diagnostic to report.
#[derive(Debug, Clone, PartialEq)]
pub struct Reaction {
    pub frames: Vec<OutFrame>,
    pub deliver: Option<WebsocketEvent>,
    pub diagnostic: Option<OpStatus>,
}

impl SubscriptionProtocol {
    /// Each channel has at most one subscription entry.
    pub open spec fn channels_unique(&self) -> bool {
        forall|i: int, j: int|
            0 <= i < j < self.subs@.len() ==> (#[trigger] self.subs@[i]).0 != (
            #[trigger] self.subs@[j]).0
    }

    /// Account topic subscribes are only ever sent after the auth
    /// acknowledgement was observed.
    pub open spec fn wf(&self) -> bool {
        &&& self.channels_unique()
        &&& (self.account_subs_sent ==> self.auth_acked)
    }

    pub fn new(api_key: &str, api_secret: &str) -> (r: Self)
        ensures
            r.credential matches Some(c) && c.0@ == api_key@ && c.1@ == api_secret@,
            r.subs@.len() == 0,
            !r.auth_acked,
            !r.account_subs_sent,
            r.wf(),
    {
        SubscriptionProtocol {
            credential: Some((String::from_str(api_key), String::from_str(api_secret))),
            subs: Vec::new(),
            auth_acked: false,
            account_subs_sent: false,
        }
    }

    /// A protocol with no credential: public channels work, any signing
    /// operation fails with `NoApiKeySet`.
    pub fn without_credential() -> (r: Self)
        ensures
            r.credential is None,
            r.subs@.len() == 0,
            !r.auth_acked,
            !r.account_subs_sent,
            r.wf(),
    {
        SubscriptionProtocol {
            credential: None,
            subs: Vec::new(),
            auth_acked: false,
            account_subs_sent: false,
        }
    }

    /// The configured credential, or `NoApiKeySet` where none is.
    pub fn check_key(&self) -> (r: Result<(String, String), Error>)
        ensures
            (match self.credential {
                Some(c) => r matches Ok(k) && k.0@ == c.0@ && k.1@ == c.1@,
                None => r matches Err(e) && e == Error::NoApiKeySet,
            }),
    {
        match &self.credential {
            None => Err(Error::NoApiKeySet),
            Some(c) => Ok((c.0.clone(), c.1.clone())),
        }
    }

    /// Injects the signing parameters (`AccessKeyId`, `SignatureMethod`,
    /// `SignatureVersion`, `Timestamp`) into `params` and signs a `GET`
    /// of `/notification` on the streaming host — the auth frame reuses
    /// the request-signing scheme unchanged. Fails with `NoApiKeySet`
    /// where no credential is configured, leaving `params` untouched.
    pub fn generate_signature(&self, params: &mut Vec<(String, String)>, timestamp: &str) -> (r:
        Result<String, Error>)
        requires
            old(params)@.len() <= 0xFFFC,
            forall|i: int|
                0 <= i < old(params)@.len() ==> (#[trigger] old(params)@[i]).0@.len() <= 0x100000
                    && old(params)@[i].1@.len() <= 0x100000,
            timestamp@.len() <= 0x100000,
            (match self.credential {
                Some(c) => c.0@.len() <= 0x100000 && c.1@.len() <= 0x100000,
                None => true,
            }),
        ensures
            (match self.credential {
                Some(c) => r matches Ok(sig) && pairs_view(final(params)@) == pairs_view(
                    old(params)@,
                ) + auth_params_of(c.0@, timestamp@) && sig@ == signature_of(
                    c.1@,
                    "GET"@,
                    ws_host_spec(),
                    "/notification"@,
                    pairs_view(final(params)@),
                ),
                None => r matches Err(e) && e == Error::NoApiKeySet && final(params)@ == old(
                    params,
                )@,
            }),
    {
        let (key, secret) = match &self.credential {
            None => {
                return Err(Error::NoApiKeySet);
            },
            Some(c) => (c.0.clone(), c.1.clone()),
        };
        params.push((String::from_str("AccessKeyId"), key));
        params.push((String::from_str("SignatureMethod"), String::from_str("HmacSHA256")));
        params.push((String::from_str("SignatureVersion"), String::from_str("2")));
        params.push((String::from_str("Timestamp"), String::from_str(timestamp)));
        proof {
            let c = self.credential->Some_0;
            assert(pairs_view(params@) =~= pairs_view(old(params)@) + auth_params_of(
                c.0@,
                timestamp@,
            ));
            reveal_strlit("GET");
            reveal_strlit("api.hbdm.vn");
            reveal_strlit("/notification");
            reveal_strlit("AccessKeyId");
            reveal_strlit("SignatureMethod");
            reveal_strlit("SignatureVersion");
            reveal_strlit("Timestamp");
            reveal_strlit("HmacSHA256");
            reveal_strlit("2");
            lemma_canonical_payload_fits(
                "GET"@,
                ws_host_spec(),
                "/notification"@,
                pairs_view(params@),
            );
            lemma_encode_utf8_len(c.1@);
        }
        let sig = sign(secret.as_str(), "GET", ws_host(), "/notification", params);
        Ok(sig)
    }

    /// Drops the subscription entry of channel `c`, if any.
    fn remove_channel_entry(&mut self, c: Subscription)
        requires
            old(self).channels_unique(),
        ensures
            final(self).subs@ == subs_without(old(self).subs@, c),
            final(self).channels_unique(),
            final(self).credential == old(self).credential,
            final(self).auth_acked == old(self).auth_acked,
            final(self).account_subs_sent == old(self).account_subs_sent,
    {
        let n: usize = self.subs.len();
        let mut found: Option<usize> = None;
        let mut i: usize = 0;
        while i < n
            invariant
                0 <= i <= n,
                n == self.subs@.len(),
                (match found {
                    Some(k) => 0 <= k < i && self.subs@[k as int].0 == c,
                    None => forall|j: int| 0 <= j < i ==> (#[trigger] self.subs@[j]).0 != c,
                }),
            decreases n - i,
        {
            if self.subs[i].0 == c {
                found = Some(i);
            }
            i = i + 1;
        }
        match found {
            None => {
                proof {
                    lemma_subs_without_absent(self.subs@, c);
                }
            },
            Some(k) => {
                proof {
                    assert(forall|i: int|
                        0 <= i < self.subs@.len() && i != k ==> (#[trigger] self.subs@[i]).0 != c);
                    lemma_subs_without_present(self.subs@, c, k as int);
                }
                let ghost pre = self.subs@;
                self.subs.remove(k);
                proof {
                    assert forall|a: int, b: int|
                        0 <= a < b < self.subs@.len() implies (#[trigger] self.subs@[a]).0 != (
                    #[trigger] self.subs@[b]).0 by {
                        let a0 = if a < k {
                            a
                        } else {
                            a + 1
                        };
                        let b0 = if b < k {
                            b
                        } else {
                            b + 1
                        };
                        assert(self.subs@[a] == pre[a0]);
                        assert(self.subs@[b] == pre[b0]);
                    }
                }
            },
        }
    }

    /// Builds the auth frame for the account channel from the injected
    /// parameters' signature.
    fn make_auth_frame(
        key: &String,
        timestamp: &str,
        signature: &String,
        Ghost(secret): Ghost<Seq<char>>,
    ) -> (r: String)
        requires
            signature@ == signature_of(
                secret,
                "GET"@,
                ws_host_spec(),
                "/notification"@,
                auth_params_of(key@, timestamp@),
            ),
        ensures
            r@ == auth_frame_of(key@, timestamp@, secret),
    {
        let mut out = String::new();
        push_str(&mut out, "{\"AccessKeyId\": ");
        push_json_quoted(&mut out, key.as_str());
        push_str(
            &mut out,
            ", \"SignatureMethod\": \"HmacSHA256\", \"SignatureVersion\": \"2\", \"Timestamp\": ",
        );
        push_json_quoted(&mut out, timestamp);
        push_str(&mut out, ", \"Signature\": ");
        push_json_quoted(&mut out, signature.as_str());
        push_str(&mut out, ", \"op\": \"auth\", \"type\": \"api\"}");
        proof {
            assert(out@ =~= auth_frame_of(key@, timestamp@, secret));
        }
        out
    }

    /// Records the subscription of `channel` — replacing, never
    /// duplicating, an earlier entry — and returns the frames that open
    /// it: one subscribe frame per topic on market and index channels,
    /// and on the account channel the signed auth frame alone. No account
    /// topic-subscribe frame is among them: those wait for the
    /// acknowledgement.
    ///
    /// Subscribing the account channel anew restarts its handshake.
    pub fn subscribe_channel(
        &mut self,
        channel: Subscription,
        topics: Vec<String>,
        timestamp: &str,
    ) -> (r: Result<Vec<OutFrame>, Error>)
        requires
            old(self).wf(),
            old(self).subs@.len() < 0x10000,
            timestamp@.len() <= 0x100000,
            (match old(self).credential {
                Some(c) => c.0@.len() <= 0x100000 && c.1@.len() <= 0x100000,
                None => true,
            }),
        ensures
            final(self).wf(),
            final(self).credential == old(self).credential,
            (match r {
                Result::Err(e) => e == Error::NoApiKeySet && channel == Subscription::Account && old(self).credential is None && *final(self) == *old(self),
                Result::Ok(frames) => ({
                    &&& final(self).subs@ == subs_without(old(self).subs@, channel).push(
                        (channel, topics),
                    )
                    &&& (channel == Subscription::Account ==> !final(self).auth_acked && !final(self).account_subs_sent && frames@.len() == 1 && frames@[0].channel
                        == Subscription::Account && (old(self).credential matches Some(c)
                        && frames@[0].text@ == auth_frame_of(c.0@, timestamp@, c.1@)))
                    &&& (channel != Subscription::Account ==> final(self).auth_acked == old(self).auth_acked && final(self).account_subs_sent == old(self).account_subs_sent
                        && frames@.len() == topics@.len() && (forall|i: int|
                        0 <= i < frames@.len() ==> (#[trigger] frames@[i]).channel == channel
                            && frames@[i].text@ == market_sub_frame_of(topics@[i]@)))
                    &&& (forall|i: int, t: Seq<char>|
                        #![trigger frames@[i], account_sub_frame_of(t)]
                        0 <= i < frames@.len() ==> !(frames@[i].channel == Subscription::Account
                            && frames@[i].text@ == account_sub_frame_of(t)))
                }),
            }),
    {
        let is_account = channel == Subscription::Account;
        let mut frames: Vec<OutFrame> = Vec::new();
        if is_account {
            let key = match &self.credential {
                None => {
                    return Err(Error::NoApiKeySet);
                },
                Some(c) => c.0.clone(),
            };
            let mut params: Vec<(String, String)> = Vec::new();
            let sig = match self.generate_signature(&mut params, timestamp) {
                Ok(s) => s,
                Err(e) => {
                    proof {
                        assert(false);
                    }
                    return Err(e);
                },
            };
            let ghost secret = self.credential->Some_0.1@;
            proof {
                assert(pairs_view(params@) =~= auth_params_of(key@, timestamp@));
            }
            let text = Self::make_auth_frame(&key, timestamp, &sig, Ghost(secret));
            frames.push(OutFrame { channel: Subscription::Account, text });
            self.auth_acked = false;
            self.account_subs_sent = false;
            proof {
                assert forall|i: int, t: Seq<char>|
                    #![trigger frames@[i], account_sub_frame_of(t)]
                    0 <= i < frames@.len() implies !(frames@[i].channel == Subscription::Account
                    && frames@[i].text@ == account_sub_frame_of(t)) by {
                    lemma_auth_frame_not_account_sub(key@, timestamp@, secret, t);
                }
            }
        } else {
            let n: usize = topics.len();
            let mut i: usize = 0;
            while i < n
                invariant
                    0 <= i <= n,
                    n == topics@.len(),
                    frames@.len() == i,
                    forall|j: int|
                        0 <= j < i ==> (#[trigger] frames@[j]).channel == channel && frames@[
                            j
                        ].text@ == market_sub_frame_of(topics@[j]@),
                    channel != Subscription::Account,
                decreases n - i,
            {
                let text = make_market_sub_frame(&topics[i]);
                frames.push(OutFrame { channel, text });
                i = i + 1;
            }
        }
        self.remove_channel_entry(channel);
        self.subs.push((channel, topics));
        proof {
            lemma_subs_without_no_c(old(self).subs@, channel);
            let s = self.subs@;
            assert forall|a: int, b: int| 0 <= a < b < s.len() implies (#[trigger] s[a]).0 != (
            #[trigger] s[b]).0 by {
                if b == s.len() - 1 {
                    assert(s[a] == subs_without(old(self).subs@, channel)[a]);
                    assert(s[a].0 != channel);
                }
            }
        }
        Ok(frames)
    }

    /// Whether the account channel was subscribed.
    fn has_account_entry(&self) -> (r: bool)
        ensures
            r == has_account(self.subs@),
    {
        let n: usize = self.subs.len();
        let mut i: usize = 0;
        while i < n
            invariant
                0 <= i <= n,
                n == self.subs@.len(),
                forall|j: int| 0 <= j < i ==> (#[trigger] self.subs@[j]).0 != Subscription::Account,
            decreases n - i,
        {
            if self.subs[i].0 == Subscription::Account {
                return true;
            }
            i = i + 1;
        }
        false
    }

    /// The index of the first account-channel entry, if any.
    fn account_entry_index(&self) -> (r: Option<usize>)
        ensures
            (match r {
                Some(k) => 0 <= k < self.subs@.len() && self.subs@[k as int].0
                    == Subscription::Account && (forall|j: int|
                    0 <= j < k ==> (#[trigger] self.subs@[j]).0 != Subscription::Account),
                None => !has_account(self.subs@),
            }),
    {
        let n: usize = self.subs.len();
        let mut i: usize = 0;
        while i < n
            invariant
                0 <= i <= n,
                n == self.subs@.len(),
                forall|j: int| 0 <= j < i ==> (#[trigger] self.subs@[j]).0 != Subscription::Account,
            decreases n - i,
        {
            if self.subs[i].0 == Subscription::Account {
                return Some(i);
            }
            i = i + 1;
        }
        None
    }

    /// Reacts to one decoded event. This is the dispatch step of the
    /// protocol loop; the host layer sends the frames and hands data
    /// events to the caller's handler.
    ///
    /// A market keepalive is answered with a pong, carrying its echoed
    /// timestamp, on every subscribed channel but the account channel —
    /// the fan-out is deliberate. The account keepalive is answered on
    /// the account write half alone, carrying `now_ms`. The successful
    /// auth acknowledgement releases exactly one subscribe frame per
    /// requested account topic; before it, no reaction ever carries an
    /// account topic-subscribe frame. Control events are consumed; data
    /// events are delivered unchanged; an operation status with an error
    /// code (other than the successful auth acknowledgement) is reported
    /// as a diagnostic.
    pub fn on_event(&mut self, event: WebsocketEvent, now_ms: u64) -> (r: Reaction)
        requires
            old(self).wf(),
        ensures
            final(self).wf(),
            final(self).credential == old(self).credential,
            final(self).subs@ == old(self).subs@,
            final(self).auth_acked == (old(self).auth_acked || is_auth_ack(event)),
            final(self).account_subs_sent == (old(self).account_subs_sent || is_auth_ack(event)),
            r.deliver == (if event.spec_is_control() {
                Option::<WebsocketEvent>::None
            } else {
                Option::Some(event)
            }),
            r.diagnostic == event_diagnostic(event),
            (match event {
                WebsocketEvent::MarketPing(p) => r.frames@.map_values(|f: OutFrame| f.channel)
                    == non_account_channels(old(self).subs@) && (forall|i: int|
                    0 <= i < r.frames@.len() ==> (#[trigger] r.frames@[i]).text@ == pong_frame_of(
                        p.ping,
                    )),
                WebsocketEvent::OpStatus(o) => op_frames_rel(old(self).subs@, o, now_ms, r.frames@),
                _ => r.frames@.len() == 0,
            }),
            (!old(self).auth_acked && !is_auth_ack(event) ==> (forall|i: int, t: Seq<char>|
                #![trigger r.frames@[i], account_sub_frame_of(t)]
                0 <= i < r.frames@.len() ==> !(r.frames@[i].channel == Subscription::Account
                    && r.frames@[i].text@ == account_sub_frame_of(t)))),
    {
        if event.is_control() {
            match event {
                WebsocketEvent::MarketPing(p) => {
                    let pong = make_pong_frame(p.ping);
                    let mut frames: Vec<OutFrame> = Vec::new();
                    let n: usize = self.subs.len();
                    let mut i: usize = 0;
                    assert(frames@.map_values(|f: OutFrame| f.channel) =~= non_account_channels(
                        self.subs@.take(0),
                    ));
                    while i < n
                        invariant
                            0 <= i <= n,
                            n == self.subs@.len(),
                            frames@.map_values(|f: OutFrame| f.channel) == non_account_channels(
                                self.subs@.take(i as int),
                            ),
                            forall|j: int|
                                0 <= j < frames@.len() ==> (#[trigger] frames@[j]).text@
                                    == pong_frame_of(p.ping) && frames@[j].channel
                                    != Subscription::Account,
                            pong@ == pong_frame_of(p.ping),
                        decreases n - i,
                    {
                        let ch = self.subs[i].0;
                        let ghost pre = frames@;
                        if !(ch == Subscription::Account) {
                            frames.push(OutFrame { channel: ch, text: pong.clone() });
                        }
                        proof {
                            let cur = self.subs@.take(i + 1);
                            assert(cur.drop_last() =~= self.subs@.take(i as int));
                            assert(cur.last() == self.subs@[i as int]);
                            if ch == Subscription::Account {
                                assert(frames@.map_values(|f: OutFrame| f.channel)
                                    =~= non_account_channels(cur));
                            } else {
                                assert(frames@.map_values(|f: OutFrame| f.channel)
                                    =~= pre.map_values(|f: OutFrame| f.channel).push(ch));
                                assert(frames@.map_values(|f: OutFrame| f.channel)
                                    =~= non_account_channels(cur));
                            }
                        }
                        i = i + 1;
                    }
                    proof {
                        assert(self.subs@.take(n as int) =~= self.subs@);
                    }
                    Reaction { frames, deliver: None, diagnostic: None }
                },
                WebsocketEvent::OpStatus(o) => {
                    let is_ping = str_eq(o.op.as_str(), "ping");
                    let is_auth = str_eq(o.op.as_str(), "auth");
                    let err = o.err_code;
                    let err_zero = match err {
                        Some(c) => c == 0,
                        None => false,
                    };
                    proof {
                        reveal_strlit("ping");
                        reveal_strlit("auth");
                        assert("ping"@[0] == 'p');
                        assert("auth"@[0] == 'a');
                        assert("ping"@ != "auth"@);
                    }
                    let mut frames: Vec<OutFrame> = Vec::new();
                    if is_ping {
                        if self.has_account_entry() {
                            let text = make_op_pong_frame(now_ms);
                            frames.push(OutFrame { channel: Subscription::Account, text });
                        }
                        proof {
                            assert forall|i: int, t: Seq<char>|
                                #![trigger frames@[i], account_sub_frame_of(t)]
                                0 <= i < frames@.len() implies !(frames@[i].channel
                                == Subscription::Account && frames@[i].text@
                                == account_sub_frame_of(t)) by {
                                lemma_op_pong_not_account_sub(now_ms, t);
                            }
                        }
                    } else if is_auth && err_zero {
                        self.auth_acked = true;
                        self.account_subs_sent = true;
                        match self.account_entry_index() {
                            None => {
                                proof {
                                    lemma_account_topics_absent(self.subs@);
                                }
                            },
                            Some(k) => {
                                proof {
                                    lemma_account_topics_at(self.subs@, k as int);
                                }
                                let m: usize = self.subs[k].1.len();
                                let mut j: usize = 0;
                                while j < m
                                    invariant
                                        0 <= j <= m,
                                        0 <= k < self.subs@.len(),
                                        m == self.subs@[k as int].1@.len(),
                                        frames@.len() == j,
                                        forall|jj: int|
                                            0 <= jj < j ==> (#[trigger] frames@[jj]).channel
                                                == Subscription::Account && frames@[jj].text@
                                                == account_sub_frame_of(
                                                self.subs@[k as int].1@[jj]@,
                                            ),
                                    decreases m - j,
                                {
                                    let text = make_account_sub_frame(&self.subs[k].1[j]);
                                    frames.push(
                                        OutFrame { channel: Subscription::Account, text },
                                    );
                                    j = j + 1;
                                }
                                proof {
                                    let topics = account_topics(self.subs@);
                                    assert(topics =~= self.subs@[k as int].1@.map_values(
                                        |t: String| t@,
                                    ));
                                    assert(forall|jj: int|
                                        0 <= jj < m ==> topics[jj] == self.subs@[k as int].1@[jj]@);
                                }
                            },
                        }
                    }
                    let diagnostic: Option<OpStatus> = match err {
                        Some(c) => if is_auth && err_zero {
                            proof {
                                assert(c == 0);
                            }
                            None
                        } else {
                            Some(o)
                        },
                        None => None,
                    };
                    Reaction { frames, deliver: None, diagnostic }
                },
                _ => Reaction { frames: Vec::new(), deliver: None, diagnostic: None },
            }
        } else {
            Reaction { frames: Vec::new(), deliver: Some(event), diagnostic: None }
        }
    }
}

} // verus!
