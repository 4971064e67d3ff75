//! Client library for a bulk-SMS gateway's HTTP/JSON API.
//!
//! A [`CommsSDK`] session holds the credentials, the sender id, the chosen
//! endpoint and the authenticated flag; it normalizes destination numbers,
//! builds the JSON request envelope, sends it through an injectable
//! [`transport::Transport`], and parses the typed JSON response. Every
//! network-issuing operation except [`CommsSDK::authenticate`] requires a
//! previously successful authentication.
//!
//! A session is a plain value: it is safe to reuse sequentially, and two
//! sessions never share endpoint or credential state. It is not designed for
//! concurrent mutation by several callers.

pub mod models;
pub mod text;
pub mod transport;
pub mod utils;
pub mod wire;

use vstd::prelude::*;
use vstd::string::*;

use models::{
    ApiRequest, ApiResponse, ApiResponseCode, ApiResponseV, Balance, BalanceV, Diagnostic,
    DiagnosticKind, DiagnosticV, MessagePriority,
};
use text::is_blank_seq;
use transport::{HttpTransport, Transport};
use utils::{diag_views, normalize_report, normalize_set, report_of, string_views,
    validate_credentials};
use wire::{parse_api_response, render_request, spec_parse_response, ParseFail, ParseFailV};

verus! {

/// The error taxonomy of the library.
///
/// A remote `Failed` status is not an error: send operations surface it as a
/// normal `false` result carrying the remote message.
#[derive(Clone, PartialEq, Eq, Debug)]
pub enum SdkError {
    /// Username or API key blank; raised before any network attempt.
    Config,
    /// No valid destination number was left after normalization; nothing was
    /// sent over the wire.
    Validation,
    /// A network-issuing operation was invoked while the session was not
    /// authenticated; nothing was sent over the wire.
    AuthRequired,
    /// The underlying send failed or the reply was not a well-formed
    /// response body; the carried text says which.
    Transport(String),
    /// The reply parsed but its `Status` was neither `OK` nor `Failed`; the
    /// carried text is the offending status value.
    Protocol(String),
    /// A balance query succeeded but the reply carried no usable balance.
    MissingBalance,
}

/// The live endpoint.
pub open spec fn live_url() -> Seq<char> {
    "https://comms.egosms.co/api/v1/json/"@
}

/// The sandbox endpoint.
pub open spec fn sandbox_url() -> Seq<char> {
    "https://comms-test.pahappa.net/api/v1/json/"@
}

/// Ghost image of a session.
pub ghost struct SessionV<T> {
    pub user_name: Seq<char>,
    pub api_key: Seq<char>,
    pub sender_id: Seq<char>,
    pub is_authenticated: bool,
    pub api_url: Seq<char>,
    pub log: Seq<DiagnosticV>,
    pub transport: T,
}

/// The parts of a session that no send or query operation may move:
/// credentials, sender id, endpoint and the authenticated flag.
pub open spec fn settings_unchanged<T>(a: SessionV<T>, b: SessionV<T>) -> bool {
    &&& b.user_name == a.user_name
    &&& b.api_key == a.api_key
    &&& b.sender_id == a.sender_id
    &&& b.api_url == a.api_url
    &&& b.is_authenticated == a.is_authenticated
}

/// What the credential probe may touch: the transport alone.
pub open spec fn probe_unchanged<T>(a: SessionV<T>, b: SessionV<T>) -> bool {
    settings_unchanged(a, b) && b.log == a.log
}

/// The diagnostics one send operation appends: the normalization report,
/// then an advisory entry when the sender id runs past eleven characters.
pub open spec fn send_log_entries(inputs: Seq<Seq<char>>, sender_id: Seq<char>) -> Seq<
    DiagnosticV,
> {
    report_of(inputs) + if sender_id.len() > 11 {
        seq![DiagnosticV { kind: DiagnosticKind::LongSenderId, value: sender_id }]
    } else {
        Seq::<DiagnosticV>::empty()
    }
}

/// Some reply body parses to exactly this response: what can be known of a
/// value that came through the transport.
pub open spec fn some_reply_parses_to(resp: ApiResponseV) -> bool {
    exists|body: Seq<char>|
        spec_parse_response(body) == Ok::<ApiResponseV, ParseFailV>(resp)
}

/// Some reply body parses with this status.
pub open spec fn some_reply_has_status(code: ApiResponseCode) -> bool {
    exists|body: Seq<char>|
        #[trigger] spec_parse_response(body) matches Ok(rv) && rv.status == code
}

/// Some reply body parses carrying exactly this balance.
pub open spec fn some_reply_has_balance(b: BalanceV) -> bool {
    exists|body: Seq<char>|
        #[trigger] spec_parse_response(body) matches Ok(rv) && rv.balance == Some(b)
}

/// A session against the gateway: credentials, sender id, chosen endpoint,
/// the authenticated flag, the advisory diagnostics recorded so far, and
/// the transport the requests go through.
pub struct CommsSDK<T: Transport> {
    pub(crate) user_name: String,
    pub(crate) api_key: String,
    pub(crate) sender_id: String,
    pub(crate) is_authenticated: bool,
    pub(crate) api_url: String,
    pub(crate) log: Vec<Diagnostic>,
    pub(crate) transport: T,
}

impl<T: Transport> View for CommsSDK<T> {
    type V = SessionV<T>;

    closed spec fn view(&self) -> SessionV<T> {
        SessionV {
            user_name: self.user_name@,
            api_key: self.api_key@,
            sender_id: self.sender_id@,
            is_authenticated: self.is_authenticated,
            api_url: self.api_url@,
            log: diag_views(self.log@),
            transport: self.transport,
        }
    }
}

impl CommsSDK<HttpTransport> {
    /// A fresh session over the real HTTP transport: aimed at the live
    /// endpoint, default sender id, not authenticated, nothing logged.
    pub fn new(user_name: &str, api_key: &str) -> (r: CommsSDK<HttpTransport>)
        ensures
            r@.user_name == user_name@,
            r@.api_key == api_key@,
            r@.sender_id == "EgoSMS"@,
            !r@.is_authenticated,
            r@.api_url == live_url(),
            r@.log == Seq::<DiagnosticV>::empty(),
    {
        CommsSDK::with_transport(user_name, api_key, HttpTransport::new())
    }
}

impl<T: Transport> CommsSDK<T> {
    /// A fresh session over any transport; tests substitute a stub here.
    pub fn with_transport(user_name: &str, api_key: &str, transport: T) -> (r: CommsSDK<T>)
        ensures
            r@.user_name == user_name@,
            r@.api_key == api_key@,
            r@.sender_id == "EgoSMS"@,
            !r@.is_authenticated,
            r@.api_url == live_url(),
            r@.log == Seq::<DiagnosticV>::empty(),
            r@.transport == transport,
    {
        let r = CommsSDK {
            user_name: user_name.to_owned(),
            api_key: api_key.to_owned(),
            sender_id: String::from_str("EgoSMS"),
            is_authenticated: false,
            api_url: String::from_str("https://comms.egosms.co/api/v1/json/"),
            log: Vec::new(),
            transport,
        };
        proof {
            assert(diag_views(Seq::<Diagnostic>::empty()) =~= Seq::<DiagnosticV>::empty());
        }
        r
    }

    /// Replace the session's default sender id.
    pub fn with_sender_id(self, sender_id: &str) -> (r: CommsSDK<T>)
        ensures
            r@.sender_id == sender_id@,
            r@.user_name == self@.user_name,
            r@.api_key == self@.api_key,
            r@.is_authenticated == self@.is_authenticated,
            r@.api_url == self@.api_url,
            r@.log == self@.log,
            r@.transport == self@.transport,
    {
        CommsSDK { sender_id: sender_id.to_owned(), ..self }
    }

    /// Aim this session at the sandbox endpoint. Endpoint choice is held
    /// per session: no other session is touched.
    pub fn use_sandbox(&mut self)
        ensures
            final(self)@.api_url == sandbox_url(),
            final(self)@.user_name == old(self)@.user_name,
            final(self)@.api_key == old(self)@.api_key,
            final(self)@.sender_id == old(self)@.sender_id,
            final(self)@.is_authenticated == old(self)@.is_authenticated,
            final(self)@.log == old(self)@.log,
            final(self)@.transport == old(self)@.transport,
    {
        self.api_url = String::from_str("https://comms-test.pahappa.net/api/v1/json/");
    }

    /// Aim this session at the live endpoint. Endpoint choice is held per
    /// session: no other session is touched.
    pub fn use_live_server(&mut self)
        ensures
            final(self)@.api_url == live_url(),
            final(self)@.user_name == old(self)@.user_name,
            final(self)@.api_key == old(self)@.api_key,
            final(self)@.sender_id == old(self)@.sender_id,
            final(self)@.is_authenticated == old(self)@.is_authenticated,
            final(self)@.log == old(self)@.log,
            final(self)@.transport == old(self)@.transport,
    {
        self.api_url = String::from_str("https://comms.egosms.co/api/v1/json/");
    }

    /// Explicitly mark the session authenticated, bypassing the probe.
    pub fn set_authenticated(&mut self)
        ensures
            final(self)@.is_authenticated,
            final(self)@.user_name == old(self)@.user_name,
            final(self)@.api_key == old(self)@.api_key,
            final(self)@.sender_id == old(self)@.sender_id,
            final(self)@.api_url == old(self)@.api_url,
            final(self)@.log == old(self)@.log,
            final(self)@.transport == old(self)@.transport,
    {
        self.is_authenticated = true;
    }

    /// Whether the session has passed the credential probe.
    pub fn is_authenticated(&self) -> (r: bool)
        ensures
            r == self@.is_authenticated,
    {
        self.is_authenticated
    }

    /// The endpoint this session sends to.
    pub fn api_url(&self) -> (r: &str)
        ensures
            r@ == self@.api_url,
    {
        self.api_url.as_str()
    }

    /// The transport this session sends through; a test can inspect the
    /// stub it handed in.
    pub fn transport(&self) -> (r: &T)
        ensures
            *r == self@.transport,
    {
        &self.transport
    }

    /// The advisory diagnostics recorded so far, oldest first.
    pub fn diagnostics(&self) -> (r: &Vec<Diagnostic>)
        ensures
            diag_views(r@) == self@.log,
    {
        &self.log
    }

    /// A short textual identification of the session.
    pub fn describe(&self) -> (r: String)
        ensures
            r@ == "SDK("@ + self@.user_name + " => "@ + self@.api_key + ")"@,
    {
        let mut out: String = String::from_str("SDK(");
        out.append(self.user_name.as_str());
        out.append(" => ");
        out.append(self.api_key.as_str());
        out.append(")");
        proof {
            assert(out@ =~= "SDK("@ + self@.user_name + " => "@ + self@.api_key + ")"@);
        }
        out
    }

    /// Run the credential probe and store its outcome as the session's
    /// authenticated flag. Blank credentials are the one hard error, found
    /// before any network attempt; an unreachable or refusing gateway is a
    /// plain `Ok(false)`.
    pub fn authenticate(&mut self) -> (r: Result<bool, SdkError>)
        ensures
            (r matches Err(_)) <==> (is_blank_seq(old(self)@.user_name) || is_blank_seq(
                old(self)@.api_key,
            )),
            r matches Err(e) ==> e == SdkError::Config && *final(self) == *old(self),
            r matches Ok(b) ==> ({
                &&& final(self)@.is_authenticated == b
                &&& final(self)@.user_name == old(self)@.user_name
                &&& final(self)@.api_key == old(self)@.api_key
                &&& final(self)@.sender_id == old(self)@.sender_id
                &&& final(self)@.api_url == old(self)@.api_url
                &&& final(self)@.log == old(self)@.log
            }),
    {
        match validate_credentials(self) {
            Ok(b) => {
                self.is_authenticated = b;
                Ok(b)
            },
            Err(e) => Err(e),
        }
    }

    /// Refuse to proceed unless the session is authenticated.
    fn ensure_authenticated(&self) -> (r: Result<(), SdkError>)
        ensures
            (r is Ok) <==> self@.is_authenticated,
            r matches Err(e) ==> e == SdkError::AuthRequired,
    {
        if !self.is_authenticated {
            return Err(SdkError::AuthRequired);
        }
        Ok(())
    }

    /// Send one message body to the given numbers under the session's own
    /// sender id, at the highest priority.
    pub fn send_sms(&mut self, numbers: Vec<String>, message: &str) -> (r: Result<bool, SdkError>)
        ensures
            (r matches Err(SdkError::AuthRequired)) <==> !old(self)@.is_authenticated,
            !old(self)@.is_authenticated ==> *final(self) == *old(self),
            settings_unchanged(old(self)@, final(self)@),
            old(self)@.is_authenticated ==> final(self)@.log == old(self)@.log + send_log_entries(
                string_views(numbers@),
                old(self)@.sender_id,
            ),
            (r matches Err(SdkError::Validation)) <==> (old(self)@.is_authenticated
                && normalize_set(string_views(numbers@)) =~= Set::<Seq<char>>::empty()),
            (!old(self)@.is_authenticated || normalize_set(string_views(numbers@)) =~= Set::<
                Seq<char>,
            >::empty()) ==> final(self)@.transport == old(self)@.transport,
            r matches Ok(true) ==> some_reply_has_status(ApiResponseCode::OK),
            r matches Ok(false) ==> some_reply_has_status(ApiResponseCode::Failed),
            r matches Err(e) ==> (e is AuthRequired || e is Validation || e matches
                SdkError::Transport(_) || e matches SdkError::Protocol(_)),
    {
        let sender_id: String = self.sender_id.clone();
        self.send_sms_full(numbers, message, sender_id.as_str(), MessagePriority::Highest)
    }

    /// Send one message body to the given numbers, choosing sender id and
    /// priority per call. `Ok(true)` is a remote `OK`, `Ok(false)` a remote
    /// `Failed` (no error: the remote message is in the log of the full
    /// query variant); every other outcome is a typed error.
    pub fn send_sms_full(
        &mut self,
        numbers: Vec<String>,
        message: &str,
        sender_id: &str,
        priority: MessagePriority,
    ) -> (r: Result<bool, SdkError>)
        ensures
            (r matches Err(SdkError::AuthRequired)) <==> !old(self)@.is_authenticated,
            !old(self)@.is_authenticated ==> *final(self) == *old(self),
            settings_unchanged(old(self)@, final(self)@),
            old(self)@.is_authenticated ==> final(self)@.log == old(self)@.log + send_log_entries(
                string_views(numbers@),
                sender_id@,
            ),
            (r matches Err(SdkError::Validation)) <==> (old(self)@.is_authenticated
                && normalize_set(string_views(numbers@)) =~= Set::<Seq<char>>::empty()),
            (!old(self)@.is_authenticated || normalize_set(string_views(numbers@)) =~= Set::<
                Seq<char>,
            >::empty()) ==> final(self)@.transport == old(self)@.transport,
            r matches Ok(true) ==> some_reply_has_status(ApiResponseCode::OK),
            r matches Ok(false) ==> some_reply_has_status(ApiResponseCode::Failed),
            r matches Err(e) ==> (e is AuthRequired || e is Validation || e matches
                SdkError::Transport(_) || e matches SdkError::Protocol(_)),
    {
        match self.query_send_sms_full(numbers, message, sender_id, priority) {
            Err(e) => Err(e),
            Ok(resp) => {
                let ok = resp.status.is_ok();
                proof {
                    let body = choose|body: Seq<char>|
                        spec_parse_response(body) == Ok::<ApiResponseV, ParseFailV>(resp@);
                    assert(spec_parse_response(body) matches Ok(rv) && rv.status == resp.status);
                }
                if ok {
                    Ok(true)
                } else {
                    Ok(false)
                }
            },
        }
    }

    /// As `send_sms`, but hand back the full parsed response.
    pub fn query_send_sms(&mut self, numbers: Vec<String>, message: &str) -> (r: Result<
        ApiResponse,
        SdkError,
    >)
        ensures
            (r matches Err(SdkError::AuthRequired)) <==> !old(self)@.is_authenticated,
            !old(self)@.is_authenticated ==> *final(self) == *old(self),
            settings_unchanged(old(self)@, final(self)@),
            old(self)@.is_authenticated ==> final(self)@.log == old(self)@.log + send_log_entries(
                string_views(numbers@),
                old(self)@.sender_id,
            ),
            (r matches Err(SdkError::Validation)) <==> (old(self)@.is_authenticated
                && normalize_set(string_views(numbers@)) =~= Set::<Seq<char>>::empty()),
            (!old(self)@.is_authenticated || normalize_set(string_views(numbers@)) =~= Set::<
                Seq<char>,
            >::empty()) ==> final(self)@.transport == old(self)@.transport,
            r matches Ok(resp) ==> (old(self)@.is_authenticated && some_reply_parses_to(resp@)),
            r matches Err(e) ==> (e is AuthRequired || e is Validation || e matches
                SdkError::Transport(_) || e matches SdkError::Protocol(_)),
    {
        let sender_id: String = self.sender_id.clone();
        self.query_send_sms_full(numbers, message, sender_id.as_str(), MessagePriority::Highest)
    }

    /// As `send_sms_full`, but hand back the full parsed response.
    ///
    /// Order of business, none of it reached without authentication:
    /// normalize and record the report, record the oversized-sender-id
    /// advisory, refuse an empty set of destinations before any network
    /// attempt, and only then send the built envelope and parse the reply.
    pub fn query_send_sms_full(
        &mut self,
        numbers: Vec<String>,
        message: &str,
        sender_id: &str,
        priority: MessagePriority,
    ) -> (r: Result<ApiResponse, SdkError>)
        ensures
            (r matches Err(SdkError::AuthRequired)) <==> !old(self)@.is_authenticated,
            !old(self)@.is_authenticated ==> *final(self) == *old(self),
            settings_unchanged(old(self)@, final(self)@),
            old(self)@.is_authenticated ==> final(self)@.log == old(self)@.log + send_log_entries(
                string_views(numbers@),
                sender_id@,
            ),
            (r matches Err(SdkError::Validation)) <==> (old(self)@.is_authenticated
                && normalize_set(string_views(numbers@)) =~= Set::<Seq<char>>::empty()),
            (!old(self)@.is_authenticated || normalize_set(string_views(numbers@)) =~= Set::<
                Seq<char>,
            >::empty()) ==> final(self)@.transport == old(self)@.transport,
            r matches Ok(resp) ==> (old(self)@.is_authenticated && some_reply_parses_to(resp@)),
            r matches Err(e) ==> (e is AuthRequired || e is Validation || e matches
                SdkError::Transport(_) || e matches SdkError::Protocol(_)),
    {
        match self.ensure_authenticated() {
            Err(e) => {
                return Err(e);
            },
            Ok(_) => {},
        }
        let ghost log0 = self@.log;
        let pair = normalize_report(&numbers);
        let valid: Vec<String> = pair.0;
        let mut report: Vec<Diagnostic> = pair.1;
        let ghost report_v = diag_views(report@);
        self.log.append(&mut report);
        proof {
            assert(diag_views(self.log@) =~= log0 + report_v);
        }
        if sender_id.unicode_len() > 11 {
            let ghost mid = diag_views(self.log@);
            self.log.push(
                Diagnostic { kind: DiagnosticKind::LongSenderId, value: sender_id.to_owned() },
            );
            proof {
                assert(diag_views(self.log@) =~= mid.push(
                    DiagnosticV { kind: DiagnosticKind::LongSenderId, value: sender_id@ },
                ));
                assert(diag_views(self.log@) =~= log0 + send_log_entries(
                    string_views(numbers@),
                    sender_id@,
                ));
            }
        } else {
            proof {
                assert(diag_views(self.log@) =~= log0 + send_log_entries(
                    string_views(numbers@),
                    sender_id@,
                ));
            }
        }
        if valid.is_empty() {
            proof {
                assert(string_views(valid@).to_set() =~= Set::<Seq<char>>::empty());
            }
            return Err(SdkError::Validation);
        }
        proof {
            assert(string_views(valid@)[0] == (valid@[0])@);
            assert(string_views(valid@).contains((valid@[0])@));
            assert(string_views(valid@).to_set().contains((valid@[0])@));
            assert(!(normalize_set(string_views(numbers@)) =~= Set::<Seq<char>>::empty()));
        }
        let request: ApiRequest = ApiRequest::send_request(
            self.user_name.as_str(),
            self.api_key.as_str(),
            &valid,
            message,
            sender_id,
            priority,
        );
        proof {
            // the data-model invariant: a send envelope always carries
            // a non-empty message list
            assert(request.wf());
        }
        let body: String = render_request(&request);
        let url: String = self.api_url.clone();
        match self.transport.post_json(url.as_str(), body.as_str()) {
            Err(e) => Err(SdkError::Transport(e)),
            Ok(reply) => match parse_api_response(reply.as_str()) {
                Ok(resp) => {
                    proof {
                        assert(spec_parse_response(reply@) == Ok::<ApiResponseV, ParseFailV>(
                            resp@,
                        ));
                    }
                    Ok(resp)
                },
                Err(f) => match f {
                    ParseFail::Malformed => Err(
                        SdkError::Transport(String::from_str("malformed response body")),
                    ),
                    ParseFail::UnknownStatus(t) => Err(SdkError::Protocol(t)),
                },
            },
        }
    }

    /// Query the account balance, handing back the full parsed response;
    /// the caller inspects its `balance` field.
    pub fn query_balance(&mut self) -> (r: Result<ApiResponse, SdkError>)
        ensures
            (r matches Err(SdkError::AuthRequired)) <==> !old(self)@.is_authenticated,
            !old(self)@.is_authenticated ==> *final(self) == *old(self),
            settings_unchanged(old(self)@, final(self)@),
            final(self)@.log == old(self)@.log,
            r matches Ok(resp) ==> (old(self)@.is_authenticated && some_reply_parses_to(resp@)),
            r matches Err(e) ==> (e is AuthRequired || e matches SdkError::Transport(_) || e
                matches SdkError::Protocol(_)),
    {
        match self.ensure_authenticated() {
            Err(e) => {
                return Err(e);
            },
            Ok(_) => {},
        }
        let request: ApiRequest = ApiRequest::balance_request(
            self.user_name.as_str(),
            self.api_key.as_str(),
        );
        let body: String = render_request(&request);
        let url: String = self.api_url.clone();
        match self.transport.post_json(url.as_str(), body.as_str()) {
            Err(e) => Err(SdkError::Transport(e)),
            Ok(reply) => match parse_api_response(reply.as_str()) {
                Ok(resp) => {
                    proof {
                        assert(spec_parse_response(reply@) == Ok::<ApiResponseV, ParseFailV>(
                            resp@,
                        ));
                    }
                    Ok(resp)
                },
                Err(f) => match f {
                    ParseFail::Malformed => Err(
                        SdkError::Transport(String::from_str("malformed response body")),
                    ),
                    ParseFail::UnknownStatus(t) => Err(SdkError::Protocol(t)),
                },
            },
        }
    }

    /// Query the account balance and extract it. A reply without a usable
    /// balance is a typed error, never a stand-in value.
    pub fn get_balance(&mut self) -> (r: Result<Balance, SdkError>)
        ensures
            (r matches Err(SdkError::AuthRequired)) <==> !old(self)@.is_authenticated,
            !old(self)@.is_authenticated ==> *final(self) == *old(self),
            settings_unchanged(old(self)@, final(self)@),
            final(self)@.log == old(self)@.log,
            r matches Ok(b) ==> (old(self)@.is_authenticated && some_reply_has_balance(b@)),
            r matches Err(e) ==> (e is AuthRequired || e is MissingBalance || e matches
                SdkError::Transport(_) || e matches SdkError::Protocol(_)),
    {
        match self.query_balance() {
            Err(e) => Err(e),
            Ok(resp) => match resp.balance {
                Some(b) => {
                    proof {
                        let body = choose|body: Seq<char>|
                            spec_parse_response(body) == Ok::<ApiResponseV, ParseFailV>(resp@);
                        assert(spec_parse_response(body) matches Ok(rv) && rv.balance == Some(
                            b@,
                        ));
                    }
                    Ok(b)
                },
                None => Err(SdkError::MissingBalance),
            },
        }
    }
}

} // verus!
