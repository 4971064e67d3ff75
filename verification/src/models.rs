//! Data model for the gateway's JSON envelope: the request built for each
//! call, the typed response parsed from the wire, and the diagnostics the
//! session records for its caller.

use vstd::prelude::*;
use vstd::string::*;

verus! {

/// Outcome code the gateway reports in the `Status` field of a response.
/// Any other wire value is a protocol error, never a third state.
#[derive(Clone, Copy, PartialEq, Eq, Structural, Debug)]
pub enum ApiResponseCode {
    OK,
    Failed,
}

impl ApiResponseCode {
    pub fn is_ok(&self) -> (r: bool)
        ensures
            r == (*self == ApiResponseCode::OK),
    {
        *self == ApiResponseCode::OK
    }

    pub fn is_failed(&self) -> (r: bool)
        ensures
            r == (*self == ApiResponseCode::Failed),
    {
        *self == ApiResponseCode::Failed
    }
}

/// Delivery priority of an outbound message; serialized on the wire as the
/// digit strings "0" (highest) through "4" (lowest).
#[derive(Clone, Copy, PartialEq, Eq, Structural, Debug)]
pub enum MessagePriority {
    Highest,
    High,
    Medium,
    Low,
    Lowest,
}

impl MessagePriority {
    /// The digit this priority is written as on the wire.
    pub open spec fn spec_wire_digit(self) -> char {
        match self {
            MessagePriority::Highest => '0',
            MessagePriority::High => '1',
            MessagePriority::Medium => '2',
            MessagePriority::Low => '3',
            MessagePriority::Lowest => '4',
        }
    }

    pub fn wire_digit(&self) -> (c: char)
        ensures
            c == self.spec_wire_digit(),
    {
        match self {
            MessagePriority::Highest => '0',
            MessagePriority::High => '1',
            MessagePriority::Medium => '2',
            MessagePriority::Low => '3',
            MessagePriority::Lowest => '4',
        }
    }
}

/// The credential block of a request. The secret is an API key, but the wire
/// field is named `password` by the remote API.
#[derive(Clone, Debug)]
pub struct UserData {
    pub username: String,
    pub password: String,
}

impl UserData {
    pub fn new(username: &str, api_key: &str) -> (r: UserData)
        ensures
            r.username@ == username@,
            r.password@ == api_key@,
    {
        UserData { username: username.to_owned(), password: api_key.to_owned() }
    }
}

/// One outbound message: a canonical destination number, the body, the sender
/// id it is sent under, and its priority.
#[derive(Clone, Debug)]
pub struct MessageModel {
    pub number: String,
    pub message: String,
    pub sender_id: String,
    pub priority: MessagePriority,
}

/// The JSON request envelope. `method` is `"SendSms"` or `"Balance"`;
/// `message_data` is the `msgdata` list, present exactly for send requests.
#[derive(Clone, Debug)]
pub struct ApiRequest {
    pub method: String,
    pub userdata: UserData,
    pub message_data: Option<Vec<MessageModel>>,
}

impl ApiRequest {
    /// A request is well formed when its method is one of the two the
    /// protocol defines, and a send request carries a non-empty message list
    /// while a balance request carries none.
    pub open spec fn wf(self) -> bool {
        &&& (self.method@ == "SendSms"@ || self.method@ == "Balance"@)
        &&& (self.method@ == "SendSms"@ ==> (self.message_data matches Some(m) && m.len() > 0))
        &&& (self.method@ == "Balance"@ ==> self.message_data is None)
    }
}

impl ApiRequest {
    /// Build a balance request: the credentials and no message list.
    pub fn balance_request(username: &str, api_key: &str) -> (r: ApiRequest)
        ensures
            r.method@ == "Balance"@,
            r.userdata.username@ == username@,
            r.userdata.password@ == api_key@,
            r.message_data is None,
            r.wf(),
    {
        let r = ApiRequest {
            method: String::from_str("Balance"),
            userdata: UserData::new(username, api_key),
            message_data: None,
        };
        proof {
            reveal_strlit("Balance");
            reveal_strlit("SendSms");
            assert("Balance"@[0] == 'B' && "SendSms"@[0] == 'S');
            assert(r.method@ != "SendSms"@);
        }
        r
    }

    /// Build a send request: one message per destination number, all with
    /// the same body, sender id and priority.
    pub fn send_request(
        username: &str,
        api_key: &str,
        numbers: &Vec<String>,
        message: &str,
        sender_id: &str,
        priority: MessagePriority,
    ) -> (r: ApiRequest)
        requires
            numbers@.len() > 0,
        ensures
            r.method@ == "SendSms"@,
            r.userdata.username@ == username@,
            r.userdata.password@ == api_key@,
            r.message_data matches Some(ms) && ({
                &&& ms@.len() == numbers@.len()
                &&& forall|i: int|
                    0 <= i < ms@.len() ==> {
                        &&& (#[trigger] ms@[i]).number@ == (numbers@[i])@
                        &&& ms@[i].message@ == message@
                        &&& ms@[i].sender_id@ == sender_id@
                        &&& ms@[i].priority == priority
                    }
            }),
            r.wf(),
    {
        let n: usize = numbers.len();
        let mut msgs: Vec<MessageModel> = Vec::new();
        let mut i: usize = 0;
        while i < n
            invariant
                n == numbers@.len(),
                i <= n,
                msgs@.len() == i,
                forall|j: int|
                    0 <= j < i ==> {
                        &&& (#[trigger] msgs@[j]).number@ == (numbers@[j])@
                        &&& msgs@[j].message@ == message@
                        &&& msgs@[j].sender_id@ == sender_id@
                        &&& msgs@[j].priority == priority
                    },
            decreases n - i,
        {
            msgs.push(
                MessageModel {
                    number: numbers[i].clone(),
                    message: message.to_owned(),
                    sender_id: sender_id.to_owned(),
                    priority,
                },
            );
            i = i + 1;
        }
        let r = ApiRequest {
            method: String::from_str("SendSms"),
            userdata: UserData::new(username, api_key),
            message_data: Some(msgs),
        };
        proof {
            reveal_strlit("Balance");
            reveal_strlit("SendSms");
            assert("Balance"@[0] == 'B' && "SendSms"@[0] == 'S');
            assert(r.method@ != "Balance"@);
        }
        r
    }
}

/// An account balance as the gateway reports it: a decimal literal held
/// exactly, with value (-1 if negative) * mantissa / 10^scale.
#[derive(Clone, Copy, PartialEq, Eq, Structural, Debug)]
pub struct Balance {
    pub negative: bool,
    pub mantissa: u64,
    pub scale: u32,
}

/// Ghost image of `Balance`.
pub ghost struct BalanceV {
    pub negative: bool,
    pub mantissa: int,
    pub scale: int,
}

impl View for Balance {
    type V = BalanceV;

    open spec fn view(&self) -> BalanceV {
        BalanceV { negative: self.negative, mantissa: self.mantissa as int, scale: self.scale as int }
    }
}

/// The typed response parsed from the gateway's JSON reply.
#[derive(Clone, Debug)]
pub struct ApiResponse {
    pub status: ApiResponseCode,
    pub message: Option<String>,
    pub cost: Option<i32>,
    pub message_follow_up_code: Option<String>,
    pub balance: Option<Balance>,
}

/// Ghost image of `ApiResponse`, over sequences and unbounded integers.
pub ghost struct ApiResponseV {
    pub status: ApiResponseCode,
    pub message: Option<Seq<char>>,
    pub cost: Option<int>,
    pub message_follow_up_code: Option<Seq<char>>,
    pub balance: Option<BalanceV>,
}

impl View for ApiResponse {
    type V = ApiResponseV;

    open spec fn view(&self) -> ApiResponseV {
        ApiResponseV {
            status: self.status,
            message: match self.message {
                Some(m) => Some(m@),
                None => None,
            },
            cost: match self.cost {
                Some(c) => Some(c as int),
                None => None,
            },
            message_follow_up_code: match self.message_follow_up_code {
                Some(m) => Some(m@),
                None => None,
            },
            balance: match self.balance {
                Some(b) => Some(b@),
                None => None,
            },
        }
    }
}

/// What a diagnostic is about.
#[derive(Clone, Copy, PartialEq, Eq, Structural, Debug)]
pub enum DiagnosticKind {
    /// The whole number list was empty.
    EmptyInput,
    /// A candidate number was blank after trimming.
    BlankNumber,
    /// A candidate number did not match the accepted shapes.
    InvalidNumber,
    /// A sender id longer than eleven characters was used for a send.
    LongSenderId,
}

/// An advisory diagnostic: the kind of problem and the offending value.
/// Diagnostics never abort an operation by themselves.
#[derive(Clone, PartialEq, Eq, Debug)]
pub struct Diagnostic {
    pub kind: DiagnosticKind,
    pub value: String,
}

/// Ghost image of `Diagnostic`.
pub ghost struct DiagnosticV {
    pub kind: DiagnosticKind,
    pub value: Seq<char>,
}

impl View for Diagnostic {
    type V = DiagnosticV;

    open spec fn view(&self) -> DiagnosticV {
        DiagnosticV { kind: self.kind, value: self.value@ }
    }
}

} // verus!
