//! Bearer tokens, by which the parties of a task know each other.

use crate::messages::constant_time_eq;
use vstd::prelude::*;

verus! {

/// A bearer token.
#[derive(Debug, PartialEq, Eq)]
pub struct BearerToken {
    raw: String,
}

impl View for BearerToken {
    type V = Seq<char>;

    closed spec fn view(&self) -> Seq<char> {
        self.raw@
    }
}

impl Clone for BearerToken {
    fn clone(&self) -> (copy: Self)
        ensures
            copy@ == self@,
    {
        BearerToken { raw: self.raw.clone() }
    }
}

/// The bytes that a text is written as.
pub open spec fn text_bytes(text: Seq<char>) -> Seq<u8> {
    vstd::utf8::encode_utf8(text)
}

impl BearerToken {
    /// The token with the text `raw`.
    pub fn from(raw: String) -> (token: Self)
        ensures
            token@ == raw@,
    {
        BearerToken { raw }
    }

    /// The text of the token.
    pub fn as_ref(&self) -> (raw: &str)
        ensures
            raw@ == self@,
    {
        self.raw.as_str()
    }

    /// Whether the two tokens are written as the same bytes. The time
    /// taken depends on their lengths only.
    pub fn matches(&self, other: &BearerToken) -> (b: bool)
        ensures
            b == (text_bytes(self@) == text_bytes(other@)),
    {
        constant_time_eq(self.raw.as_str().as_bytes(), other.raw.as_str().as_bytes())
    }
}

/// Who sends a message.
#[derive(Clone, Copy, Debug, PartialEq, Eq, Structural)]
pub enum DapSender {
    Client,
    Collector,
    Helper,
    Leader,
}

/// What kind of message the body of a request or response is.
#[derive(Clone, Copy, Debug, PartialEq, Eq, Structural)]
pub enum DapMediaType {
    AggregationJobInitReq,
    AggregationJobResp,
    AggregationJobContinueReq,
    AggregateShareReq,
    AggregateShare,
    CollectReq,
    Collection,
    HpkeConfigList,
    Report,
}

impl DapMediaType {
    /// Who sends messages of the kind. The list of keys is sent by either
    /// aggregator, and so by no one in particular.
    pub open spec fn spec_sender(self) -> Option<DapSender> {
        match self {
            DapMediaType::AggregationJobInitReq => Some(DapSender::Leader),
            DapMediaType::AggregationJobContinueReq => Some(DapSender::Leader),
            DapMediaType::AggregateShareReq => Some(DapSender::Leader),
            DapMediaType::Collection => Some(DapSender::Leader),
            DapMediaType::AggregationJobResp => Some(DapSender::Helper),
            DapMediaType::AggregateShare => Some(DapSender::Helper),
            DapMediaType::CollectReq => Some(DapSender::Collector),
            DapMediaType::Report => Some(DapSender::Client),
            DapMediaType::HpkeConfigList => None,
        }
    }

    /// Who sends messages of the kind.
    pub fn sender(self) -> (sender: Option<DapSender>)
        ensures
            sender == self.spec_sender(),
    {
        match self {
            DapMediaType::AggregationJobInitReq => Some(DapSender::Leader),
            DapMediaType::AggregationJobContinueReq => Some(DapSender::Leader),
            DapMediaType::AggregateShareReq => Some(DapSender::Leader),
            DapMediaType::Collection => Some(DapSender::Leader),
            DapMediaType::AggregationJobResp => Some(DapSender::Helper),
            DapMediaType::AggregateShare => Some(DapSender::Helper),
            DapMediaType::CollectReq => Some(DapSender::Collector),
            DapMediaType::Report => Some(DapSender::Client),
            DapMediaType::HpkeConfigList => None,
        }
    }
}

/// Why a request is not authorized, if it is not. `shown` is the token
/// that came with the request, `leader` and `collector` are the tokens
/// that the aggregator knows for the task. A request of the Leader or of
/// the collector is authorized if it shows the sender's token.
pub open spec fn unauthorized_text(
    media_type: DapMediaType,
    shown: Option<Seq<char>>,
    leader: Seq<char>,
    collector: Option<Seq<char>>,
) -> Option<Seq<char>> {
    match shown {
        None => Some("Missing authorization."@),
        Some(shown) => if media_type.spec_sender() == Some(DapSender::Leader) {
            if text_bytes(shown) == text_bytes(leader) {
                None
            } else {
                Some("The indicated bearer token is incorrect for the Leader."@)
            }
        } else if media_type.spec_sender() == Some(DapSender::Collector) && collector is Some {
            if text_bytes(shown) == text_bytes(collector->0) {
                None
            } else {
                Some("The indicated bearer token is incorrect for the Collector."@)
            }
        } else {
            Some("No suitable authorization method was found."@)
        },
    }
}

/// Why a request is not authorized, if it is not.
pub fn unauthorized_reason(
    media_type: DapMediaType,
    shown: Option<&BearerToken>,
    leader: &BearerToken,
    collector: Option<&BearerToken>,
) -> (reason: Option<String>)
    ensures
        match unauthorized_text(
            media_type,
            match shown {
                Some(token) => Some(token@),
                None => None,
            },
            leader@,
            match collector {
                Some(token) => Some(token@),
                None => None,
            },
        ) {
            Some(text) => reason matches Some(r) && r@ == text,
            None => reason is None,
        },
{
    let shown = match shown {
        Some(shown) => shown,
        None => {
            return Some("Missing authorization.".to_owned());
        },
    };
    match media_type.sender() {
        Some(DapSender::Leader) => {
            if shown.matches(leader) {
                None
            } else {
                Some("The indicated bearer token is incorrect for the Leader.".to_owned())
            }
        },
        Some(DapSender::Collector) => match collector {
            Some(collector) => {
                if shown.matches(collector) {
                    None
                } else {
                    Some("The indicated bearer token is incorrect for the Collector.".to_owned())
                }
            },
            None => Some("No suitable authorization method was found.".to_owned()),
        },
        _ => Some("No suitable authorization method was found.".to_owned()),
    }
}

} // verus!
