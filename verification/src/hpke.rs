//! The keys that an aggregator decrypts with.

use crate::auth::text_bytes;
use crate::codec::{append_bytes, Codec};
use crate::error::{fatal_error, DapError};
use crate::messages::{
    BatchSelector, HpkeAeadId, HpkeConfig, HpkeKdfId, HpkeKemId, Id, Interval, ReportMetadata,
    ReportMetadataView, TaskId,
};
use vstd::prelude::*;

verus! {

/// The collector, as a ciphertext names it.
pub const CTX_ROLE_COLLECTOR: u8 = 0;

/// A client, as a ciphertext names it.
pub const CTX_ROLE_CLIENT: u8 = 1;

/// The Leader, as a ciphertext names it.
pub const CTX_ROLE_LEADER: u8 = 2;

/// The Helper, as a ciphertext names it.
pub const CTX_ROLE_HELPER: u8 = 3;

/// A batch that is selected by its interval, as a ciphertext names it.
pub const CTX_BATCH_TIME_INTERVAL: u8 = 1;

/// A batch that is selected by its identifier, as a ciphertext names it.
pub const CTX_BATCH_FIXED_SIZE: u8 = 2;

/// The aggregator, as a ciphertext names it.
pub open spec fn aggregator_role(is_leader: bool) -> u8 {
    if is_leader {
        CTX_ROLE_LEADER
    } else {
        CTX_ROLE_HELPER
    }
}

/// What says that a ciphertext holds an input share: the purpose, then the
/// sender, a client, then the aggregator that receives it.
pub open spec fn input_share_info_bytes(receiver_is_leader: bool) -> Seq<u8> {
    text_bytes("dap-02 input share"@) + seq![
        CTX_ROLE_CLIENT,
        aggregator_role(receiver_is_leader),
    ]
}

/// What says that a ciphertext holds an aggregate share: the purpose, then
/// the aggregator that sends it, then the receiver, the collector.
pub open spec fn agg_share_info_bytes(sender_is_leader: bool) -> Seq<u8> {
    text_bytes("dap-02 aggregate share"@) + seq![
        aggregator_role(sender_is_leader),
        CTX_ROLE_COLLECTOR,
    ]
}

/// What an input share is bound to: the task, then the report's time and
/// identifier, each as it is written on the wire.
pub open spec fn input_share_aad_bytes(task_id: Seq<u8>, metadata: ReportMetadataView) -> Seq<
    u8,
> {
    Id::encoding(task_id) + ReportMetadata::encoding(metadata)
}

/// The batch as an aggregate share is bound to it: the kind of selection,
/// then the interval or the identifier as it is written on the wire.
pub open spec fn batch_selector_bytes(batch_sel: BatchSelector) -> Seq<u8> {
    match batch_sel {
        BatchSelector::TimeInterval { batch_interval } => seq![CTX_BATCH_TIME_INTERVAL]
            + Interval::encoding(batch_interval@),
        BatchSelector::FixedSizeByBatchId { batch_id } => seq![CTX_BATCH_FIXED_SIZE]
            + Id::encoding(batch_id@),
    }
}

/// What an aggregate share is bound to: the task, then the batch.
pub open spec fn agg_share_aad_bytes(task_id: Seq<u8>, batch_sel: BatchSelector) -> Seq<u8> {
    Id::encoding(task_id) + batch_selector_bytes(batch_sel)
}

fn role_byte(is_leader: bool) -> (role: u8)
    ensures
        role == aggregator_role(is_leader),
{
    if is_leader {
        CTX_ROLE_LEADER
    } else {
        CTX_ROLE_HELPER
    }
}

/// What says that a ciphertext holds an input share for the Leader, or for
/// the Helper.
pub fn input_share_info(receiver_is_leader: bool) -> (info: Vec<u8>)
    ensures
        info@ == input_share_info_bytes(receiver_is_leader),
{
    let mut info: Vec<u8> = Vec::new();
    append_bytes(&mut info, "dap-02 input share".as_bytes());
    info.push(CTX_ROLE_CLIENT);
    info.push(role_byte(receiver_is_leader));
    assert(info@ =~= input_share_info_bytes(receiver_is_leader));
    info
}

/// What says that a ciphertext holds the aggregate share of the Leader, or
/// of the Helper.
pub fn agg_share_info(sender_is_leader: bool) -> (info: Vec<u8>)
    ensures
        info@ == agg_share_info_bytes(sender_is_leader),
{
    let mut info: Vec<u8> = Vec::new();
    append_bytes(&mut info, "dap-02 aggregate share".as_bytes());
    info.push(role_byte(sender_is_leader));
    info.push(CTX_ROLE_COLLECTOR);
    assert(info@ =~= agg_share_info_bytes(sender_is_leader));
    info
}

/// What the input shares of a report are bound to.
pub fn input_share_aad(task_id: &TaskId, metadata: &ReportMetadata) -> (aad: Vec<u8>)
    ensures
        aad@ == input_share_aad_bytes(task_id@, metadata@),
{
    let mut aad: Vec<u8> = Vec::new();
    match task_id.encode(&mut aad) {
        Ok(_) => {},
        Err(_) => vstd::pervasive::unreached(),
    }
    match metadata.encode(&mut aad) {
        Ok(_) => {},
        Err(_) => vstd::pervasive::unreached(),
    }
    assert(aad@ =~= input_share_aad_bytes(task_id@, metadata@));
    aad
}

/// What the aggregate share of a batch is bound to.
pub fn agg_share_aad(task_id: &TaskId, batch_sel: &BatchSelector) -> (aad: Vec<u8>)
    ensures
        aad@ == agg_share_aad_bytes(task_id@, *batch_sel),
{
    let mut aad: Vec<u8> = Vec::new();
    match task_id.encode(&mut aad) {
        Ok(_) => {},
        Err(_) => vstd::pervasive::unreached(),
    }
    match batch_sel {
        BatchSelector::TimeInterval { batch_interval } => {
            aad.push(CTX_BATCH_TIME_INTERVAL);
            match batch_interval.encode(&mut aad) {
                Ok(_) => {},
                Err(_) => vstd::pervasive::unreached(),
            }
        },
        BatchSelector::FixedSizeByBatchId { batch_id } => {
            aad.push(CTX_BATCH_FIXED_SIZE);
            match batch_id.encode(&mut aad) {
                Ok(_) => {},
                Err(_) => vstd::pervasive::unreached(),
            }
        },
    }
    assert(aad@ =~= agg_share_aad_bytes(task_id@, *batch_sel));
    aad
}

/// A public key configuration together with its private key.
#[derive(Debug, PartialEq, Eq)]
pub struct HpkeReceiverConfig {
    pub config: HpkeConfig,
    pub private_key: Vec<u8>,
}

/// Whether each of the three algorithms of the configuration is one that
/// has a name here. Only to such a configuration can a share be sealed.
pub open spec fn spec_is_supported(config: HpkeConfig) -> bool {
    &&& config.kem_id is X25519HkdfSha256
    &&& config.kdf_id is HkdfSha256
    &&& config.aead_id is Aes128Gcm
}

/// Whether a share can be sealed to the configuration.
pub fn is_supported(config: &HpkeConfig) -> (b: bool)
    ensures
        b == spec_is_supported(*config),
{
    let kem = match config.kem_id {
        HpkeKemId::X25519HkdfSha256 => true,
        HpkeKemId::NotImplemented(_) => false,
    };
    let kdf = match config.kdf_id {
        HpkeKdfId::HkdfSha256 => true,
        HpkeKdfId::NotImplemented(_) => false,
    };
    let aead = match config.aead_id {
        HpkeAeadId::Aes128Gcm => true,
        HpkeAeadId::NotImplemented(_) => false,
    };
    kem && kdf && aead
}

/// Refuses to seal to a configuration with an algorithm that has no name
/// here.
pub fn check_seal_config(config: &HpkeConfig) -> (r: Result<(), DapError>)
    ensures
        match r {
            Ok(_) => spec_is_supported(*config),
            Err(e) => !spec_is_supported(*config) && e.is_fatal("HpkeEncrypt"@),
        },
{
    if is_supported(config) {
        Ok(())
    } else {
        Err(fatal_error("HpkeEncrypt"))
    }
}

/// The place of the first configuration with the identifier `id`; the
/// length of the list if there is none.
pub open spec fn receiver_config_index(list: Seq<HpkeReceiverConfig>, id: u8, from: int) -> int
    decreases list.len() - from,
{
    if from < 0 || from >= list.len() {
        list.len() as int
    } else if list[from].config.id == id {
        from
    } else {
        receiver_config_index(list, id, from + 1)
    }
}

/// No configuration before the first with the identifier has it.
pub proof fn lemma_receiver_config_index(list: Seq<HpkeReceiverConfig>, id: u8, from: int)
    requires
        0 <= from <= list.len(),
    ensures
        from <= receiver_config_index(list, id, from) <= list.len(),
        receiver_config_index(list, id, from) < list.len() ==> list[receiver_config_index(
            list,
            id,
            from,
        )].config.id == id,
        forall|j: int|
            from <= j < receiver_config_index(list, id, from) ==> (#[trigger] list[j]).config.id
                != id,
    decreases list.len() - from,
{
    if from < list.len() && list[from].config.id != id {
        lemma_receiver_config_index(list, id, from + 1);
    }
}

/// The first configuration of the list with the identifier `id`.
pub fn find_receiver_config(list: &Vec<HpkeReceiverConfig>, id: u8) -> (r: Option<
    &HpkeReceiverConfig,
>)
    ensures
        match r {
            Some(found) => {
                let i = receiver_config_index(list@, id, 0);
                i < list@.len() && *found == list@[i]
            },
            None => receiver_config_index(list@, id, 0) == list@.len(),
        },
{
    let mut i: usize = 0;
    while i < list.len()
        invariant
            i <= list@.len(),
            receiver_config_index(list@, id, 0) == receiver_config_index(list@, id, i as int),
        decreases list@.len() - i,
    {
        if list[i].config.id == id {
            return Some(&list[i]);
        }
        i = i + 1;
    }
    None
}

} // verus!
