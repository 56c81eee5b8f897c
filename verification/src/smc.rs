//! The requests that the SMC takes, its replies, and the exchanges made of them.
//!
//! An exchange is a function of the replies received so far: it says which call to
//! make next, or how the exchange ended. Whoever holds the connection makes the call,
//! adds the reply to the list, and asks again.
use crate::error::SmcError;
use crate::fourcc::fourcc_to_string;
use vstd::prelude::*;

verus! {

pub const SMC_CMD_READ_BYTES: u8 = 5;

pub const SMC_CMD_WRITE_BYTES: u8 = 6;

pub const SMC_CMD_READ_KEYINFO: u8 = 9;

/// How long a written mode key is left alone before it is read back.
pub const SETTLE_MS: u64 = 500;

#[derive(Clone, Copy, Debug, PartialEq, Eq, Structural)]
pub struct SmcKeyDataVers {
    pub major: u8,
    pub minor: u8,
    pub build: u8,
    pub reserved: u8,
    pub release: u16,
}

#[derive(Clone, Copy, Debug, PartialEq, Eq, Structural)]
pub struct SmcKeyDataPLimitData {
    pub version: u16,
    pub length: u16,
    pub cpu_p_limit: u32,
    pub gpu_p_limit: u32,
    pub mem_p_limit: u32,
}

/// Size, type and attributes of a key, as the SMC reports them.
#[derive(Clone, Copy, Debug, PartialEq, Eq, Structural)]
pub struct SmcKeyDataKeyInfo {
    pub data_size: u32,
    pub data_type: u32,
    pub data_attributes: u8,
}

/// The record that is sent to the SMC and that it fills in.
#[derive(Clone, Copy, Debug)]
pub struct SmcKeyData {
    pub key: u32,
    pub vers: SmcKeyDataVers,
    pub p_limit_data: SmcKeyDataPLimitData,
    pub key_info: SmcKeyDataKeyInfo,
    pub result: u8,
    pub status: u8,
    pub data8: u8,
    pub data32: u32,
    pub bytes: [u8; 32],
}

/// A record with its bytes as a sequence.
pub ghost struct SmcKeyDataView {
    pub key: u32,
    pub vers: SmcKeyDataVers,
    pub p_limit_data: SmcKeyDataPLimitData,
    pub key_info: SmcKeyDataKeyInfo,
    pub result: u8,
    pub status: u8,
    pub data8: u8,
    pub data32: u32,
    pub bytes: Seq<u8>,
}

impl View for SmcKeyData {
    type V = SmcKeyDataView;

    open spec fn view(&self) -> SmcKeyDataView {
        SmcKeyDataView {
            key: self.key,
            vers: self.vers,
            p_limit_data: self.p_limit_data,
            key_info: self.key_info,
            result: self.result,
            status: self.status,
            data8: self.data8,
            data32: self.data32,
            bytes: self.bytes@,
        }
    }
}

/// No size, type or attributes.
pub open spec fn no_info() -> SmcKeyDataKeyInfo {
    SmcKeyDataKeyInfo { data_size: 0, data_type: 0, data_attributes: 0 }
}

/// Data with zeros behind it up to 32 bytes.
pub open spec fn zero_filled(data: Seq<u8>) -> Seq<u8> {
    Seq::new(
        32,
        |i: int|
            if i < data.len() {
                data[i]
            } else {
                0
            },
    )
}

/// A request about a key: all else in the record is zero.
pub open spec fn request(
    key: u32,
    info: SmcKeyDataKeyInfo,
    command: u8,
    data: Seq<u8>,
) -> SmcKeyDataView {
    SmcKeyDataView {
        key,
        vers: SmcKeyDataVers { major: 0, minor: 0, build: 0, reserved: 0, release: 0 },
        p_limit_data: SmcKeyDataPLimitData {
            version: 0,
            length: 0,
            cpu_p_limit: 0,
            gpu_p_limit: 0,
            mem_p_limit: 0,
        },
        key_info: info,
        result: 0,
        status: 0,
        data8: command,
        data32: 0,
        bytes: zero_filled(data),
    }
}

/// The request for a key's size, type and attributes.
pub open spec fn info_request(key: u32) -> SmcKeyDataView {
    request(key, no_info(), SMC_CMD_READ_KEYINFO, seq![])
}

/// The request for a key's bytes.
pub open spec fn bytes_request(key: u32, info: SmcKeyDataKeyInfo) -> SmcKeyDataView {
    request(key, info, SMC_CMD_READ_BYTES, seq![])
}

/// The request to write a key.
pub open spec fn write_request(key: u32, data_type: u32, data: Seq<u8>) -> SmcKeyDataView {
    request(
        key,
        SmcKeyDataKeyInfo { data_size: data.len() as u32, data_type, data_attributes: 0 },
        SMC_CMD_WRITE_BYTES,
        data,
    )
}

impl Default for SmcKeyData {
    fn default() -> (r: SmcKeyData)
        ensures
            r@ == request(0, no_info(), 0, seq![]),
    {
        let bytes: [u8; 32] = [0;32];
        assert(bytes@ =~= zero_filled(seq![]));
        SmcKeyData {
            key: 0,
            vers: SmcKeyDataVers { major: 0, minor: 0, build: 0, reserved: 0, release: 0 },
            p_limit_data: SmcKeyDataPLimitData {
                version: 0,
                length: 0,
                cpu_p_limit: 0,
                gpu_p_limit: 0,
                mem_p_limit: 0,
            },
            key_info: SmcKeyDataKeyInfo { data_size: 0, data_type: 0, data_attributes: 0 },
            result: 0,
            status: 0,
            data8: 0,
            data32: 0,
            bytes,
        }
    }
}

/// What came back from one call: the kernel's return code and the record.
#[derive(Clone, Copy, Debug)]
pub struct Reply {
    pub rc: i32,
    pub out: SmcKeyData,
}

/// Why a reply is no answer, if it is none: the kernel's code comes before the SMC's.
pub open spec fn refusal(reply: Reply) -> Option<crate::error::SmcErrorView> {
    if reply.rc != 0 {
        Some(crate::error::SmcErrorView::CallFailed { rc: reply.rc })
    } else if reply.out.result != 0 {
        Some(crate::error::SmcErrorView::Refused { result: reply.out.result })
    } else {
        None
    }
}

impl Reply {
    /// The record of a reply that is an answer.
    pub fn accept(&self) -> (r: Result<SmcKeyData, SmcError>)
        ensures
            match r {
                Ok(out) => refusal(*self) is None && out == self.out,
                Err(e) => refusal(*self) == Some(e@),
            },
    {
        if self.rc != 0 {
            return Err(SmcError::CallFailed { rc: self.rc });
        }
        if self.out.result != 0 {
            return Err(SmcError::Refused { result: self.out.result });
        }
        Ok(self.out)
    }
}

/// Where an exchange stands.
pub enum Step<T> {
    /// Wait that many milliseconds, then make this call and add the reply.
    Call { after_ms: u64, input: SmcKeyData },
    /// The exchange is over.
    Done(Result<T, SmcError>),
}

/// Where an exchange stands, over the views of what it speaks of.
pub ghost enum StepView<V> {
    Call { after_ms: u64, input: SmcKeyDataView },
    Done(V),
    Failed(crate::error::SmcErrorView),
}

impl<T: View> View for Step<T> {
    type V = StepView<T::V>;

    open spec fn view(&self) -> StepView<T::V> {
        match *self {
            Step::Call { after_ms, input } => StepView::Call { after_ms, input: input@ },
            Step::Done(Ok(t)) => StepView::Done(t@),
            Step::Done(Err(e)) => StepView::Failed(e@),
        }
    }
}

/// What a key holds: its description and its bytes.
#[derive(Clone, Copy, Debug)]
pub struct KeyValue {
    pub info: SmcKeyDataKeyInfo,
    pub bytes: [u8; 32],
}

pub ghost struct KeyValueView {
    pub info: SmcKeyDataKeyInfo,
    pub bytes: Seq<u8>,
}

impl View for KeyValue {
    type V = KeyValueView;

    open spec fn view(&self) -> KeyValueView {
        KeyValueView { info: self.info, bytes: self.bytes@ }
    }
}

impl KeyValueView {
    /// The number that the key holds.
    pub open spec fn number(self) -> Option<crate::binary64::Binary64> {
        crate::codec::decoded(self.info, self.bytes)
    }
}

/// The exchange that reads a key: first its description, then its bytes. The first
/// call is made after a wait. `t` is what was replied in this exchange.
pub open spec fn key_reading(wait: u64, key: u32, t: Seq<Reply>) -> StepView<KeyValueView> {
    if t.len() == 0 {
        StepView::Call { after_ms: wait, input: info_request(key) }
    } else if let Some(e) = refusal(t[0]) {
        StepView::Failed(e)
    } else if t.len() == 1 {
        StepView::Call { after_ms: 0, input: bytes_request(key, t[0].out.key_info) }
    } else if let Some(e) = refusal(t[1]) {
        StepView::Failed(e)
    } else {
        StepView::Done(KeyValueView { info: t[0].out.key_info, bytes: t[1].out.bytes@ })
    }
}

/// The exchange that writes a key, lets it settle and reads it back.
pub open spec fn write_and_read_back(
    key: u32,
    data_type: u32,
    data: Seq<u8>,
    t: Seq<Reply>,
) -> StepView<KeyValueView> {
    if data.len() > 32 {
        StepView::Failed(crate::error::SmcErrorView::PayloadTooLong)
    } else if t.len() == 0 {
        StepView::Call { after_ms: 0, input: write_request(key, data_type, data) }
    } else if let Some(e) = refusal(t[0]) {
        StepView::Failed(e)
    } else {
        key_reading(SETTLE_MS, key, t.skip(1))
    }
}

/// The exchange that writes a key.
pub open spec fn key_writing(
    key: u32,
    data_type: u32,
    data: Seq<u8>,
    t: Seq<Reply>,
) -> StepView<()> {
    if data.len() > 32 {
        StepView::Failed(crate::error::SmcErrorView::PayloadTooLong)
    } else if t.len() == 0 {
        StepView::Call { after_ms: 0, input: write_request(key, data_type, data) }
    } else if let Some(e) = refusal(t[0]) {
        StepView::Failed(e)
    } else {
        StepView::Done(())
    }
}

pub(crate) fn key_info_request(key: u32) -> (r: SmcKeyData)
    ensures
        r@ == info_request(key),
{
    let mut input = SmcKeyData::default();
    input.key = key;
    input.data8 = SMC_CMD_READ_KEYINFO;
    input
}

pub(crate) fn key_bytes_request(key: u32, info: SmcKeyDataKeyInfo) -> (r: SmcKeyData)
    ensures
        r@ == bytes_request(key, info),
{
    let mut input = SmcKeyData::default();
    input.key = key;
    input.key_info = info;
    input.data8 = SMC_CMD_READ_BYTES;
    input
}

pub(crate) fn key_write_request(key: u32, data_type: u32, data: &Vec<u8>) -> (r: SmcKeyData)
    requires
        data@.len() <= 32,
    ensures
        r@ == write_request(key, data_type, data@),
{
    let mut bytes: [u8; 32] = [0;32];
    let n: usize = data.len();
    let mut i: usize = 0;
    while i < n
        invariant
            i <= n == data@.len() <= 32,
            forall|j: int| 0 <= j < i ==> bytes@[j] == data@[j],
            forall|j: int| i <= j < 32 ==> bytes@[j] == 0,
        decreases n - i,
    {
        bytes[i] = data[i];
        i = i + 1;
    }
    assert(bytes@ =~= zero_filled(data@));
    let mut input = SmcKeyData::default();
    input.key = key;
    input.key_info = SmcKeyDataKeyInfo { data_size: n as u32, data_type, data_attributes: 0 };
    input.data8 = SMC_CMD_WRITE_BYTES;
    input.bytes = bytes;
    input
}

/// Size, type and attributes of a key, with the type as text.
#[derive(Debug, Clone, PartialEq, Eq)]
pub struct KeyInfo {
    pub data_type: String,
    pub data_size: u32,
    pub data_attributes: u8,
}

pub ghost struct KeyInfoView {
    pub data_type: Seq<char>,
    pub data_size: u32,
    pub data_attributes: u8,
}

impl View for KeyInfo {
    type V = KeyInfoView;

    open spec fn view(&self) -> KeyInfoView {
        KeyInfoView {
            data_type: self.data_type@,
            data_size: self.data_size,
            data_attributes: self.data_attributes,
        }
    }
}

/// An optional description, over its view.
pub open spec fn maybe_info(k: Option<KeyInfo>) -> Option<KeyInfoView> {
    match k {
        Some(k) => Some(k@),
        None => None,
    }
}

/// The description that the SMC's record stands for.
pub open spec fn described(raw: SmcKeyDataKeyInfo) -> KeyInfoView {
    KeyInfoView {
        data_type: crate::fourcc::code_text(raw.data_type),
        data_size: raw.data_size,
        data_attributes: raw.data_attributes,
    }
}

/// The description of a key from the SMC's record.
pub fn key_info_from_raw(raw: &SmcKeyDataKeyInfo) -> (r: KeyInfo)
    ensures
        r@ == described(*raw),
        vstd::utf8::valid_utf8(crate::fourcc::code_bytes(raw.data_type)) ==> r.data_type@
            == vstd::utf8::decode_utf8(crate::fourcc::code_bytes(raw.data_type)),
{
    KeyInfo {
        data_type: fourcc_to_string(raw.data_type),
        data_size: raw.data_size,
        data_attributes: raw.data_attributes,
    }
}

impl KeyInfo {
    /// A copy.
    pub fn duplicate(&self) -> (r: KeyInfo)
        ensures
            r == *self,
    {
        KeyInfo {
            data_type: self.data_type.clone(),
            data_size: self.data_size,
            data_attributes: self.data_attributes,
        }
    }
}

/// What a reply to an info request says of the key; nothing where it is refused.
pub open spec fn answered_info(reply: Reply) -> Option<KeyInfoView> {
    if refusal(reply) is None {
        Some(described(reply.out.key_info))
    } else {
        None
    }
}

/// What a reply to an info request says of the key; nothing where it is refused.
pub fn info_answer(reply: &Reply) -> (r: Option<KeyInfo>)
    ensures
        maybe_info(r) == answered_info(*reply),
{
    match reply.accept() {
        Ok(out) => Some(key_info_from_raw(&out.key_info)),
        Err(_) => None,
    }
}

/// An open connection to the AppleSMC service.
#[derive(Clone, Copy, Debug, PartialEq, Eq, Structural)]
pub struct SmcConnection {
    pub conn: u32,
}

/// What is known while the service is being opened.
#[derive(Clone, Copy, Debug)]
pub struct OpeningFacts {
    /// Whether the matching dictionary came out as null.
    pub matching_is_null: Option<bool>,
    /// The service that matches, zero for none.
    pub service: Option<u32>,
    /// The kernel's return code of the opening, and the connection.
    pub opened: Option<(i32, u32)>,
}

/// What to do next to open the service.
pub enum Opening {
    /// Make the matching dictionary for AppleSMC.
    Match,
    /// Look up the service that matches.
    Find,
    /// Open this service, then release it however the opening went.
    Open { service: u32 },
    Ready(SmcConnection),
    Failed(SmcError),
}

pub ghost enum OpeningView {
    Match,
    Find,
    Open { service: u32 },
    Ready(SmcConnection),
    Failed(crate::error::SmcErrorView),
}

impl View for Opening {
    type V = OpeningView;

    open spec fn view(&self) -> OpeningView {
        match *self {
            Opening::Match => OpeningView::Match,
            Opening::Find => OpeningView::Find,
            Opening::Open { service } => OpeningView::Open { service },
            Opening::Ready(c) => OpeningView::Ready(c),
            Opening::Failed(e) => OpeningView::Failed(e@),
        }
    }
}

/// The order in which the service is opened, and the three ways in which that fails.
pub open spec fn opening(facts: OpeningFacts) -> OpeningView {
    match facts.matching_is_null {
        None => OpeningView::Match,
        Some(true) => OpeningView::Failed(crate::error::SmcErrorView::MatchingNull),
        Some(false) => match facts.service {
            None => OpeningView::Find,
            Some(service) => if service == 0 {
                OpeningView::Failed(crate::error::SmcErrorView::ServiceNotFound)
            } else {
                match facts.opened {
                    None => OpeningView::Open { service },
                    Some((rc, conn)) => if rc != 0 {
                        OpeningView::Failed(crate::error::SmcErrorView::OpenFailed { rc })
                    } else {
                        OpeningView::Ready(SmcConnection { conn })
                    },
                }
            },
        },
    }
}

impl SmcConnection {
    /// What to do next to open the AppleSMC service.
    pub fn open(facts: &OpeningFacts) -> (r: Opening)
        ensures
            r@ == opening(*facts),
    {
        match facts.matching_is_null {
            None => Opening::Match,
            Some(true) => Opening::Failed(SmcError::MatchingNull),
            Some(false) => match facts.service {
                None => Opening::Find,
                Some(service) => if service == 0 {
                    Opening::Failed(SmcError::ServiceNotFound)
                } else {
                    match facts.opened {
                        None => Opening::Open { service },
                        Some((rc, conn)) => if rc != 0 {
                            Opening::Failed(SmcError::OpenFailed { rc })
                        } else {
                            Opening::Ready(SmcConnection { conn })
                        },
                    }
                },
            },
        }
    }

    /// Asks for a key's description. A refusal is the answer that the key is not there.
    pub fn read_key_info(key: u32, replies: &Vec<Reply>) -> (r: Step<Option<KeyInfo>>)
        ensures
            match r {
                Step::Call { after_ms, input } => {
                    replies@.len() == 0 && after_ms == 0 && input@ == info_request(key)
                },
                Step::Done(Ok(info)) => {
                    replies@.len() > 0 && maybe_info(info) == answered_info(replies@[0])
                },
                Step::Done(Err(_)) => false,
            },
    {
        if replies.len() == 0 {
            Step::Call { after_ms: 0, input: key_info_request(key) }
        } else {
            Step::Done(Ok(info_answer(&replies[0])))
        }
    }

    /// Writes a key.
    pub fn write_key(key: u32, data_type: u32, data: &Vec<u8>, replies: &Vec<Reply>) -> (r: Step<
        (),
    >)
        ensures
            r@ == key_writing(key, data_type, data@, replies@),
    {
        if data.len() > 32 {
            return Step::Done(Err(SmcError::PayloadTooLong));
        }
        if replies.len() == 0 {
            return Step::Call { after_ms: 0, input: key_write_request(key, data_type, data) };
        }
        match replies[0].accept() {
            Ok(_) => Step::Done(Ok(())),
            Err(e) => Step::Done(Err(e)),
        }
    }

    /// Reads a key: its description, then its bytes.
    pub fn read_key(key: u32, replies: &Vec<Reply>) -> (r: Step<KeyValue>)
        ensures
            r@ == key_reading(0, key, replies@),
    {
        proof {
            assert(replies@.skip(0) =~= replies@);
        }
        read_key_from(0, key, replies, 0)
    }
}

/// Reads a key, in an exchange whose replies start at `from`.
pub(crate) fn read_key_from(wait: u64, key: u32, replies: &Vec<Reply>, from: usize) -> (r: Step<
    KeyValue,
>)
    requires
        from <= replies@.len(),
    ensures
        r@ == key_reading(wait, key, replies@.skip(from as int)),
{
    let have: usize = replies.len() - from;
    if have == 0 {
        return Step::Call { after_ms: wait, input: key_info_request(key) };
    }
    let info: SmcKeyDataKeyInfo = match replies[from].accept() {
        Ok(out) => out.key_info,
        Err(e) => return Step::Done(Err(e)),
    };
    if have == 1 {
        return Step::Call { after_ms: 0, input: key_bytes_request(key, info) };
    }
    match replies[from + 1].accept() {
        Ok(out) => Step::Done(Ok(KeyValue { info, bytes: out.bytes })),
        Err(e) => Step::Done(Err(e)),
    }
}

/// Writes a key, lets it settle and reads it back, in an exchange whose replies start
/// at `from`.
pub(crate) fn write_and_read_back_from(
    key: u32,
    data_type: u32,
    data: &Vec<u8>,
    replies: &Vec<Reply>,
    from: usize,
) -> (r: Step<KeyValue>)
    requires
        from <= replies@.len(),
    ensures
        r@ == write_and_read_back(key, data_type, data@, replies@.skip(from as int)),
{
    if data.len() > 32 {
        return Step::Done(Err(SmcError::PayloadTooLong));
    }
    if replies.len() == from {
        return Step::Call { after_ms: 0, input: key_write_request(key, data_type, data) };
    }
    match replies[from].accept() {
        Ok(_) => {
            proof {
                assert(replies@.skip(from as int).skip(1) =~= replies@.skip(from + 1));
            }
            read_key_from(SETTLE_MS, key, replies, from + 1)
        },
        Err(e) => Step::Done(Err(e)),
    }
}

} // verus!
