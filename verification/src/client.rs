//! What a client of an access node decides: which request to send, how long
//! to wait for a result, and what a result means.
//!
//! Nothing here talks to a node. A caller performs each request and hands the
//! answer back.

use vstd::prelude::*;
use vstd::string::*;
use vstd::utf8::is_ascii_chars;
use crate::error::Error;
use crate::hexstr::{decode_hex, hex_bytes, is_hex};

verus! {

/// A request to run a script: against a given block, a given height, or the
/// latest block.
#[derive(Clone, Debug, PartialEq, Eq)]
pub enum ScriptRequest {
    AtBlockId { script: Vec<u8>, arguments: Vec<Vec<u8>>, block_id: Vec<u8> },
    AtBlockHeight { script: Vec<u8>, arguments: Vec<Vec<u8>>, block_height: u64 },
    AtLatestBlock { script: Vec<u8>, arguments: Vec<Vec<u8>> },
}

/// Chooses the request that runs a script: a block id counts before a block
/// height, and without either the script runs against the latest block.
pub fn script_request(
    script: Vec<u8>,
    arguments: Vec<Vec<u8>>,
    block_height: Option<u64>,
    block_id: Option<Vec<u8>>,
) -> (out: ScriptRequest)
    ensures
        out == match (block_id, block_height) {
            (Some(block_id), _) => ScriptRequest::AtBlockId { script, arguments, block_id },
            (None, Some(block_height)) => ScriptRequest::AtBlockHeight {
                script,
                arguments,
                block_height,
            },
            (None, None) => ScriptRequest::AtLatestBlock { script, arguments },
        },
{
    match block_id {
        Some(block_id) => ScriptRequest::AtBlockId { script, arguments, block_id },
        None => match block_height {
            Some(block_height) => ScriptRequest::AtBlockHeight { script, arguments, block_height },
            None => ScriptRequest::AtLatestBlock { script, arguments },
        },
    }
}

/// A request for a block: by its id, by its height, or the latest one.
#[derive(Clone, Debug, PartialEq, Eq)]
pub enum BlockRequest {
    ById { id: Vec<u8> },
    ByHeight { height: u64 },
    Latest { is_sealed: bool },
}

pub enum BlockRequestView {
    ById { id: Seq<u8> },
    ByHeight { height: nat },
    Latest { is_sealed: bool },
}

impl View for BlockRequest {
    type V = BlockRequestView;

    open spec fn view(&self) -> BlockRequestView {
        match self {
            BlockRequest::ById { id } => BlockRequestView::ById { id: id@ },
            BlockRequest::ByHeight { height } => BlockRequestView::ByHeight {
                height: *height as nat,
            },
            BlockRequest::Latest { is_sealed } => BlockRequestView::Latest { is_sealed: *is_sealed },
        }
    }
}

/// The texts that optional strings hold.
pub open spec fn optional_text(text: Option<String>) -> Option<Seq<char>> {
    match text {
        Some(text) => Some(text@),
        None => None,
    }
}

/// What choosing a block request comes to. A block id, in hexadecimal,
/// counts before a height; without either the latest block is asked for,
/// sealed only where that is said.
pub open spec fn block_request_outcome(
    block_id: Option<Seq<char>>,
    block_height: Option<nat>,
    is_sealed: Option<bool>,
) -> Result<BlockRequestView, Error> {
    match block_id {
        Some(text) => if is_hex(text) {
            Ok(BlockRequestView::ById { id: hex_bytes(text) })
        } else {
            Err(Error::DecodeError)
        },
        None => match block_height {
            Some(height) => Ok(BlockRequestView::ByHeight { height }),
            None => match is_sealed {
                Some(is_sealed) => Ok(BlockRequestView::Latest { is_sealed }),
                None => Ok(BlockRequestView::Latest { is_sealed: false }),
            },
        },
    }
}

/// The view of a result that holds a block request.
pub open spec fn block_request_view(out: Result<BlockRequest, Error>) -> Result<
    BlockRequestView,
    Error,
> {
    match out {
        Ok(request) => Ok(request@),
        Err(e) => Err(e),
    }
}

/// Chooses the request that fetches a block.
pub fn block_request(
    block_id: Option<String>,
    block_height: Option<u64>,
    is_sealed: Option<bool>,
) -> (out: Result<BlockRequest, Error>)
    ensures
        block_request_view(out) == block_request_outcome(
            optional_text(block_id),
            match block_height {
                Some(height) => Some(height as nat),
                None => None,
            },
            is_sealed,
        ),
{
    match block_id {
        Some(text) => {
            let id = decode_hex(text.as_str())?;
            Ok(BlockRequest::ById { id })
        },
        None => match block_height {
            Some(height) => Ok(BlockRequest::ByHeight { height }),
            None => match is_sealed {
                Some(is_sealed) => Ok(BlockRequest::Latest { is_sealed }),
                None => Ok(BlockRequest::Latest { is_sealed: false }),
            },
        },
    }
}

/// The number of times a transaction result is asked for before giving up.
pub const MAX_POLLS: u32 = 50;

/// The delay before the first poll, in milliseconds.
pub const FIRST_DELAY_MS: u64 = 50;

/// By how much the delay grows from one poll to the next, in milliseconds.
pub const DELAY_STEP_MS: u64 = 200;

/// The delay before the next poll, after `polls` polls that found the
/// transaction pending; `None` once it is time to give up.
pub fn poll_delay(polls: u32) -> (out: Option<u64>)
    ensures
        polls < MAX_POLLS ==> out == Some((FIRST_DELAY_MS + DELAY_STEP_MS * polls) as u64),
        polls >= MAX_POLLS ==> out is None,
{
    if polls < MAX_POLLS {
        Some(FIRST_DELAY_MS + DELAY_STEP_MS * (polls as u64))
    } else {
        None
    }
}

/// What the result of a transaction means to a caller that waits for it.
#[derive(Clone, Copy, Debug, PartialEq, Eq, Structural)]
pub enum Verdict {
    /// Not sealed yet: ask again.
    Pending,
    /// Sealed, and executed without an error.
    Sealed,
    /// Sealed, but the transaction failed when it was executed.
    ExecutionFailed,
    /// Expired or in a state that is not known: it will not be sealed.
    RuntimeError,
}

/// The status with which a transaction is sealed.
pub const STATUS_SEALED: i32 = 4;

/// The verdict on a transaction result.
pub open spec fn verdict(status: i32, status_code: u32) -> Verdict {
    if 0 <= status < STATUS_SEALED {
        Verdict::Pending
    } else if status == STATUS_SEALED {
        if status_code == 1 {
            Verdict::ExecutionFailed
        } else {
            Verdict::Sealed
        }
    } else {
        Verdict::RuntimeError
    }
}

/// Classifies a transaction result by its status and its status code.
pub fn classify(status: i32, status_code: u32) -> (out: Verdict)
    ensures
        out == verdict(status, status_code),
{
    if 0 <= status && status < STATUS_SEALED {
        Verdict::Pending
    } else if status == STATUS_SEALED {
        if status_code == 1 {
            Verdict::ExecutionFailed
        } else {
            Verdict::Sealed
        }
    } else {
        Verdict::RuntimeError
    }
}

/// The type of the event that tells of a new account.
pub const ACCOUNT_CREATED: &'static str = "flow.AccountCreated";

/// Where, in the payload of that event, the address of the new account
/// stands.
pub const ADDRESS_POINTER: &'static str = "/value/fields/0/value/value";

/// Whether `index` is the place of the last event of the wanted type.
pub open spec fn is_last_of_type(types: Seq<Seq<char>>, wanted: Seq<char>, index: int) -> bool {
    &&& 0 <= index < types.len()
    &&& types[index] == wanted
    &&& forall|k: int| index < k < types.len() ==> #[trigger] types[k] != wanted
}

/// The texts of `strings`, in order.
pub open spec fn event_types(strings: Seq<String>) -> Seq<Seq<char>> {
    Seq::new(strings.len(), |i: int| strings[i]@)
}

/// Finds the last event that tells of a new account, among the types of the
/// events of a transaction result.
pub fn account_created_event(types: &Vec<String>) -> (out: Option<usize>)
    ensures
        match out {
            Some(index) => is_last_of_type(event_types(types@), ACCOUNT_CREATED@, index as int),
            None => forall|k: int|
                0 <= k < types.len() ==> (#[trigger] event_types(types@)[k]) != ACCOUNT_CREATED@,
        },
{
    let wanted = String::from_str(ACCOUNT_CREATED);
    let mut i: usize = types.len();
    while i > 0
        invariant
            i <= types.len(),
            wanted@ == ACCOUNT_CREATED@,
            forall|k: int|
                i <= k < types.len() ==> (#[trigger] event_types(types@)[k]) != ACCOUNT_CREATED@,
        decreases i,
    {
        i = i - 1;
        if types[i] == wanted {
            assert(event_types(types@)[i as int] == ACCOUNT_CREATED@);
            return Some(i);
        }
        assert(event_types(types@)[i as int] != ACCOUNT_CREATED@);
    }
    None
}

/// The value that the JSON pointer `pointer` finds in the JSON document
/// `document`, written as JSON text again; `None` where the document is no
/// JSON or holds nothing there.
pub uninterp spec fn json_member(document: Seq<u8>, pointer: Seq<char>) -> Option<Seq<char>>;

/// Reads `document` with `serde_json::from_slice`, looks `pointer` up in it
/// with `Value::pointer`, and writes what was found with `to_string`. The
/// result depends on the two arguments alone, and the contract gives it a
/// name.
#[verifier::external_body]
fn json_lookup(document: &[u8], pointer: &str) -> (out: Option<String>)
    ensures
        optional_text(out) == json_member(document@, pointer@),
{
    let value: serde_json::Value = serde_json::from_slice(document).ok()?;
    value.pointer(pointer).map(|found| found.to_string())
}

/// The address in a JSON string such as `"0x01cf0e2f2f715450"`, quotes
/// included: the sixteen characters behind the first three.
pub open spec fn address_in(rendered: Seq<char>) -> Option<Seq<char>> {
    if is_ascii_chars(rendered) && rendered.len() >= 19 {
        Some(rendered.subrange(3, 19))
    } else {
        None
    }
}

/// Takes the address out of the JSON string that holds it.
pub fn address_in_text(rendered: &str) -> (out: Option<String>)
    ensures
        optional_text(out) == address_in(rendered@),
{
    if rendered.is_ascii() && rendered.unicode_len() >= 19 {
        Some(String::from_str(rendered.substring_ascii(3, 19)))
    } else {
        None
    }
}

/// Takes the address of the new account out of the payload of the event that
/// tells of it.
pub fn created_account_address(payload: &[u8]) -> (out: Option<String>)
    ensures
        optional_text(out) == match json_member(payload@, ADDRESS_POINTER@) {
            Some(rendered) => address_in(rendered),
            None => None,
        },
{
    match json_lookup(payload, ADDRESS_POINTER) {
        Some(rendered) => address_in_text(rendered.as_str()),
        None => None,
    }
}

} // verus!
