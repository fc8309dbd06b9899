//! What a store gives back of a saved snapshot, where its codec decodes what it encoded.
use crate::backend_error::BackendError;
use crate::codec::{CodecIdentity, DecodeValue, EncodeValue};
use crate::dynamodb_laws;
use crate::dynamodb_store;
use crate::error::BoxError;
use crate::snapshot::{Snap, WorkflowSnapshot};
use crate::snapshot_format;
use crate::snapshot_format::CodecId;
use crate::sqlite_backend;
use crate::sqlite_backend::SqlVal;
use crate::time::Timestamp;
use vstd::prelude::*;

verus! {

/// The second snapshot is the first, but for the trace parent, which codecs leave out.
pub open spec fn same_but_trace(s: Snap, t: Snap) -> bool {
    (Snap { trace_parent: s.trace_parent, ..t }) == s
}

/// Whatever the codec encodes, it decodes to the same snapshot.
pub open spec fn decodes_back<C: EncodeValue<WorkflowSnapshot> + DecodeValue<WorkflowSnapshot>>(
    codec: C,
) -> bool {
    forall|
        s: WorkflowSnapshot,
        payload: Vec<u8>,
        bytes: &[u8],
        d: Result<WorkflowSnapshot, BoxError>,
    |
        #![trigger call_ensures(C::encode_value, (&codec, &s), Ok(payload)),
            call_ensures(C::decode_value, (&codec, bytes), d)]
        call_ensures(C::encode_value, (&codec, &s), Ok(payload)) && bytes@ == payload@
            && call_ensures(C::decode_value, (&codec, bytes), d) ==> d is Ok && same_but_trace(
            s@,
            d->Ok_0@,
        )
}

/// The codec always names itself alike.
pub open spec fn named_alike<C: CodecIdentity>(codec: C) -> bool {
    forall|a: CodecId, b: CodecId|
        #![trigger call_ensures(C::codec_id, (&codec,), a), call_ensures(C::codec_id, (&codec,), b)]
        call_ensures(C::codec_id, (&codec,), a) && call_ensures(C::codec_id, (&codec,), b) ==> a
            == b
}

/// A framed blob is decoded to the snapshot that was encoded, and the statement that
/// saves the snapshot stores the blob and the trace parent: the row that a load reads.
pub proof fn law_saved_row_is_loaded<
    C: EncodeValue<WorkflowSnapshot> + DecodeValue<WorkflowSnapshot> + CodecIdentity,
>(codec: C, s: WorkflowSnapshot, data: Vec<u8>, d: Result<WorkflowSnapshot, BackendError>)
    requires
        decodes_back(codec),
        named_alike(codec),
        sqlite_backend::encoded_frame(codec, s, Ok(data)),
        sqlite_backend::decoded_frame(codec, data@, d),
    ensures
        d is Ok,
        same_but_trace(s@, d->Ok_0@),
        sqlite_backend::upsert_args(s@, data@)[5] == SqlVal::Blob(data@),
        sqlite_backend::upsert_args(s@, data@)[9] == sqlite_backend::text_or_null(s@.trace_parent),
{
    let (payload, id) = choose|payload: Vec<u8>, id: CodecId|
        #![trigger call_ensures(C::encode_value, (&codec, &s), Ok(payload)),
            call_ensures(C::codec_id, (&codec,), id)]
        call_ensures(C::encode_value, (&codec, &s), Ok(payload)) && call_ensures(
            C::codec_id,
            (&codec,),
            id,
        ) && data@ == snapshot_format::framed(id, payload@);
    snapshot_format::law_frame_round_trip(id, payload@);
}

/// An item that stores a snapshot is loaded as that snapshot, under the version that it
/// was written with.
pub proof fn law_saved_item_is_loaded<
    C: EncodeValue<WorkflowSnapshot> + DecodeValue<WorkflowSnapshot>,
>(
    codec: C,
    s: WorkflowSnapshot,
    data: Vec<u8>,
    version: nat,
    now: Timestamp,
    d: Result<WorkflowSnapshot, BackendError>,
)
    requires
        decodes_back(codec),
        version <= u64::MAX,
        dynamodb_store::encoded(codec, s, Ok(data)),
        dynamodb_store::decoded(codec, data@, d),
    ensures
        dynamodb_laws::holds(
            dynamodb_store::snapshot_map(s@, data@, version, now),
            data@,
            version,
        ),
        d is Ok,
        same_but_trace(s@, d->Ok_0@),
{
    dynamodb_laws::law_stored_snapshot_is_read_back(s@.instance_id, s@, data@, version, now);
}

} // verus!
