//! Whole transfers: what a sequence of commands does, and what holds of a
//! write in fragments that is followed by reads.
use super::command::LargeBlobsRequest;
use super::large_blobs::{
    authorization, finalize, has_valid_checksum, is_write, process, received, rejection,
    SessionState, Transition, MAX_FRAGMENT_LENGTH,
};
use super::pin_protocol_v1::PinState;
use super::status_code::Ctap2StatusCode;
use super::storage::StoreState;
use vstd::prelude::*;

verus! {

/// What the commands `requests` do when they are processed one after the
/// other: the session and the store that the last one leaves, and its
/// answer.
pub open spec fn process_all(
    session: SessionState,
    store: StoreState,
    pin: PinState,
    requests: Seq<LargeBlobsRequest>,
) -> Transition
    decreases requests.len(),
{
    if requests.len() == 0 {
        Transition { session, store, response: Ok(None) }
    } else {
        process(
            process_all(session, store, pin, requests.drop_last()).session,
            process_all(session, store, pin, requests.drop_last()).store,
            pin,
            requests.last(),
        )
    }
}

/// Where the fragment of `request` ends.
pub open spec fn end_of(request: LargeBlobsRequest) -> nat
    recommends
        request.set is Some,
{
    request.offset + request.set.unwrap().len()
}

/// Whether `request` writes a piece of `large_blob_array` to its place: the
/// fragment is no longer than a message carries and holds the bytes of the
/// array from the offset on, and at offset 0 the length of the array is
/// declared.
pub open spec fn writes_piece_of(request: LargeBlobsRequest, large_blob_array: Seq<u8>) -> bool {
    &&& is_write(request)
    &&& request.set.unwrap().len() <= MAX_FRAGMENT_LENGTH
    &&& end_of(request) <= large_blob_array.len()
    &&& request.set.unwrap() == large_blob_array.subrange(
        request.offset as int,
        end_of(request) as int,
    )
    &&& request.offset == 0 ==> request.length == Some(large_blob_array.len())
}

/// Whether `requests` write `large_blob_array` in fragments: there is at
/// least one, the first starts at 0, each starts where the one before ended,
/// and the array is complete with the last of them and not earlier.
pub open spec fn is_fragmented_write(
    requests: Seq<LargeBlobsRequest>,
    large_blob_array: Seq<u8>,
) -> bool {
    &&& requests.len() > 0
    &&& requests[0].offset == 0
    &&& forall|i: int|
        0 <= i < requests.len() ==> writes_piece_of(#[trigger] requests[i], large_blob_array)
    &&& forall|i: int|
        0 <= i < requests.len() - 1 ==> end_of(#[trigger] requests[i]) == requests[i + 1].offset
            && end_of(requests[i]) < large_blob_array.len()
    &&& end_of(requests.last()) == large_blob_array.len()
}

/// The command that reads `byte_count` bytes at `offset`.
pub open spec fn read_request(byte_count: nat, offset: nat) -> LargeBlobsRequest {
    LargeBlobsRequest {
        get: Some(byte_count),
        set: None,
        offset,
        length: None,
        pin_uv_auth_param: None,
        pin_uv_auth_protocol: None,
    }
}

/// The bytes that a read of `byte_count` bytes at `offset` answers with;
/// none if it fails.
pub open spec fn fragment_read(
    session: SessionState,
    store: StoreState,
    pin: PinState,
    byte_count: nat,
    offset: nat,
) -> Seq<u8> {
    match process(session, store, pin, read_request(byte_count, offset)).response {
        Ok(Some(fragment)) => fragment,
        _ => Seq::empty(),
    }
}

/// How many bytes of the committed array lie at or after `offset`.
pub open spec fn unread(store: StoreState, offset: nat) -> nat {
    if offset >= store.large_blob_array.len() {
        0
    } else {
        (store.large_blob_array.len() - offset) as nat
    }
}

/// The bytes that reads of `byte_count` bytes each answer with, the first at
/// `offset`, each of the others where the one before ended, up to the end of
/// the committed array.
pub open spec fn read_in_fragments(
    session: SessionState,
    store: StoreState,
    pin: PinState,
    byte_count: nat,
    offset: nat,
) -> Seq<u8>
    decreases unread(store, offset),
{
    if byte_count == 0 || offset >= store.large_blob_array.len() {
        Seq::empty()
    } else {
        fragment_read(session, store, pin, byte_count, offset) + read_in_fragments(
            session,
            store,
            pin,
            byte_count,
            offset + byte_count,
        )
    }
}

/// Between commands the session is well formed: a command that finds it so
/// leaves it so.
pub proof fn lemma_process_keeps_wf(
    session: SessionState,
    store: StoreState,
    pin: PinState,
    request: LargeBlobsRequest,
)
    requires
        session.wf(),
    ensures
        process(session, store, pin, request).session.wf(),
{
}

/// A sequence of commands that finds the session well formed leaves it so.
pub proof fn lemma_process_all_keeps_wf(
    session: SessionState,
    store: StoreState,
    pin: PinState,
    requests: Seq<LargeBlobsRequest>,
)
    requires
        session.wf(),
    ensures
        process_all(session, store, pin, requests).session.wf(),
    decreases requests.len(),
{
    if requests.len() > 0 {
        lemma_process_all_keeps_wf(session, store, pin, requests.drop_last());
        lemma_process_keeps_wf(
            process_all(session, store, pin, requests.drop_last()).session,
            process_all(session, store, pin, requests.drop_last()).store,
            pin,
            requests.last(),
        );
    }
}

/// Every committed array has a valid checksum: where the array in the store
/// has one, it still has one after any sequence of commands, and no command
/// enrolls or removes a PIN.
pub proof fn lemma_store_keeps_valid_checksum(
    session: SessionState,
    store: StoreState,
    pin: PinState,
    requests: Seq<LargeBlobsRequest>,
)
    requires
        has_valid_checksum(store.large_blob_array),
    ensures
        has_valid_checksum(process_all(session, store, pin, requests).store.large_blob_array),
        process_all(session, store, pin, requests).store.pin_hash == store.pin_hash,
    decreases requests.len(),
{
    if requests.len() > 0 {
        lemma_store_keeps_valid_checksum(session, store, pin, requests.drop_last());
    }
}

/// A read changes nothing, so that a second read of the same bytes answers
/// as the first did.
pub proof fn lemma_reads_repeat(
    session: SessionState,
    store: StoreState,
    pin: PinState,
    request: LargeBlobsRequest,
)
    requires
        request.get is Some,
    ensures
        process(session, store, pin, request).session == session,
        process(session, store, pin, request).store == store,
        process(
            process(session, store, pin, request).session,
            process(session, store, pin, request).store,
            pin,
            request,
        ) == process(session, store, pin, request),
{
}

/// One fragment of a write: where the session holds the bytes of the array
/// up to the offset of `request` (at offset 0, whatever it holds), the
/// fragment is taken;
/// the session then holds the bytes up to its end or, with the last
/// fragment, the write ends.
proof fn lemma_write_piece(
    session: SessionState,
    store: StoreState,
    pin: PinState,
    request: LargeBlobsRequest,
    large_blob_array: Seq<u8>,
)
    requires
        writes_piece_of(request, large_blob_array),
        authorization(store, pin, request) is Ok,
        request.offset != 0 ==> session == SessionState::receiving(
            large_blob_array.subrange(0, request.offset as int),
            large_blob_array.len(),
        ),
    ensures
        end_of(request) < large_blob_array.len() ==> process(session, store, pin, request) == (
        Transition {
            session: SessionState::receiving(
                large_blob_array.subrange(0, end_of(request) as int),
                large_blob_array.len(),
            ),
            store,
            response: Ok(None),
        }),
        end_of(request) == large_blob_array.len() ==> process(session, store, pin, request)
            == finalize(store, large_blob_array),
{
    assert(received(session, request) == large_blob_array.subrange(0, end_of(request) as int));
    assert(rejection(session, store, pin, request) is None);
    if end_of(request) == large_blob_array.len() {
        assert(large_blob_array.subrange(0, end_of(request) as int) == large_blob_array);
    }
}

/// While an array is written in fragments, nothing is committed: after any
/// number of fragments but all, the store is as it was, each fragment was
/// answered with success, and the session holds the bytes written so far.
proof fn lemma_write_under_way(
    session: SessionState,
    store: StoreState,
    pin: PinState,
    requests: Seq<LargeBlobsRequest>,
    large_blob_array: Seq<u8>,
    count: int,
)
    requires
        is_fragmented_write(requests, large_blob_array),
        forall|i: int|
            0 <= i < requests.len() ==> authorization(store, pin, #[trigger] requests[i]) is Ok,
        0 < count < requests.len(),
    ensures
        process_all(session, store, pin, requests.take(count)) == (Transition {
            session: SessionState::receiving(
                large_blob_array.subrange(0, requests[count].offset as int),
                large_blob_array.len(),
            ),
            store,
            response: Ok(None),
        }),
    decreases count,
{
    let request = requests[count - 1];
    let before = process_all(session, store, pin, requests.take(count - 1));
    assert(requests.take(count).drop_last() == requests.take(count - 1));
    assert(requests.take(count).last() == request);
    assert(process_all(session, store, pin, requests.take(count)) == process(
        before.session,
        before.store,
        pin,
        request,
    ));
    assert(writes_piece_of(request, large_blob_array));
    assert(authorization(store, pin, request) is Ok);
    assert(end_of(request) == requests[count].offset);
    if count == 1 {
        assert(request.offset == 0);
        assert(before.store == store);
    } else {
        lemma_write_under_way(session, store, pin, requests, large_blob_array, count - 1);
    }
    lemma_write_piece(before.session, store, pin, request, large_blob_array);
}

/// Writing in fragments commits the array: where `requests` write an array
/// with a valid checksum that the store has room for, and each of them is
/// authorized, every fragment is answered with success, the store then holds
/// the array, and no write is under way any more.
pub proof fn lemma_fragmented_write_commits(
    session: SessionState,
    store: StoreState,
    pin: PinState,
    requests: Seq<LargeBlobsRequest>,
    large_blob_array: Seq<u8>,
)
    requires
        has_valid_checksum(large_blob_array),
        StoreState::accepts(large_blob_array),
        is_fragmented_write(requests, large_blob_array),
        forall|i: int|
            0 <= i < requests.len() ==> authorization(store, pin, #[trigger] requests[i]) is Ok,
    ensures
        forall|count: int|
            0 < count <= requests.len() ==> (#[trigger] process_all(
                session,
                store,
                pin,
                requests.take(count),
            )).response == Ok::<Option<Seq<u8>>, Ctap2StatusCode>(None),
        process_all(session, store, pin, requests).store == store.with_array(large_blob_array),
        process_all(session, store, pin, requests).session == SessionState::idle(),
{
    let last = requests.len() - 1;
    let request = requests[last];
    let before = process_all(session, store, pin, requests.drop_last());
    assert(requests.drop_last() == requests.take(last));
    assert(requests.take(requests.len() as int) == requests);
    assert(writes_piece_of(request, large_blob_array));
    assert(authorization(store, pin, request) is Ok);
    if last == 0 {
        assert(request.offset == 0);
        assert(before.store == store);
    } else {
        lemma_write_under_way(session, store, pin, requests, large_blob_array, last);
    }
    lemma_write_piece(before.session, store, pin, request, large_blob_array);
    assert forall|count: int| 0 < count <= requests.len() implies (#[trigger] process_all(
        session,
        store,
        pin,
        requests.take(count),
    )).response == Ok::<Option<Seq<u8>>, Ctap2StatusCode>(None) by {
        if count < requests.len() {
            lemma_write_under_way(session, store, pin, requests, large_blob_array, count);
        }
    }
}

/// Reading in fragments gives the rest of the array: reads of `byte_count`
/// bytes each, from `offset` on, answer with the bytes of the committed
/// array from `offset` to its end.
pub proof fn lemma_read_in_fragments(
    session: SessionState,
    store: StoreState,
    pin: PinState,
    byte_count: nat,
    offset: nat,
)
    requires
        0 < byte_count <= MAX_FRAGMENT_LENGTH,
        offset <= store.large_blob_array.len(),
    ensures
        read_in_fragments(session, store, pin, byte_count, offset)
            == store.large_blob_array.subrange(
            offset as int,
            store.large_blob_array.len() as int,
        ),
    decreases unread(store, offset),
{
    let length = store.large_blob_array.len();
    if offset < length {
        if byte_count < length - offset {
            lemma_read_in_fragments(session, store, pin, byte_count, offset + byte_count);
            assert(store.large_blob_array.subrange(offset as int, (offset + byte_count) as int)
                + store.large_blob_array.subrange((offset + byte_count) as int, length as int)
                == store.large_blob_array.subrange(offset as int, length as int));
        } else {
            assert(read_in_fragments(session, store, pin, byte_count, offset + byte_count)
                == Seq::<u8>::empty());
        }
    }
}

/// An array that was written in fragments is read back as it was written:
/// where `requests` write an array with a valid checksum that the store has
/// room for, and each of them is authorized, reads of `byte_count` bytes
/// each, from the start of the array on, answer with the bytes of the array
/// and no others.
pub proof fn lemma_round_trip(
    session: SessionState,
    store: StoreState,
    pin: PinState,
    requests: Seq<LargeBlobsRequest>,
    large_blob_array: Seq<u8>,
    byte_count: nat,
)
    requires
        has_valid_checksum(large_blob_array),
        StoreState::accepts(large_blob_array),
        is_fragmented_write(requests, large_blob_array),
        forall|i: int|
            0 <= i < requests.len() ==> authorization(store, pin, #[trigger] requests[i]) is Ok,
        0 < byte_count <= MAX_FRAGMENT_LENGTH,
    ensures
        read_in_fragments(
            process_all(session, store, pin, requests).session,
            process_all(session, store, pin, requests).store,
            pin,
            byte_count,
            0,
        ) == large_blob_array,
{
    lemma_fragmented_write_commits(session, store, pin, requests, large_blob_array);
    lemma_read_in_fragments(
        SessionState::idle(),
        store.with_array(large_blob_array),
        pin,
        byte_count,
        0,
    );
    assert(large_blob_array.subrange(0, large_blob_array.len() as int) == large_blob_array);
}

} // verus!
