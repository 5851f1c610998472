use super::status_code::Ctap2StatusCode;
use crate::bytes::copy_range;
use vstd::prelude::*;

verus! {

/// The longest large blob array that the store accepts.
pub const MAX_LARGE_BLOB_ARRAY_SIZE: usize = 2048;

/// What the authenticator keeps between commands: the committed large blob
/// array and, once a PIN is enrolled, the hash of that PIN.
pub struct PersistentStore {
    large_blob_array: Vec<u8>,
    pin_hash: Option<[u8; 16]>,
}

/// The mathematical content of a [`PersistentStore`].
pub struct StoreState {
    pub large_blob_array: Seq<u8>,
    pub pin_hash: Option<Seq<u8>>,
}

/// The array that a new store holds: an empty CBOR array (`0x80`) followed
/// by the first 16 bytes of its SHA-256 digest.
pub open spec fn empty_large_blob_array() -> Seq<u8> {
    seq![
        0x80u8, 0x76, 0xbe, 0x8b, 0x52, 0x8d, 0x00, 0x75, 0xf7, 0xaa, 0xe9, 0x8d, 0x6f, 0xa5, 0x7a,
        0x6d, 0x3c,
    ]
}

impl StoreState {
    /// The store as it is before anything was committed or enrolled.
    pub open spec fn initial() -> StoreState {
        StoreState { large_blob_array: empty_large_blob_array(), pin_hash: None }
    }

    /// The bytes of the committed array from `offset` on, `byte_count` of
    /// them at most: fewer where the array ends earlier, none where
    /// `offset` lies at or beyond its end.
    pub open spec fn read(self, byte_count: nat, offset: nat) -> Seq<u8> {
        let length = self.large_blob_array.len();
        if offset >= length {
            Seq::empty()
        } else if byte_count >= length - offset {
            self.large_blob_array.subrange(offset as int, length as int)
        } else {
            self.large_blob_array.subrange(offset as int, (offset + byte_count) as int)
        }
    }

    /// Whether the store takes `large_blob_array` as its new array.
    pub open spec fn accepts(large_blob_array: Seq<u8>) -> bool {
        large_blob_array.len() <= MAX_LARGE_BLOB_ARRAY_SIZE
    }

    /// The store after `large_blob_array` was committed.
    pub open spec fn with_array(self, large_blob_array: Seq<u8>) -> StoreState {
        StoreState { large_blob_array, pin_hash: self.pin_hash }
    }
}

impl View for PersistentStore {
    type V = StoreState;

    closed spec fn view(&self) -> StoreState {
        StoreState {
            large_blob_array: self.large_blob_array@,
            pin_hash: match self.pin_hash {
                Some(pin_hash) => Some(pin_hash@),
                None => None,
            },
        }
    }
}

impl PersistentStore {
    /// A store in which nothing was committed and no PIN is enrolled.
    pub fn new() -> (store: PersistentStore)
        ensures
            store@ == StoreState::initial(),
    {
        let large_blob_array: Vec<u8> = vec![
            0x80, 0x76, 0xbe, 0x8b, 0x52, 0x8d, 0x00, 0x75, 0xf7, 0xaa, 0xe9, 0x8d, 0x6f, 0xa5,
            0x7a, 0x6d, 0x3c,
        ];
        assert(large_blob_array@ =~= empty_large_blob_array());
        PersistentStore { large_blob_array, pin_hash: None }
    }

    /// Reads up to `byte_count` bytes of the committed array, from `offset`
    /// on.
    pub fn get_large_blob_array(&self, byte_count: usize, offset: usize) -> (fragment: Vec<u8>)
        ensures
            fragment@ == self@.read(byte_count as nat, offset as nat),
    {
        let length = self.large_blob_array.len();
        if offset >= length {
            return Vec::new();
        }
        let end = if byte_count >= length - offset {
            length
        } else {
            offset + byte_count
        };
        copy_range(self.large_blob_array.as_slice(), offset, end)
    }

    /// Replaces the committed array by `large_blob_array`, all of it or
    /// nothing: an array that is too long is refused and the store stays as
    /// it was.
    pub fn commit_large_blob_array(&mut self, large_blob_array: &[u8]) -> (result: Result<
        (),
        Ctap2StatusCode,
    >)
        ensures
            StoreState::accepts(large_blob_array@) ==> result == Ok::<(), Ctap2StatusCode>(())
                && final(self)@ == old(self)@.with_array(large_blob_array@),
            !StoreState::accepts(large_blob_array@) ==> result == Err::<(), Ctap2StatusCode>(
                Ctap2StatusCode::CTAP2_ERR_LARGE_BLOB_STORAGE_FULL,
            ) && final(self)@ == old(self)@,
    {
        if large_blob_array.len() > MAX_LARGE_BLOB_ARRAY_SIZE {
            return Err(Ctap2StatusCode::CTAP2_ERR_LARGE_BLOB_STORAGE_FULL);
        }
        let committed = copy_range(large_blob_array, 0, large_blob_array.len());
        assert(committed@ == large_blob_array@);
        self.large_blob_array = committed;
        Ok(())
    }

    /// The hash of the enrolled PIN, if one is enrolled.
    pub fn pin_hash(&self) -> (pin_hash: Option<[u8; 16]>)
        ensures
            pin_hash is Some <==> self@.pin_hash is Some,
            pin_hash matches Some(hash) ==> self@.pin_hash == Some(hash@),
    {
        self.pin_hash
    }

    /// Enrolls a PIN by its hash.
    pub fn set_pin(&mut self, pin_hash: &[u8; 16])
        ensures
            final(self)@ == (StoreState {
                large_blob_array: old(self)@.large_blob_array,
                pin_hash: Some(pin_hash@),
            }),
    {
        self.pin_hash = Some(*pin_hash);
    }
}

} // verus!
