//! The party's store of its share of the committee's key.

use vstd::prelude::*;
use crate::bytes::copy_bytes;
use crate::tofnd::KeygenOutput;

verus! {

/// A key generation's output by its bytes: the public key, the group's
/// recovery information and the party's own.
pub open spec fn output_view(o: KeygenOutput) -> (Seq<u8>, Seq<u8>, Seq<u8>) {
    (o.pub_key@, o.group_recover_info@, o.private_recover_info@)
}

/// The party's key, once generated.
#[derive(Clone)]
pub struct TssStore {
    key_data: Option<KeygenOutput>,
}

impl View for TssStore {
    type V = Option<(Seq<u8>, Seq<u8>, Seq<u8>)>;

    closed spec fn view(&self) -> Option<(Seq<u8>, Seq<u8>, Seq<u8>)> {
        match self.key_data {
            Some(o) => Some(output_view(o)),
            None => None,
        }
    }
}

impl TssStore {
    /// A store without a key.
    pub fn new() -> (r: Self)
        ensures
            r@ is None,
    {
        TssStore { key_data: None }
    }

    /// Stores the key, replacing any earlier one.
    pub fn set_key(&mut self, key_data: KeygenOutput)
        ensures
            final(self)@ == Some(output_view(key_data)),
    {
        self.key_data = Some(key_data);
    }

    /// A copy of the stored key, if any.
    pub fn get_key(&self) -> (r: Option<KeygenOutput>)
        ensures
            match r {
                Some(o) => self@ == Some(output_view(o)),
                None => self@ is None,
            },
    {
        match &self.key_data {
            Some(o) => Some(
                KeygenOutput {
                    pub_key: copy_bytes(o.pub_key.as_slice()),
                    group_recover_info: copy_bytes(o.group_recover_info.as_slice()),
                    private_recover_info: copy_bytes(o.private_recover_info.as_slice()),
                },
            ),
            None => None,
        }
    }
}

impl Default for TssStore {
    fn default() -> (r: Self)
        ensures
            r@ is None,
    {
        TssStore::new()
    }
}

} // verus!
