//! The `user_data_unregistered()` SEI message.

use vstd::prelude::*;
use crate::nal::sei::{HeaderType, SeiMessage};

verus! {

#[derive(Debug, Clone, Copy, PartialEq, Eq)]
pub enum UserDataUnregisteredError {
    NotEnoughData { expected: usize, actual: usize },
}

/// Parsed `user_data_unregistered()` SEI message (payloadType == 5).
#[derive(Debug, PartialEq, Eq)]
pub struct UserDataUnregistered<'a> {
    buf: &'a [u8],
}

impl<'a> UserDataUnregistered<'a> {
    /// The whole payload: the UUID, then the user data.
    pub closed spec fn bytes(self) -> Seq<u8> {
        self.buf@
    }

    #[verifier::type_invariant]
    closed spec fn inv(self) -> bool {
        self.buf@.len() >= 16
    }

    /// Parses the message; its payload must hold at least the 16-byte UUID.
    pub fn read(msg: &SeiMessage<'a>) -> (r: Result<UserDataUnregistered<'a>, UserDataUnregisteredError>)
        requires
            msg.payload_type == HeaderType::UserDataUnregistered,
        ensures
            msg.payload@.len() < 16 ==> r == Err::<UserDataUnregistered<'a>, UserDataUnregisteredError>(
                UserDataUnregisteredError::NotEnoughData { expected: 16, actual: msg.payload@.len() as usize },
            ),
            msg.payload@.len() >= 16 ==> (r matches Ok(u) && u.bytes() == msg.payload@),
    {
        if msg.payload.len() < 16 {
            return Err(UserDataUnregisteredError::NotEnoughData { expected: 16, actual: msg.payload.len() });
        }
        Ok(UserDataUnregistered { buf: msg.payload })
    }

    /// UUID per ISO/IEC 11578 identifying the user data type.
    pub fn uuid(&self) -> (uuid: [u8; 16])
        ensures
            uuid@ == self.bytes().take(16),
    {
        proof { use_type_invariant(self); }
        let mut uuid = [0u8; 16];
        let mut k: usize = 0;
        while k < 16
            invariant
                k <= 16,
                self.buf@.len() >= 16,
                forall|j: int| 0 <= j < k ==> uuid@[j] == self.buf@[j],
            decreases 16 - k,
        {
            uuid[k] = self.buf[k];
            k = k + 1;
        }
        assert(uuid@ =~= self.buf@.take(16));
        uuid
    }

    /// The `user_data_payload_byte` values following the UUID.
    pub fn payload(&self) -> (p: &'a [u8])
        ensures
            p@ == self.bytes().skip(16),
    {
        proof { use_type_invariant(self); }
        vstd::slice::slice_subrange(self.buf, 16, self.buf.len())
    }
}

} // verus!
