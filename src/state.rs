use crate::address::Address;
use crate::bytes::{le_bytes, le_u64, lemma_le_round_trip, push_le_u64, read_le_u64};
use crate::error::EchoError;
use crate::processor::{access_decision, AccessRequest, Processor};
use vstd::prelude::*;

verus! {

/// Bytes at the start of an authorized buffer that hold its header.
pub const AUTH_BUFFER_HEADER_SIZE: usize = 9;

/// A fixed-capacity byte region.
#[derive(Clone, Debug)]
pub struct EchoBuffer {
    pub data: Vec<u8>,
}

/// The metadata at the start of an authorized buffer: the uniqueness token
/// and the salt that its address was derived with.
#[derive(Clone, Copy, Debug, PartialEq, Eq, Structural)]
pub struct AuthorizedBufferHeader {
    pub bump_seed: u8,
    pub buffer_seed: u64,
}

/// The nine header bytes: the token, then the salt in little-endian order.
pub open spec fn header_bytes(token: u8, salt: u64) -> Seq<u8> {
    seq![token] + le_bytes(salt)
}

/// The token and salt held by the first nine bytes of `s`, if there are nine.
pub open spec fn header_of(s: Seq<u8>) -> Option<(u8, u64)> {
    if s.len() < 9 {
        None
    } else {
        Some((s[0], le_u64(s.subrange(1, 9))))
    }
}

/// Decoding an encoded header gives back its token and salt.
pub proof fn lemma_header_round_trip(token: u8, salt: u64)
    ensures
        header_bytes(token, salt).len() == AUTH_BUFFER_HEADER_SIZE,
        header_of(header_bytes(token, salt)) == Some((token, salt)),
{
    lemma_le_round_trip(salt, Seq::empty());
    assert(header_bytes(token, salt).subrange(1, 9) =~= le_bytes(salt));
}

/// The buffer after a plain echo: the payload's bytes over the front, as many
/// as fit, and the rest of the buffer as it was.
pub open spec fn echoed(buffer: Seq<u8>, payload: Seq<u8>) -> Seq<u8> {
    if payload.len() >= buffer.len() {
        payload.subrange(0, buffer.len() as int)
    } else {
        payload + buffer.subrange(payload.len() as int, buffer.len() as int)
    }
}

/// The buffer after an authorized echo: the header, the payload, then the
/// rest of the buffer as it was.
pub open spec fn echoed_after_header(buffer: Seq<u8>, payload: Seq<u8>) -> Seq<u8> {
    buffer.subrange(0, 9) + payload + buffer.subrange(9 + payload.len() as int, buffer.len() as int)
}

/// What an authorized echo does: the access policy first, then the header's room,
/// then the payload's.
pub open spec fn authorized_echo_outcome(
    buffer: Seq<u8>,
    authority: Address,
    recorded_owner: Address,
    payload: Seq<u8>,
) -> Result<Seq<u8>, EchoError> {
    let decision = access_decision(AccessRequest::AuthorizedEcho { authority, recorded_owner });
    if decision is Err {
        Err(decision->Err_0)
    } else if buffer.len() < 9 {
        Err(EchoError::HeaderTruncated)
    } else if payload.len() > buffer.len() - 9 {
        Err(EchoError::PayloadTooLarge)
    } else {
        Ok(echoed_after_header(buffer, payload))
    }
}

/// A plain echo whose payload is exactly as long as the buffer leaves the
/// buffer holding the payload.
pub proof fn lemma_echo_full_payload(buffer: Seq<u8>, payload: Seq<u8>)
    requires
        payload.len() == buffer.len(),
    ensures
        echoed(buffer, payload) == payload,
{
    assert(payload.subrange(0, buffer.len() as int) =~= payload);
}

/// For the recorded owner of a buffer that holds a header, a payload longer
/// than the room after the header is refused as too large, and one that
/// fills that room exactly is written whole with the header untouched.
pub proof fn lemma_authorized_echo_capacity(buffer: Seq<u8>, owner: Address, payload: Seq<u8>)
    requires
        buffer.len() >= 9,
    ensures
        payload.len() > buffer.len() - 9 ==> authorized_echo_outcome(buffer, owner, owner, payload)
            == Err::<Seq<u8>, EchoError>(EchoError::PayloadTooLarge),
        payload.len() == buffer.len() - 9 ==> ({
            let out = authorized_echo_outcome(buffer, owner, owner, payload);
            &&& out is Ok
            &&& out->Ok_0 == buffer.subrange(0, 9) + payload
            &&& out->Ok_0.subrange(0, 9) == buffer.subrange(0, 9)
        }),
{
    if payload.len() == buffer.len() - 9 {
        let out = echoed_after_header(buffer, payload);
        assert(buffer.subrange(9 + payload.len() as int, buffer.len() as int) =~= Seq::<u8>::empty());
        assert(out =~= buffer.subrange(0, 9) + payload);
        assert(out.subrange(0, 9) =~= buffer.subrange(0, 9));
    }
}

impl AuthorizedBufferHeader {
    /// The nine bytes of this header.
    pub fn encode(&self) -> (r: Vec<u8>)
        ensures
            r@ == header_bytes(self.bump_seed, self.buffer_seed),
    {
        let mut r: Vec<u8> = Vec::new();
        r.push(self.bump_seed);
        push_le_u64(&mut r, self.buffer_seed);
        assert(r@ =~= header_bytes(self.bump_seed, self.buffer_seed));
        r
    }

    /// Reads the header at the start of `bytes`.
    pub fn decode(bytes: &[u8]) -> (r: Result<AuthorizedBufferHeader, EchoError>)
        ensures
            match header_of(bytes@) {
                Some((t, s)) => r == Ok::<AuthorizedBufferHeader, EchoError>(
                    AuthorizedBufferHeader { bump_seed: t, buffer_seed: s },
                ),
                None => r == Err::<AuthorizedBufferHeader, EchoError>(EchoError::HeaderTruncated),
            },
    {
        if bytes.len() < AUTH_BUFFER_HEADER_SIZE {
            return Err(EchoError::HeaderTruncated);
        }
        Ok(AuthorizedBufferHeader { bump_seed: bytes[0], buffer_seed: read_le_u64(bytes, 1) })
    }
}

impl EchoBuffer {
    /// A buffer of `capacity` zero bytes.
    pub fn with_capacity(capacity: usize) -> (r: EchoBuffer)
        ensures
            r.data@ == Seq::new(capacity as nat, |i: int| 0u8),
    {
        let mut data: Vec<u8> = Vec::new();
        let mut i: usize = 0;
        while i < capacity
            invariant
                i <= capacity,
                data@ == Seq::new(i as nat, |k: int| 0u8),
            decreases capacity - i,
        {
            data.push(0);
            i = i + 1;
            assert(data@ =~= Seq::new(i as nat, |k: int| 0u8));
        }
        EchoBuffer { data }
    }

    /// Copies `payload` over the buffer from its first byte on, stopping at
    /// whichever ends first; bytes past a short payload keep their value.
    /// Nothing is checked of the writer.
    pub fn echo(&mut self, payload: &[u8]) -> (r: Result<(), EchoError>)
        ensures
            old(self).data@.len() == 0 ==> r == Err::<(), EchoError>(EchoError::EmptyBuffer)
                && final(self).data@ == old(self).data@,
            old(self).data@.len() > 0 ==> r is Ok && final(self).data@ == echoed(
                old(self).data@,
                payload@,
            ),
    {
        let n = self.data.len();
        if n == 0 {
            return Err(EchoError::EmptyBuffer);
        }
        let count = if payload.len() < n {
            payload.len()
        } else {
            n
        };
        let mut i: usize = 0;
        while i < count
            invariant
                i <= count,
                count <= n,
                count <= payload@.len(),
                count == payload@.len() || count == n,
                self.data@.len() == n,
                n == old(self).data@.len(),
                forall|k: int| 0 <= k < i ==> self.data@[k] == payload@[k],
                forall|k: int| i <= k < n ==> self.data@[k] == old(self).data@[k],
            decreases count - i,
        {
            self.data.set(i, payload[i]);
            i = i + 1;
        }
        assert(self.data@ =~= echoed(old(self).data@, payload@));
        Ok(())
    }

    /// Writes `header` over the first nine bytes, leaving the rest as it was.
    pub fn write_header(&mut self, header: &AuthorizedBufferHeader) -> (r: Result<(), EchoError>)
        ensures
            old(self).data@.len() < 9 ==> r == Err::<(), EchoError>(EchoError::HeaderTruncated)
                && final(self).data@ == old(self).data@,
            old(self).data@.len() >= 9 ==> r is Ok && final(self).data@ == header_bytes(
                header.bump_seed,
                header.buffer_seed,
            ) + old(self).data@.subrange(9, old(self).data@.len() as int),
    {
        if self.data.len() < AUTH_BUFFER_HEADER_SIZE {
            return Err(EchoError::HeaderTruncated);
        }
        let bytes = header.encode();
        let mut i: usize = 0;
        while i < AUTH_BUFFER_HEADER_SIZE
            invariant
                i <= 9,
                bytes@ == header_bytes(header.bump_seed, header.buffer_seed),
                bytes@.len() == 9,
                self.data@.len() == old(self).data@.len(),
                old(self).data@.len() >= 9,
                forall|k: int| 0 <= k < i ==> self.data@[k] == bytes@[k],
                forall|k: int| i <= k < self.data@.len() ==> self.data@[k] == old(self).data@[k],
            decreases 9 - i,
        {
            self.data.set(i, bytes[i]);
            i = i + 1;
        }
        assert(self.data@ =~= header_bytes(header.bump_seed, header.buffer_seed) + old(
            self,
        ).data@.subrange(9, old(self).data@.len() as int));
        Ok(())
    }

    /// The header at the start of this buffer.
    pub fn header(&self) -> (r: Result<AuthorizedBufferHeader, EchoError>)
        ensures
            match header_of(self.data@) {
                Some((t, s)) => r == Ok::<AuthorizedBufferHeader, EchoError>(
                    AuthorizedBufferHeader { bump_seed: t, buffer_seed: s },
                ),
                None => r == Err::<AuthorizedBufferHeader, EchoError>(EchoError::HeaderTruncated),
            },
    {
        AuthorizedBufferHeader::decode(self.data.as_slice())
    }

    /// Copies `payload` into the buffer just after the header, provided that
    /// `authority` is the buffer's recorded owner and the payload fits whole.
    /// The header bytes are never written.
    pub fn authorized_echo(&mut self, authority: &Address, recorded_owner: &Address, payload: &[u8]) -> (r:
        Result<(), EchoError>)
        ensures
            match authorized_echo_outcome(old(self).data@, *authority, *recorded_owner, payload@) {
                Ok(after) => r is Ok && final(self).data@ == after,
                Err(e) => r == Err::<(), EchoError>(e) && final(self).data@ == old(self).data@,
            },
    {
        let decision = Processor::authorize(
            &AccessRequest::AuthorizedEcho { authority: *authority, recorded_owner: *recorded_owner },
        );
        if let Err(e) = decision {
            return Err(e);
        }
        let n = self.data.len();
        if n < AUTH_BUFFER_HEADER_SIZE {
            return Err(EchoError::HeaderTruncated);
        }
        if payload.len() > n - AUTH_BUFFER_HEADER_SIZE {
            return Err(EchoError::PayloadTooLarge);
        }
        let mut i: usize = 0;
        while i < payload.len()
            invariant
                i <= payload@.len(),
                9 + payload@.len() <= n,
                self.data@.len() == n,
                n == old(self).data@.len(),
                forall|k: int| 0 <= k < 9 + i ==> #[trigger] self.data@[k] == if k < 9 {
                    old(self).data@[k]
                } else {
                    payload@[k - 9]
                },
                forall|k: int| 9 + i <= k < n ==> self.data@[k] == old(self).data@[k],
            decreases payload@.len() - i,
        {
            self.data.set(AUTH_BUFFER_HEADER_SIZE + i, payload[i]);
            i = i + 1;
        }
        assert(self.data@ =~= echoed_after_header(old(self).data@, payload@));
        Ok(())
    }
}

} // verus!
