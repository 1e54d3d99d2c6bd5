use crate::bytes::{
    le_bytes, le_bytes32, le_u32, le_u64, lemma_le32_round_trip, lemma_le_round_trip, push_le_u32,
    push_le_u64, read_le_u32, read_le_u64,
};
use crate::error::EchoError;
use vstd::prelude::*;

verus! {

/// An operation request.
#[derive(Clone, Debug)]
pub enum EchoInstruction {
    /// Mirror `data` into an unauthenticated buffer.
    Echo { data: Vec<u8> },
    /// Create an authorized buffer of `buffer_size` bytes with salt `buffer_seed`.
    InitializeAuthorizedEcho { buffer_seed: u64, buffer_size: usize },
    /// Write `data` after the header of an authorized buffer.
    AuthorizedEcho { data: Vec<u8> },
    /// Create a buffer gated on holding an asset class, sold at `price`.
    InitializeVendingMachine { price: u64, buffer_size: usize },
}

/// A request as plain values.
pub enum InstructionView {
    Echo(Seq<u8>),
    InitializeAuthorizedEcho(u64, usize),
    AuthorizedEcho(Seq<u8>),
    InitializeVendingMachine(u64, usize),
}

impl View for EchoInstruction {
    type V = InstructionView;

    open spec fn view(&self) -> InstructionView {
        match self {
            EchoInstruction::Echo { data } => InstructionView::Echo(data@),
            EchoInstruction::InitializeAuthorizedEcho { buffer_seed, buffer_size } =>
                InstructionView::InitializeAuthorizedEcho(*buffer_seed, *buffer_size),
            EchoInstruction::AuthorizedEcho { data } => InstructionView::AuthorizedEcho(data@),
            EchoInstruction::InitializeVendingMachine { price, buffer_size } =>
                InstructionView::InitializeVendingMachine(*price, *buffer_size),
        }
    }
}

/// Whether every payload of the request has a length that fits its
/// four-byte prefix.
pub open spec fn request_encodable(v: InstructionView) -> bool {
    match v {
        InstructionView::Echo(d) => d.len() <= u32::MAX,
        InstructionView::AuthorizedEcho(d) => d.len() <= u32::MAX,
        _ => true,
    }
}

/// The wire form of a request: a tag byte, then for a payload its length as
/// four little-endian bytes and its bytes, and for a pair of numbers each as
/// eight little-endian bytes.
pub open spec fn request_bytes(v: InstructionView) -> Seq<u8> {
    match v {
        InstructionView::Echo(d) => seq![0u8] + le_bytes32(d.len() as u32) + d,
        InstructionView::InitializeAuthorizedEcho(salt, size) => seq![1u8] + le_bytes(salt)
            + le_bytes(size as u64),
        InstructionView::AuthorizedEcho(d) => seq![2u8] + le_bytes32(d.len() as u32) + d,
        InstructionView::InitializeVendingMachine(price, size) => seq![3u8] + le_bytes(price)
            + le_bytes(size as u64),
    }
}

/// The request that `s` encodes whole, if any.
pub open spec fn parse_request(s: Seq<u8>) -> Option<InstructionView> {
    if s.len() == 0 {
        None
    } else if s[0] == 0 || s[0] == 2 {
        if s.len() < 5 || s.len() != 5 + le_u32(s.subrange(1, 5)) {
            None
        } else if s[0] == 0 {
            Some(InstructionView::Echo(s.subrange(5, s.len() as int)))
        } else {
            Some(InstructionView::AuthorizedEcho(s.subrange(5, s.len() as int)))
        }
    } else if s[0] == 1 || s[0] == 3 {
        if s.len() != 17 || le_u64(s.subrange(9, 17)) > usize::MAX {
            None
        } else if s[0] == 1 {
            Some(
                InstructionView::InitializeAuthorizedEcho(
                    le_u64(s.subrange(1, 9)),
                    le_u64(s.subrange(9, 17)) as usize,
                ),
            )
        } else {
            Some(
                InstructionView::InitializeVendingMachine(
                    le_u64(s.subrange(1, 9)),
                    le_u64(s.subrange(9, 17)) as usize,
                ),
            )
        }
    } else {
        None
    }
}

/// Every request whose payloads fit their length prefix decodes from its
/// wire form to itself.
pub proof fn lemma_request_round_trip(v: InstructionView)
    requires
        request_encodable(v),
    ensures
        parse_request(request_bytes(v)) == Some(v),
{
    let s = request_bytes(v);
    match v {
        InstructionView::Echo(d) => {
            lemma_le32_round_trip(d.len() as u32);
            assert(s.subrange(1, 5) =~= le_bytes32(d.len() as u32));
            assert(s.subrange(5, s.len() as int) =~= d);
        },
        InstructionView::AuthorizedEcho(d) => {
            lemma_le32_round_trip(d.len() as u32);
            assert(s.subrange(1, 5) =~= le_bytes32(d.len() as u32));
            assert(s.subrange(5, s.len() as int) =~= d);
        },
        InstructionView::InitializeAuthorizedEcho(salt, size) => {
            lemma_le_round_trip(salt, Seq::empty());
            lemma_le_round_trip(size as u64, Seq::empty());
            assert(s.subrange(1, 9) =~= le_bytes(salt));
            assert(s.subrange(9, 17) =~= le_bytes(size as u64));
        },
        InstructionView::InitializeVendingMachine(price, size) => {
            lemma_le_round_trip(price, Seq::empty());
            lemma_le_round_trip(size as u64, Seq::empty());
            assert(s.subrange(1, 9) =~= le_bytes(price));
            assert(s.subrange(9, 17) =~= le_bytes(size as u64));
        },
    }
}

/// Copies `s[from..]` into a new vector.
fn tail_of(s: &[u8], from: usize) -> (r: Vec<u8>)
    requires
        from <= s@.len(),
    ensures
        r@ == s@.subrange(from as int, s@.len() as int),
{
    let mut r: Vec<u8> = Vec::new();
    let mut i: usize = from;
    while i < s.len()
        invariant
            from <= i <= s@.len(),
            r@ == s@.subrange(from as int, i as int),
        decreases s@.len() - i,
    {
        r.push(s[i]);
        i = i + 1;
        assert(r@ =~= s@.subrange(from as int, i as int));
    }
    r
}

/// Appends the bytes of `d` to `out`.
fn push_all(out: &mut Vec<u8>, d: &Vec<u8>)
    ensures
        final(out)@ == old(out)@ + d@,
{
    let mut i: usize = 0;
    while i < d.len()
        invariant
            i <= d@.len(),
            out@ == old(out)@ + d@.subrange(0, i as int),
        decreases d@.len() - i,
    {
        out.push(d[i]);
        i = i + 1;
        assert(out@ =~= old(out)@ + d@.subrange(0, i as int));
    }
    assert(d@.subrange(0, d@.len() as int) =~= d@);
}

impl EchoInstruction {
    /// Decodes a request; all of `data` must be used.
    pub fn unpack(data: &[u8]) -> (r: Result<EchoInstruction, EchoError>)
        ensures
            match parse_request(data@) {
                Some(v) => r is Ok && r->Ok_0@ == v,
                None => r == Err::<EchoInstruction, EchoError>(EchoError::InvalidRequestEncoding),
            },
    {
        if data.len() == 0 {
            return Err(EchoError::InvalidRequestEncoding);
        }
        let tag = data[0];
        if tag == 0 || tag == 2 {
            if data.len() < 5 {
                return Err(EchoError::InvalidRequestEncoding);
            }
            let n = read_le_u32(data, 1);
            if data.len() - 5 != n as usize {
                return Err(EchoError::InvalidRequestEncoding);
            }
            let payload = tail_of(data, 5);
            if tag == 0 {
                Ok(EchoInstruction::Echo { data: payload })
            } else {
                Ok(EchoInstruction::AuthorizedEcho { data: payload })
            }
        } else if tag == 1 || tag == 3 {
            if data.len() != 17 {
                return Err(EchoError::InvalidRequestEncoding);
            }
            let first = read_le_u64(data, 1);
            let size = read_le_u64(data, 9);
            if size > usize::MAX as u64 {
                return Err(EchoError::InvalidRequestEncoding);
            }
            if tag == 1 {
                Ok(EchoInstruction::InitializeAuthorizedEcho { buffer_seed: first, buffer_size: size as usize })
            } else {
                Ok(EchoInstruction::InitializeVendingMachine { price: first, buffer_size: size as usize })
            }
        } else {
            Err(EchoError::InvalidRequestEncoding)
        }
    }

    /// Encodes this request in its wire form.
    pub fn pack(&self) -> (r: Vec<u8>)
        requires
            request_encodable(self@),
        ensures
            r@ == request_bytes(self@),
    {
        let mut r: Vec<u8> = Vec::new();
        match self {
            EchoInstruction::Echo { data } => {
                r.push(0);
                push_le_u32(&mut r, data.len() as u32);
                push_all(&mut r, data);
            },
            EchoInstruction::InitializeAuthorizedEcho { buffer_seed, buffer_size } => {
                r.push(1);
                push_le_u64(&mut r, *buffer_seed);
                push_le_u64(&mut r, *buffer_size as u64);
            },
            EchoInstruction::AuthorizedEcho { data } => {
                r.push(2);
                push_le_u32(&mut r, data.len() as u32);
                push_all(&mut r, data);
            },
            EchoInstruction::InitializeVendingMachine { price, buffer_size } => {
                r.push(3);
                push_le_u64(&mut r, *price);
                push_le_u64(&mut r, *buffer_size as u64);
            },
        }
        assert(r@ =~= request_bytes(self@));
        r
    }
}

} // verus!
