use solana_program::pubkey::Pubkey;
use xbooth::{
    AccessRequest, Address, AuthorizedBufferHeader, EchoBuffer, EchoError, EchoInstruction,
    Processor, AUTH_BUFFER_HEADER_SIZE,
};

fn key(pk: &Pubkey) -> Address {
    Address::new(pk.to_bytes())
}

fn fresh() -> Address {
    key(&Pubkey::new_unique())
}

#[test]
fn header_encodes_token_then_salt_little_endian() {
    let h = AuthorizedBufferHeader { bump_seed: 254, buffer_seed: 0x0102_0304_0506_0708 };
    assert_eq!(h.encode(), vec![254, 8, 7, 6, 5, 4, 3, 2, 1]);
    assert_eq!(AUTH_BUFFER_HEADER_SIZE, 9);
}

#[test]
fn header_round_trip() {
    for (t, s) in [(0u8, 0u64), (255, u64::MAX), (7, 10), (128, 1 << 40)] {
        let h = AuthorizedBufferHeader { bump_seed: t, buffer_seed: s };
        assert_eq!(AuthorizedBufferHeader::decode(&h.encode()), Ok(h));
    }
}

#[test]
fn header_decode_reads_only_first_nine_bytes() {
    let bytes = [3u8, 1, 0, 0, 0, 0, 0, 0, 0, 99, 99];
    let h = AuthorizedBufferHeader::decode(&bytes).unwrap();
    assert_eq!(h, AuthorizedBufferHeader { bump_seed: 3, buffer_seed: 1 });
}

#[test]
fn header_decode_truncated() {
    assert_eq!(AuthorizedBufferHeader::decode(&[1, 2, 3, 4, 5, 6, 7, 8]), Err(EchoError::HeaderTruncated));
    assert_eq!(AuthorizedBufferHeader::decode(&[]), Err(EchoError::HeaderTruncated));
}

#[test]
fn echo_into_empty_buffer_fails() {
    let mut b = EchoBuffer { data: vec![] };
    assert_eq!(b.echo(&[1, 2, 3]), Err(EchoError::EmptyBuffer));
    assert_eq!(b.echo(&[]), Err(EchoError::EmptyBuffer));
    assert!(b.data.is_empty());
}

#[test]
fn echo_full_payload_replaces_contents() {
    let mut b = EchoBuffer::with_capacity(5);
    assert_eq!(b.echo(&[9, 8, 7, 6, 5]), Ok(()));
    assert_eq!(b.data, vec![9, 8, 7, 6, 5]);
}

#[test]
fn echo_short_payload_keeps_tail() {
    let mut b = EchoBuffer { data: vec![1, 1, 1, 1] };
    assert_eq!(b.echo(&[7, 7]), Ok(()));
    assert_eq!(b.data, vec![7, 7, 1, 1]);
}

#[test]
fn echo_long_payload_fills_capacity() {
    let mut b = EchoBuffer::with_capacity(3);
    assert_eq!(b.echo(&[4, 5, 6, 7, 8]), Ok(()));
    assert_eq!(b.data, vec![4, 5, 6]);
}

#[test]
fn authorized_echo_foreign_authority_denied() {
    let a = fresh();
    let b = fresh();
    let mut buf = EchoBuffer { data: vec![1; 20] };
    assert_eq!(buf.authorized_echo(&b, &a, &[5]), Err(EchoError::OwnerMismatch));
    assert_eq!(buf.data, vec![1; 20]);
}

#[test]
fn authorized_echo_capacity_boundary() {
    let a = fresh();
    let mut buf = EchoBuffer { data: vec![1, 2, 3, 4, 5, 6, 7, 8, 9, 0, 0, 0] };
    assert_eq!(buf.authorized_echo(&a, &a, &[5, 5, 5, 5]), Err(EchoError::PayloadTooLarge));
    assert_eq!(buf.data, vec![1, 2, 3, 4, 5, 6, 7, 8, 9, 0, 0, 0]);
    assert_eq!(buf.authorized_echo(&a, &a, &[5, 6, 7]), Ok(()));
    assert_eq!(buf.data, vec![1, 2, 3, 4, 5, 6, 7, 8, 9, 5, 6, 7]);
}

#[test]
fn authorized_echo_short_payload_keeps_tail() {
    let a = fresh();
    let mut buf = EchoBuffer { data: vec![0; 12] };
    assert_eq!(buf.authorized_echo(&a, &a, &[4]), Ok(()));
    assert_eq!(buf.data, vec![0, 0, 0, 0, 0, 0, 0, 0, 0, 4, 0, 0]);
}

#[test]
fn authorized_echo_without_header_room() {
    let a = fresh();
    let mut buf = EchoBuffer { data: vec![0; 8] };
    assert_eq!(buf.authorized_echo(&a, &a, &[]), Err(EchoError::HeaderTruncated));
}

#[test]
fn write_header_needs_nine_bytes() {
    let h = AuthorizedBufferHeader { bump_seed: 1, buffer_seed: 2 };
    let mut small = EchoBuffer::with_capacity(8);
    assert_eq!(small.write_header(&h), Err(EchoError::HeaderTruncated));
    assert_eq!(small.data, vec![0; 8]);
    let mut big = EchoBuffer { data: vec![7; 11] };
    assert_eq!(big.write_header(&h), Ok(()));
    assert_eq!(big.data, vec![1, 2, 0, 0, 0, 0, 0, 0, 0, 7, 7]);
    assert_eq!(big.header(), Ok(h));
}

#[test]
fn access_policy_table() {
    let a = fresh();
    let b = fresh();
    assert_eq!(Processor::authorize(&AccessRequest::Echo { capacity: 0 }), Err(EchoError::EmptyBuffer));
    assert_eq!(Processor::authorize(&AccessRequest::Echo { capacity: 1 }), Ok(()));
    assert_eq!(
        Processor::authorize(&AccessRequest::AuthorizedEcho { authority: b, recorded_owner: a }),
        Err(EchoError::OwnerMismatch)
    );
    assert_eq!(
        Processor::authorize(&AccessRequest::AuthorizedEcho { authority: a, recorded_owner: a }),
        Ok(())
    );
    assert_eq!(
        Processor::authorize(&AccessRequest::InitializeAuthorizedEcho {
            authority: a,
            recorded_owner: b,
            target: a,
            derived: a,
        }),
        Err(EchoError::OwnerMismatch)
    );
    assert_eq!(
        Processor::authorize(&AccessRequest::InitializeAuthorizedEcho {
            authority: a,
            recorded_owner: a,
            target: a,
            derived: b,
        }),
        Err(EchoError::AddressMismatch)
    );
    assert_eq!(
        Processor::authorize(&AccessRequest::InitializeAuthorizedEcho {
            authority: a,
            recorded_owner: a,
            target: b,
            derived: b,
        }),
        Ok(())
    );
    assert_eq!(
        Processor::authorize(&AccessRequest::InitializeVendingMachine { target: a, derived: b }),
        Err(EchoError::AddressMismatch)
    );
    assert_eq!(
        Processor::authorize(&AccessRequest::InitializeVendingMachine { target: b, derived: b }),
        Ok(())
    );
}

#[test]
fn derivation_is_deterministic() {
    let program = fresh();
    let owner = fresh();
    let first = xbooth::derive_address(b"authority", &owner, 10, &program);
    let second = xbooth::derive_address(b"authority", &owner, 10, &program);
    assert_eq!(first, second);
    assert!(first.is_ok());
}

#[test]
fn derivation_agrees_with_ledger_search() {
    let program_pk = Pubkey::new_unique();
    let owner_pk = Pubkey::new_unique();
    for salt in [0u64, 1, 10, 101000] {
        let (addr, token) =
            xbooth::derive_address(b"vending", &key(&owner_pk), salt, &key(&program_pk)).unwrap();
        let (expected, bump) = Pubkey::find_program_address(
            &[b"vending", owner_pk.as_ref(), &salt.to_le_bytes()],
            &program_pk,
        );
        assert_eq!(addr, key(&expected));
        assert_eq!(token, bump);
        assert_ne!(addr, key(&owner_pk));
    }
}

#[test]
fn derivation_depends_on_salt_and_owner() {
    let program = fresh();
    let owner = fresh();
    let other = fresh();
    let (a, _) = xbooth::derive_address(b"authority", &owner, 1, &program).unwrap();
    let (b, _) = xbooth::derive_address(b"authority", &owner, 2, &program).unwrap();
    let (c, _) = xbooth::derive_address(b"authority", &other, 1, &program).unwrap();
    assert_ne!(a, b);
    assert_ne!(a, c);
}

#[test]
fn derivation_with_overlong_namespace_is_exhausted() {
    let program = fresh();
    let owner = fresh();
    let tag = [b'x'; 33];
    assert_eq!(
        xbooth::derive_address(&tag, &owner, 5, &program),
        Err(EchoError::DerivationExhausted)
    );
}

#[test]
fn initialize_then_foreign_authorized_echo() {
    let program = fresh();
    let owner_x = fresh();
    let owner_y = fresh();
    let (target, token) = xbooth::derive_address(b"authority", &owner_x, 10, &program).unwrap();
    let header =
        Processor::initialize_authorized_echo(&program, &target, &owner_x, &owner_x, 10, 100).unwrap();
    assert_eq!(header, AuthorizedBufferHeader { bump_seed: token, buffer_seed: 10 });
    let mut buffer = EchoBuffer::with_capacity(100);
    assert_eq!(buffer.write_header(&header), Ok(()));
    assert_eq!(buffer.data.len(), 100);
    let decoded = AuthorizedBufferHeader::decode(&buffer.data[0..9]).unwrap();
    assert_eq!((decoded.bump_seed, decoded.buffer_seed), (token, 10));
    assert_eq!(
        buffer.authorized_echo(&owner_y, &owner_x, &[1, 2, 3]),
        Err(EchoError::OwnerMismatch)
    );
    assert_eq!(buffer.authorized_echo(&owner_x, &owner_x, &[1, 2, 3]), Ok(()));
    assert_eq!(&buffer.data[0..12], &[token, 10, 0, 0, 0, 0, 0, 0, 0, 1, 2, 3]);
}

#[test]
fn initialize_authorized_echo_refusals() {
    let program = fresh();
    let owner = fresh();
    let other = fresh();
    let (target, _) = xbooth::derive_address(b"authority", &owner, 3, &program).unwrap();
    assert_eq!(
        Processor::initialize_authorized_echo(&program, &target, &other, &owner, 3, 100),
        Err(EchoError::OwnerMismatch)
    );
    assert_eq!(
        Processor::initialize_authorized_echo(&program, &target, &owner, &owner, 4, 100),
        Err(EchoError::AddressMismatch)
    );
    assert_eq!(
        Processor::initialize_authorized_echo(&program, &target, &owner, &owner, 3, 8),
        Err(EchoError::HeaderTruncated)
    );
    assert!(Processor::initialize_authorized_echo(&program, &target, &owner, &owner, 3, 9).is_ok());
}

#[test]
fn test_vending_machine_buffer() {
    let program_id = Pubkey::new_unique();
    let mint = Pubkey::new_unique();
    let price: u64 = 101000;
    let (expected, bump) =
        Pubkey::find_program_address(&[b"vending", mint.as_ref(), &price.to_le_bytes()], &program_id);
    let data_input: Vec<u8> = vec![3; 1];
    let price_data = price.to_le_bytes().to_vec();
    let buffer_size = 100_u64.to_le_bytes().to_vec();
    let input_data: Vec<u8> = [&data_input[..], &price_data[..], &buffer_size[..]].concat();
    let request = EchoInstruction::unpack(&input_data).unwrap();
    match request {
        EchoInstruction::InitializeVendingMachine { price: p, buffer_size: s } => {
            assert_eq!(p, 101000);
            assert_eq!(s, 100);
            let token =
                Processor::initialize_vending_machine(&key(&program_id), &key(&expected), &key(&mint), p);
            assert_eq!(token, Ok(bump));
        }
        _ => panic!("wrong request"),
    }
}

#[test]
fn vending_machine_address_ignores_submitter() {
    let program = fresh();
    let mint = fresh();
    let (target, token) = xbooth::derive_address(b"vending", &mint, 101000, &program).unwrap();
    let first = Processor::initialize_vending_machine(&program, &target, &mint, 101000);
    let second = Processor::initialize_vending_machine(&program, &target, &mint, 101000);
    assert_eq!(first, Ok(token));
    assert_eq!(second, Ok(token));
    let submitter = fresh();
    assert_eq!(
        Processor::initialize_vending_machine(&program, &submitter, &mint, 101000),
        Err(EchoError::AddressMismatch)
    );
    assert_eq!(
        Processor::initialize_vending_machine(&program, &target, &mint, 101001),
        Err(EchoError::AddressMismatch)
    );
}

#[test]
fn request_encoding_matches_borsh() {
    let echo = EchoInstruction::Echo { data: vec![3; 10] };
    assert_eq!(echo.pack(), borsh::to_vec(&(0u8, vec![3u8; 10])).unwrap());
    let auth = EchoInstruction::AuthorizedEcho { data: vec![1, 2] };
    assert_eq!(auth.pack(), borsh::to_vec(&(2u8, vec![1u8, 2])).unwrap());
    let init = EchoInstruction::InitializeAuthorizedEcho { buffer_seed: 10, buffer_size: 100 };
    assert_eq!(init.pack(), borsh::to_vec(&(1u8, 10u64, 100u64)).unwrap());
    let vend = EchoInstruction::InitializeVendingMachine { price: 101000, buffer_size: 100 };
    assert_eq!(vend.pack(), borsh::to_vec(&(3u8, 101000u64, 100u64)).unwrap());
}

#[test]
fn request_round_trip() {
    let all = vec![
        EchoInstruction::Echo { data: vec![] },
        EchoInstruction::Echo { data: vec![0, 1, 1, 1, 2] },
        EchoInstruction::InitializeAuthorizedEcho { buffer_seed: u64::MAX, buffer_size: 8 },
        EchoInstruction::AuthorizedEcho { data: vec![9; 300] },
        EchoInstruction::InitializeVendingMachine { price: 0, buffer_size: 0 },
    ];
    for r in all {
        let bytes = r.pack();
        let back = EchoInstruction::unpack(&bytes).unwrap();
        assert_eq!(back.pack(), bytes);
    }
}

#[test]
fn request_decoding_refusals() {
    let bad: Vec<Vec<u8>> = vec![
        vec![],
        vec![4],
        vec![0, 1, 0, 0],
        vec![0, 2, 0, 0, 0, 1],
        vec![0, 1, 0, 0, 0, 1, 2],
        vec![1, 0, 0, 0, 0, 0, 0, 0, 0, 0, 0, 0, 0, 0, 0, 0],
        vec![3, 0, 0, 0, 0, 0, 0, 0, 0, 0, 0, 0, 0, 0, 0, 0, 0, 0],
    ];
    for b in bad {
        assert!(matches!(EchoInstruction::unpack(&b), Err(EchoError::InvalidRequestEncoding)));
    }
    match EchoInstruction::unpack(&[2, 1, 0, 0, 0, 42]) {
        Ok(EchoInstruction::AuthorizedEcho { data }) => assert_eq!(data, vec![42]),
        _ => panic!("expected an authorized echo"),
    }
}
