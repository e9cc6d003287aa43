use crash_metrics::cipher::decipher;
use crash_metrics::errors::CodecError;
use crash_metrics::keystream::{generate_keystream, CRASH_METRICS_SIZE};
use crash_metrics::record::{decode, parse};
use crash_metrics::symbols::resolve;
use crash_metrics::wire::make_padded_region;

/// Rebuilds the keystream with the generator's published recurrence, in
/// 32-bit signed arithmetic with explicit wraparound, and checks the library
/// reproduces it bit for bit.
#[test]
fn keystream_matches_reference_recurrence() {
    let n = 4096;
    let mut seed: i32 = 0;
    let mut expected: Vec<u8> = Vec::new();
    for _ in 0..n {
        seed = seed.wrapping_mul(0x343FD).wrapping_add(0x269EC3) & 0x7FFF_FFFF;
        expected.push(((seed >> 0x10) & 0x7FFF) as u8);
    }
    assert_eq!(generate_keystream(n), expected);
}

#[test]
fn keystream_is_deterministic() {
    assert_eq!(generate_keystream(1000), generate_keystream(1000));
    assert_eq!(generate_keystream(0), Vec::<u8>::new());
}

#[test]
fn keystream_shorter_is_prefix_of_longer() {
    let long = generate_keystream(513);
    let short = generate_keystream(512);
    assert_eq!(&long[..512], &short[..]);
}

/// Applies the original encoder's addition by hand and checks `decipher`
/// undoes it exactly.
#[test]
fn decipher_inverts_the_encoder() {
    let plaintext: Vec<u8> = (0..CRASH_METRICS_SIZE)
        .map(|i| (i * 31 + 7) as u8)
        .collect();
    let ks = generate_keystream(CRASH_METRICS_SIZE);
    let ciphertext: Vec<u8> = (0..CRASH_METRICS_SIZE)
        .map(|i| ks[i].wrapping_sub(plaintext[i]))
        .collect();
    assert_eq!(decipher(&ciphertext).unwrap(), plaintext);
}

#[test]
fn decipher_of_zeros_is_the_keystream() {
    let zeros = vec![0u8; CRASH_METRICS_SIZE];
    assert_eq!(
        decipher(&zeros).unwrap(),
        generate_keystream(CRASH_METRICS_SIZE)
    );
}

#[test]
fn decipher_rejects_wrong_lengths() {
    assert_eq!(
        decipher(&Vec::new()),
        Err(CodecError::UnexpectedLength)
    );
    assert_eq!(
        decipher(&vec![0u8; 0x9387]),
        Err(CodecError::UnexpectedLength)
    );
    assert_eq!(
        decipher(&vec![0u8; 0x9389]),
        Err(CodecError::UnexpectedLength)
    );
    assert!(decipher(&vec![0u8; 0x9388]).is_ok());
}

/// Builds a fully synthetic plaintext record with every field at its fixed
/// offset.
fn synthetic_plaintext() -> Vec<u8> {
    let mut p: Vec<u8> = Vec::new();
    p.extend_from_slice(b"MC2G");
    p.extend_from_slice(&1u32.to_le_bytes());
    p.extend_from_slice(&12345u64.to_le_bytes());
    for (value, size) in [
        (&b"Level1"[..], 0x100),
        (b"Client", 0x20),
        (b"1.2.3", 0x20),
        (b"System Info:\nCPU things", 0x200),
        (b"Graphics Settings:\nlow", 0x400),
        (b"", 0x4000),
        (b"vr on", 0x80),
        (b"headset", 0x200),
        (b"Windows", 0x80),
        (b"game.exe;140000000;5000;GUID1;1", 0x4000),
        (b"140001000", 0x800),
        (b"1,0,0,0,1,0,0,0,1,10.5,20.25,30", 0x100),
    ] {
        p.extend_from_slice(&make_padded_region(&value.to_vec(), size));
    }
    p.extend_from_slice(&0xC0000005u32.to_le_bytes());
    p.extend_from_slice(&4u32.to_le_bytes());
    p.extend_from_slice(&0x140001500u64.to_le_bytes());
    p.extend_from_slice(&2u64.to_le_bytes());
    p.extend_from_slice(&11u64.to_le_bytes());
    p.extend_from_slice(&22u64.to_le_bytes());
    p.extend_from_slice(&33u64.to_le_bytes());
    p.extend_from_slice(&[9u8; 8]);
    assert_eq!(p.len(), CRASH_METRICS_SIZE);
    p
}

#[test]
fn parse_reads_every_field() {
    let p = synthetic_plaintext();
    let rec = parse(&p).unwrap();
    assert_eq!(rec.version, 1);
    assert_eq!(rec.uptimems, 12345);
    assert_eq!(rec.scene, b"Level1");
    assert_eq!(rec.net_role, b"Client");
    assert_eq!(rec.online_server_version, b"1.2.3");
    assert_eq!(rec.system_info, b"System Info:\nCPU things");
    assert_eq!(rec.settings_info, b"Graphics Settings:\nlow");
    assert_eq!(rec.gpu_crash_report, b"");
    assert_eq!(rec.vr_data, b"vr on");
    assert_eq!(rec.vr_hdm_description, b"headset");
    assert_eq!(rec.operating_system, b"Windows");
    assert_eq!(rec.modules, b"game.exe;140000000;5000;GUID1;1");
    assert_eq!(rec.callstack, b"140001000");
    assert_eq!(rec.camera, b"1,0,0,0,1,0,0,0,1,10.5,20.25,30");
    assert_eq!(rec.exception.exception_code, 0xC0000005);
    assert_eq!(rec.exception.exception_flags, 4);
    assert_eq!(rec.exception.exception_address, 0x140001500);
    assert_eq!(rec.exception.exception_num_parameters, 2);
    assert_eq!(rec.exception.exception_information_01, 11);
    assert_eq!(rec.exception.exception_information_02, 22);
    assert_eq!(rec.exception.exception_information_03, 33);
    assert_eq!(rec.unknown, [9u8; 8]);
}

#[test]
fn parse_rejects_wrong_magic() {
    let mut p = synthetic_plaintext();
    p[0] = b'X';
    assert!(matches!(parse(&p), Err(CodecError::MagicMismatch)));

    let mut q = vec![0u8; CRASH_METRICS_SIZE];
    q[0] = b'M';
    q[1] = b'C';
    q[2] = b'2';
    q[3] = b'g';
    assert!(matches!(parse(&q), Err(CodecError::MagicMismatch)));
}

#[test]
fn parse_rejects_truncated_input() {
    assert!(matches!(
        parse(&Vec::new()),
        Err(CodecError::TruncatedRecord)
    ));
    assert!(matches!(
        parse(&b"MC2".to_vec()),
        Err(CodecError::TruncatedRecord)
    ));
    let p = synthetic_plaintext();
    let short = p[..CRASH_METRICS_SIZE - 1].to_vec();
    assert!(matches!(parse(&short), Err(CodecError::TruncatedRecord)));
}

/// The end-to-end scenario: encrypt a synthetic record with the forward
/// cipher, then decode and symbolicate.
#[test]
fn end_to_end_decode_and_symbolicate() {
    let p = synthetic_plaintext();
    let ks = generate_keystream(CRASH_METRICS_SIZE);
    let ciphertext: Vec<u8> = (0..CRASH_METRICS_SIZE)
        .map(|i| ks[i].wrapping_sub(p[i]))
        .collect();

    let rec = decode(&ciphertext).unwrap();
    assert_eq!(rec.version, 1);
    assert_eq!(rec.uptimems, 12345);
    assert_eq!(rec.scene, b"Level1");
    assert_eq!(rec.modules, b"game.exe;140000000;5000;GUID1;1");
    assert_eq!(rec.callstack, b"140001000");
    assert_eq!(rec.exception.exception_code, 0xC0000005);
    assert_eq!(rec.exception.exception_address, 0x140001500);

    let name = resolve(rec.exception.exception_address, &rec.modules);
    assert_eq!(name, b"game.exe");
}

#[test]
fn decode_propagates_cipher_and_magic_errors() {
    assert!(matches!(
        decode(&vec![0u8; 100]),
        Err(CodecError::UnexpectedLength)
    ));
    // An all-zero ciphertext deciphers to the keystream, which does not
    // start with the magic.
    assert!(matches!(
        decode(&vec![0u8; CRASH_METRICS_SIZE]),
        Err(CodecError::MagicMismatch)
    ));
}
