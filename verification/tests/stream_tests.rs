use mcproto::stream::{StreamDecoder, StreamError};

#[test]
fn exact_reads_across_chunk_boundaries() {
    let mut sd = StreamDecoder::new();
    sd.feed(&[1, 2, 3]).unwrap();
    sd.feed(&[4, 5, 6, 7, 8]).unwrap();
    assert_eq!(sd.available(), 8);
    let a = sd.read_bytes(5).unwrap();
    assert_eq!(a, vec![1, 2, 3, 4, 5]);
    let b = sd.read_bytes(3).unwrap();
    assert_eq!(b, vec![6, 7, 8]);
    assert_eq!(sd.available(), 0);
}

#[test]
fn never_a_short_read_and_no_byte_twice() {
    let mut sd = StreamDecoder::new();
    sd.feed(&[9, 8, 7]).unwrap();
    assert_eq!(sd.read_bytes(4), Err(StreamError::NeedMore));
    // the failed read revealed nothing: the bytes come out intact
    sd.feed(&[6]).unwrap();
    assert_eq!(sd.read_bytes(4).unwrap(), vec![9, 8, 7, 6]);
}

#[test]
fn oversized_request_is_refused() {
    let mut sd = StreamDecoder::new();
    assert_eq!(sd.read_bytes(65535), Err(StreamError::Oversized));
    assert_eq!(sd.read_bytes(70000), Err(StreamError::Oversized));
}

#[test]
fn typed_readers_decode_big_endian() {
    let mut sd = StreamDecoder::new();
    sd.feed(&[
        0x01, 0xff, 0x12, 0x34, 0xff, 0xfe, 0x00, 0x00, 0x01, 0x00, 0xff, 0xff, 0xff, 0xff,
        0xff, 0xff, 0xff, 0xfb,
    ]).unwrap();
    assert_eq!(sd.read_bool().unwrap(), true);
    assert_eq!(sd.read_byte().unwrap(), -1);
    assert_eq!(sd.read_ushort().unwrap(), 0x1234);
    assert_eq!(sd.read_short().unwrap(), -2);
    assert_eq!(sd.read_int().unwrap(), 256);
    assert_eq!(sd.read_long().unwrap(), -5);
}

#[test]
fn float_bit_readers() {
    let mut sd = StreamDecoder::new();
    let mut bytes = (1.5f32).to_be_bytes().to_vec();
    bytes.extend_from_slice(&(-64.25f64).to_be_bytes());
    sd.feed(&bytes).unwrap();
    assert_eq!(f32::from_bits(sd.read_float_bits().unwrap()), 1.5);
    assert_eq!(f64::from_bits(sd.read_double_bits().unwrap()), -64.25);
}

#[test]
fn stream_decryption_recovers_plaintext() {
    // encrypt with the real cipher on one side, decrypt via the decoder
    let key = [7u8; 16];
    let mut enc = openssl::symm::Crypter::new(
        openssl::symm::Cipher::aes_128_cfb8(),
        openssl::symm::Mode::Encrypt,
        &key,
        Some(&key),
    )
    .unwrap();
    let plain = b"exact sized reads over an encrypted stream";
    let mut ciphertext = vec![0u8; plain.len() + 16];
    let n = enc.update(plain, &mut ciphertext).unwrap();
    ciphertext.truncate(n);
    assert_eq!(ciphertext.len(), plain.len());
    assert_ne!(&ciphertext[..], &plain[..]);

    let mut sd = StreamDecoder::new();
    sd.set_decryption_key(&key).unwrap();
    sd.enable_decryption().unwrap();
    // feed the ciphertext in two arbitrary chunks
    sd.feed(&ciphertext[..10]).unwrap();
    sd.feed(&ciphertext[10..]).unwrap();
    let out = sd.read_bytes(plain.len()).unwrap();
    assert_eq!(out, plain.to_vec());
}

#[test]
fn enabling_decryption_without_key_fails() {
    let mut sd = StreamDecoder::new();
    assert!(sd.enable_decryption().is_err());
}

#[test]
fn to_ushort_reads_two_bytes() {
    assert_eq!(mcproto::to_ushort(&[0xab, 0xcd]), 0xabcd);
}
