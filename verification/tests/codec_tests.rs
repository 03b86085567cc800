use crowdfund::codec::{decode_campaign, decode_withdraw, encode_campaign, Campaign};

fn sample() -> Campaign {
    Campaign {
        admin: vec![7u8; 32],
        name: b"ab".to_vec(),
        description: b"cde".to_vec(),
        image_link: Vec::new(),
        amount_donated: 0x0102030405060708,
    }
}

fn sample_bytes() -> Vec<u8> {
    let mut expected = vec![7u8; 32];
    expected.extend_from_slice(&[2, 0, 0, 0]);
    expected.extend_from_slice(b"ab");
    expected.extend_from_slice(&[3, 0, 0, 0]);
    expected.extend_from_slice(b"cde");
    expected.extend_from_slice(&[0, 0, 0, 0]);
    expected.extend_from_slice(&[8, 7, 6, 5, 4, 3, 2, 1]);
    expected
}

#[test]
fn encode_produces_exact_layout() {
    assert_eq!(encode_campaign(&sample()), sample_bytes());
}

#[test]
fn decode_recovers_every_field() {
    let c = decode_campaign(&sample_bytes()).expect("valid buffer");
    assert_eq!(c.admin, vec![7u8; 32]);
    assert_eq!(c.name, b"ab".to_vec());
    assert_eq!(c.description, b"cde".to_vec());
    assert_eq!(c.image_link, Vec::<u8>::new());
    assert_eq!(c.amount_donated, 0x0102030405060708);
}

#[test]
fn roundtrip_reproduces_arbitrary_text() {
    let c = Campaign {
        admin: (0u8..32).collect(),
        name: "ünïcode name ✓".as_bytes().to_vec(),
        description: "multi\nline\tdescription".as_bytes().to_vec(),
        image_link: "https://example.invalid/img.png".as_bytes().to_vec(),
        amount_donated: u64::MAX,
    };
    let d = decode_campaign(&encode_campaign(&c)).expect("roundtrip");
    assert_eq!(d.admin, c.admin);
    assert_eq!(d.name, c.name);
    assert_eq!(d.description, c.description);
    assert_eq!(d.image_link, c.image_link);
    assert_eq!(d.amount_donated, c.amount_donated);
}

#[test]
fn decode_rejects_trailing_byte() {
    let mut b = sample_bytes();
    b.push(0);
    assert!(decode_campaign(&b).is_none());
}

#[test]
fn decode_rejects_truncated_buffer() {
    let b = sample_bytes();
    assert!(decode_campaign(&b[..b.len() - 1].to_vec()).is_none());
    assert!(decode_campaign(&b[..31].to_vec()).is_none());
    assert!(decode_campaign(&b[..34].to_vec()).is_none());
    assert!(decode_campaign(&Vec::new()).is_none());
}

#[test]
fn decode_rejects_oversized_length_prefix() {
    let mut b = vec![7u8; 32];
    b.extend_from_slice(&[255, 255, 255, 255]);
    b.extend_from_slice(b"ab");
    assert!(decode_campaign(&b).is_none());
}

#[test]
fn matches_reference_serializer() {
    let tuple = (
        [7u8; 32],
        "ab".to_string(),
        "cde".to_string(),
        String::new(),
        0x0102030405060708u64,
    );
    let reference = borsh::to_vec(&tuple).expect("serialize");
    assert_eq!(encode_campaign(&sample()), reference);

    let back: ([u8; 32], String, String, String, u64) =
        borsh::from_slice(&encode_campaign(&sample())).expect("deserialize");
    assert_eq!(back, tuple);
}

#[test]
fn withdraw_request_decodes_exactly_eight_bytes() {
    assert_eq!(decode_withdraw(&vec![1, 0, 0, 0, 0, 0, 0, 0]), Some(1));
    assert_eq!(
        decode_withdraw(&vec![0x30, 0, 0, 0, 0, 0, 0, 0]),
        Some(48)
    );
    assert_eq!(
        decode_withdraw(&vec![255, 255, 255, 255, 255, 255, 255, 255]),
        Some(u64::MAX)
    );
    assert_eq!(decode_withdraw(&vec![1, 0, 0, 0, 0, 0, 0]), None);
    assert_eq!(decode_withdraw(&vec![1, 0, 0, 0, 0, 0, 0, 0, 0]), None);
    assert_eq!(decode_withdraw(&Vec::new()), None);

    let reference = borsh::to_vec(&48u64).expect("serialize");
    assert_eq!(decode_withdraw(&reference), Some(48));
}
