use furcate_mesh::event::MeshEvent;
use furcate_mesh::hexcode::HexError;
use furcate_mesh::peer::PeerId;
use furcate_mesh::wire::hex_array::HexArrayError;
use furcate_mesh::wire::{base64url_bytes_bytes, base64url_bytes_opt, hex_array};
use serde::ser::{Serialize, SerializeStruct, Serializer};

#[test]
fn hex_array_roundtrips() {
    let v = [0xab; 32];
    let j = hex_array::serialize(&v);
    assert_eq!(j, "ab".repeat(32));
    let back = hex_array::deserialize(&j).unwrap();
    assert_eq!(back, v);
}

#[test]
fn hex_array_rejects_uppercase() {
    let r = hex_array::deserialize(&"AB".repeat(32));
    assert!(r.is_err());
    assert!(matches!(r, Err(HexArrayError::Uppercase)));
}

#[test]
fn hex_array_rejects_wrong_length() {
    let r = hex_array::deserialize("abcd");
    assert!(r.is_err());
    assert!(matches!(r, Err(HexArrayError::InvalidLength { len: 4 })));
}

#[test]
fn base64url_unpadded_roundtrips() {
    let v = vec![0x01, 0x02, 0x03, 0x04, 0x05];
    let j = base64url_bytes_bytes::serialize(&v);
    assert_eq!(j, "AQIDBAU");
    let back = base64url_bytes_bytes::deserialize(&j).unwrap();
    assert_eq!(back, v);
}

#[test]
fn base64url_accepts_padded_input() {
    let back = base64url_bytes_bytes::deserialize("AQIDBAU=").unwrap();
    assert_eq!(back, vec![0x01, 0x02, 0x03, 0x04, 0x05]);
}

#[test]
fn base64url_rejects_standard_alphabet() {
    let r = base64url_bytes_bytes::deserialize("+/==");
    assert!(r.is_err());
}

/// A work offer on its way into JSON.
struct Offer(MeshEvent);

impl Serialize for Offer {
    fn serialize<S: Serializer>(&self, serializer: S) -> Result<S::Ok, S::Error> {
        match &self.0 {
            MeshEvent::WorkOffer { from, to, request, hops } => {
                let mut form = serializer.serialize_struct("MeshEvent", 5)?;
                form.serialize_field("kind", "work-offer")?;
                form.serialize_field("from", &hex_array::serialize(from.as_bytes()))?;
                form.serialize_field("to", &hex_array::serialize(to.as_bytes()))?;
                form.serialize_field("request", &base64url_bytes_bytes::serialize(request))?;
                form.serialize_field("hops", hops)?;
                form.end()
            }
            _ => Err(serde::ser::Error::custom("not a work offer")),
        }
    }
}

#[test]
fn work_offer_payload_is_base64url_string() {
    let ev = MeshEvent::WorkOffer {
        from: PeerId::from_bytes([1; 32]),
        to: PeerId::from_bytes([2; 32]),
        request: vec![0x01, 0x02, 0x03, 0x04, 0x05],
        hops: 0,
    };
    let s = serde_json::to_string(&Offer(ev)).expect("encode");
    assert!(s.contains(r#""request":"AQIDBAU""#), "got: {s}");
}

#[test]
fn hex_array_rejects_other_characters() {
    let bad = format!("{}g{}", "0".repeat(10), "0".repeat(53));
    assert!(matches!(
        hex_array::deserialize(&bad),
        Err(HexArrayError::Hex(HexError::InvalidHexCharacter { c: 'g', index: 10 }))
    ));
    let wide = format!("\u{e9}{}", "0".repeat(62));
    assert!(matches!(
        hex_array::deserialize(&wide),
        Err(HexArrayError::Hex(HexError::InvalidHexCharacter { index: 0, .. }))
    ));
    let capital_and_bad = format!("gA{}", "0".repeat(62));
    assert!(matches!(
        hex_array::deserialize(&capital_and_bad),
        Err(HexArrayError::Uppercase)
    ));
}

#[test]
fn base64url_forms() {
    assert_eq!(base64url_bytes_bytes::serialize(&[]), "");
    assert_eq!(base64url_bytes_bytes::serialize(&[0xfb]), "-w");
    assert_eq!(base64url_bytes_bytes::serialize(&[0xff, 0xff]), "__8");
    assert_eq!(base64url_bytes_bytes::serialize(b"Man"), "TWFu");
    let all: Vec<u8> = (0..=255).collect();
    let text = base64url_bytes_bytes::serialize(&all);
    assert_eq!(text.len(), 342);
    assert_eq!(base64url_bytes_bytes::deserialize(&text).unwrap(), all);
    assert_eq!(base64url_bytes_bytes::deserialize(&format!("{text}==")).unwrap(), all);
    assert_eq!(base64url_bytes_bytes::deserialize("").unwrap(), Vec::<u8>::new());
}

#[test]
fn base64url_rejects_what_is_not_canonical() {
    for bad in ["A", "AQIDBAU==", "AQIDBAV", "AQID BAU", "-x", "=", "AQ=", "AQ\u{e9}"] {
        let text = base64url_bytes_bytes::deserialize(bad).unwrap_err();
        assert!(!text.is_empty());
    }
}

#[test]
fn optional_bytes() {
    assert_eq!(base64url_bytes_opt::serialize(&None), None);
    assert_eq!(
        base64url_bytes_opt::serialize(&Some(vec![0x01, 0x02])),
        Some("AQI".to_owned())
    );
    assert_eq!(base64url_bytes_opt::deserialize(None), Ok(None));
    assert_eq!(base64url_bytes_opt::deserialize(Some("AQI=")), Ok(Some(vec![0x01, 0x02])));
    assert!(base64url_bytes_opt::deserialize(Some("!")).is_err());
}
