//! Tests of the Pong packet codec.

use mcbe_lan_advertizer::config::server_properties::{Gamemode, ServerProperties};
use mcbe_lan_advertizer::pong::{dec_u64, magic_bytes, u16_be_bytes, u64_be_bytes, Pong};

const MAGIC: [u8; 16] = [
    0x00, 0xff, 0xff, 0x00, 0xfe, 0xfe, 0xfe, 0xfe, 0xfd, 0xfd, 0xfd, 0xfd, 0x12, 0x34, 0x56, 0x78,
];

fn sample_properties() -> ServerProperties {
    ServerProperties {
        server_name: "My World".to_string(),
        level_name: "Hi".to_string(),
        gamemode: Gamemode::Creative,
        max_players: 10,
        port4: 19132,
        port6: 19133,
    }
}

#[test]
fn descriptor_matches_documented_example() {
    let pong = Pong::from(sample_properties());
    let descriptor = pong.descriptor_bytes();
    assert_eq!(
        descriptor,
        b"MCPE;My World;560;1.19.51;0;1;999;Hi;creative;1;19132;19133;0;".to_vec()
    );
}

#[test]
fn packet_starts_with_pong_id() {
    let pong = Pong::from(sample_properties());
    let bytes = pong.try_as_bytes().unwrap();
    assert_eq!(bytes[0], 0x1c);
}

#[test]
fn as_bytes_and_try_as_bytes_agree() {
    let pong = Pong::from(sample_properties());
    let direct = pong.as_bytes();
    let checked = pong.try_as_bytes().unwrap();
    assert_eq!(direct[0], checked[0]);
    assert_eq!(&direct[9..], &checked[9..]);
    assert_eq!(direct.len(), checked.len());
}

#[test]
fn packet_carries_magic_after_time_and_guid() {
    let pong = Pong::from(sample_properties());
    let bytes = pong.try_as_bytes().unwrap();
    assert_eq!(&bytes[17..33], &MAGIC[..]);
}

#[test]
fn length_prefix_equals_descriptor_length() {
    let pong = Pong::from(sample_properties());
    let descriptor = pong.descriptor_bytes();
    let bytes = pong.try_as_bytes().unwrap();
    let prefixed = ((bytes[33] as usize) << 8) | bytes[34] as usize;
    assert_eq!(prefixed, descriptor.len());
    assert_eq!(&bytes[35..], &descriptor[..]);
    assert_eq!(bytes.len(), 35 + descriptor.len());
}

#[test]
fn guid_is_stable_across_encodings_of_one_pong() {
    let pong = Pong::from(sample_properties());
    let b1 = pong.try_as_bytes().unwrap();
    let b2 = pong.try_as_bytes().unwrap();
    assert_eq!(&b1[9..17], &b2[9..17]);
    // the two encodings may differ only in the elapsed-time field
    assert_eq!(b1[0], b2[0]);
    assert_eq!(&b1[17..], &b2[17..]);
}

#[test]
fn guid_differs_across_two_constructions() {
    // Two runs draw their GUIDs independently; a collision of two random
    // 64-bit values is never expected in practice.
    let p1 = Pong::default();
    let p2 = Pong::default();
    let b1 = p1.try_as_bytes().unwrap();
    let b2 = p2.try_as_bytes().unwrap();
    assert_ne!(&b1[9..17], &b2[9..17]);
}

#[test]
fn oversized_descriptor_is_refused() {
    let mut pong = Pong::from(sample_properties());
    pong.title = "a".repeat(70000);
    assert!(pong.try_as_bytes().is_none());
    assert_eq!(pong.descriptor_bytes().len() > 0xFFFF, true);
}

#[test]
fn default_pong_mirrors_stock_server() {
    let pong = Pong::default();
    assert_eq!(pong.title, "Minecraft server");
    assert_eq!(pong.description, "Bedrock level");
    assert_eq!(pong.protocol.0, 560);
    assert_eq!(pong.protocol.1, "1.19.51");
    assert_eq!(pong.gamemode, Gamemode::Creative);
    assert_eq!(pong.port4, 19132);
    assert_eq!(pong.port6, 19133);
}

#[test]
fn from_with_protocol_overrides_the_pair() {
    let pong = Pong::from_with_protocol(sample_properties(), 557, "1.19.41".to_string());
    let descriptor = pong.descriptor_bytes();
    assert_eq!(
        descriptor,
        b"MCPE;My World;557;1.19.41;0;1;999;Hi;creative;1;19132;19133;0;".to_vec()
    );
}

#[test]
fn descriptor_splits_into_thirteen_fields() {
    let pong = Pong::from(sample_properties());
    let d = pong.descriptor_bytes();
    let fields: Vec<&[u8]> = d.split(|b| *b == b';').collect();
    // thirteen fields, plus the empty chunk after the trailing separator
    assert_eq!(fields.len(), 14);
    assert_eq!(fields[0], b"MCPE");
    assert_eq!(fields[1], b"My World");
    assert_eq!(fields[2], b"560");
    assert_eq!(fields[3], b"1.19.51");
    assert_eq!(fields[4], b"0");
    assert_eq!(fields[5], b"1");
    assert_eq!(fields[6], b"999");
    assert_eq!(fields[7], b"Hi");
    assert_eq!(fields[8], b"creative");
    assert_eq!(fields[9], b"1");
    assert_eq!(fields[10], b"19132");
    assert_eq!(fields[11], b"19133");
    assert_eq!(fields[12], b"0");
    assert_eq!(fields[13], b"");
}

#[test]
fn gamemodes_render_lowercase() {
    let mut props = sample_properties();
    props.gamemode = Gamemode::Survival;
    let d = Pong::from(props).descriptor_bytes();
    assert!(d.windows(10).any(|w| w == b";survival;"));
    let mut props = sample_properties();
    props.gamemode = Gamemode::Adventure;
    let d = Pong::from(props).descriptor_bytes();
    assert!(d.windows(11).any(|w| w == b";adventure;"));
}

#[test]
fn decimal_rendering_is_exact() {
    assert_eq!(dec_u64(0), b"0".to_vec());
    assert_eq!(dec_u64(7), b"7".to_vec());
    assert_eq!(dec_u64(560), b"560".to_vec());
    assert_eq!(dec_u64(19132), b"19132".to_vec());
    assert_eq!(dec_u64(u64::MAX), b"18446744073709551615".to_vec());
}

#[test]
fn big_endian_helpers_are_exact() {
    assert_eq!(u16_be_bytes(0x1234), vec![0x12, 0x34]);
    assert_eq!(u16_be_bytes(0), vec![0, 0]);
    assert_eq!(u16_be_bytes(0xFFFF), vec![0xFF, 0xFF]);
    assert_eq!(
        u64_be_bytes(0x0123456789ABCDEF),
        vec![0x01, 0x23, 0x45, 0x67, 0x89, 0xAB, 0xCD, 0xEF]
    );
    assert_eq!(u64_be_bytes(0), vec![0; 8]);
    assert_eq!(magic_bytes(), MAGIC.to_vec());
}

#[test]
fn elapsed_time_field_advances_or_holds() {
    // the second encoding's elapsed-time reading is at least the first's
    let pong = Pong::default();
    let b1 = pong.try_as_bytes().unwrap();
    let b2 = pong.try_as_bytes().unwrap();
    let t1 = u64::from_be_bytes(b1[1..9].try_into().unwrap());
    let t2 = u64::from_be_bytes(b2[1..9].try_into().unwrap());
    assert!(t2 >= t1);
}
