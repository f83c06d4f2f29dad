use matscan_core::forge::{decode_optimized, extract_forge_mods, mods_from_bytes, read_u16, read_utf, read_varint, read_bool};

/// Packs bytes fifteen bits to a character, with the two-character length header.
fn pack(bytes: &[u8]) -> String {
    let n = bytes.len() as u32;
    let mut out = String::new();
    out.push(char::from_u32(n & 0x7FFF).unwrap());
    out.push(char::from_u32(n >> 15).unwrap());
    let total_bits = bytes.len() * 8;
    let chars = (total_bits + 14) / 15;
    for k in 0..chars {
        let mut v: u32 = 0;
        for t in 0..15 {
            let p = k * 15 + t;
            if p < total_bits && (bytes[p / 8] >> (p % 8)) & 1 == 1 {
                v |= 1 << t;
            }
        }
        out.push(char::from_u32(v).unwrap());
    }
    out
}

fn round_trip(bytes: &[u8]) {
    let packed = pack(bytes);
    assert_eq!(decode_optimized(&packed), Some(bytes.to_vec()));
}

#[test]
fn unpack_inverts_pack_empty() {
    round_trip(&[]);
}

#[test]
fn unpack_inverts_pack_one_byte() {
    round_trip(&[0xA5]);
}

#[test]
fn unpack_inverts_pack_two_bytes() {
    round_trip(&[0xFF, 0x01]);
}

#[test]
fn unpack_inverts_pack_hundred_bytes() {
    let bytes: Vec<u8> = (0..100u32).map(|i| (i * 37 + 11) as u8).collect();
    round_trip(&bytes);
}

#[test]
fn decode_needs_a_header() {
    assert_eq!(decode_optimized(""), None);
    assert_eq!(decode_optimized("a"), None);
    assert_eq!(decode_optimized("\u{0}\u{0}"), Some(vec![]));
}

#[test]
fn decode_stops_at_declared_length() {
    // three data characters hold 45 bits: five whole bytes, two of which are declared
    let s: String = [2u32, 0, 0x7FFF, 0x7FFF, 0x7FFF].iter().map(|&c| char::from_u32(c).unwrap()).collect();
    assert_eq!(decode_optimized(&s), Some(vec![0xFF, 0xFF]));
    // a declared length of zero gives nothing, whatever follows
    let z: String = [0u32, 0, 0x7FFF, 0x7FFF].iter().map(|&c| char::from_u32(c).unwrap()).collect();
    assert_eq!(decode_optimized(&z), Some(vec![]));
}

#[test]
fn decode_stops_where_characters_run_out() {
    // ten bytes declared, two characters hold three whole bytes
    let s: String = [10u32, 0, 0x7FFF, 0x7FFF].iter().map(|&c| char::from_u32(c).unwrap()).collect();
    assert_eq!(decode_optimized(&s), Some(vec![0xFF, 0xFF, 0xFF]));
}

#[test]
fn readers_consume_what_they_read() {
    let data = [0x01u8, 0x12, 0x34, 0xAC, 0x02, 0x03, b'a', b'b', b'c'];
    let mut b: &[u8] = &data;
    assert_eq!(read_bool(&mut b), Some(true));
    assert_eq!(read_u16(&mut b), Some(0x1234));
    assert_eq!(read_varint(&mut b), Some(300));
    assert_eq!(read_utf(&mut b), Some("abc".to_string()));
    assert_eq!(b.len(), 0);
    assert_eq!(read_bool(&mut b), None);
}

#[test]
fn varint_longer_than_five_bytes_fails() {
    let data = [0x80u8, 0x80, 0x80, 0x80, 0x80, 0x01];
    let mut b: &[u8] = &data;
    assert_eq!(read_varint(&mut b), None);
}

fn utf(s: &str) -> Vec<u8> {
    let mut v = vec![s.len() as u8];
    v.extend_from_slice(s.as_bytes());
    v
}

fn mod_list_bytes() -> Vec<u8> {
    let mut b = vec![0u8, 0, 2];
    // first mod: one channel, version given
    b.push(2);
    b.extend(utf("jei"));
    b.extend(utf("1.2.3"));
    b.extend(utf("jei:channel"));
    b.extend(utf("1"));
    b.push(1);
    // second mod: no channel, server-only flag set
    b.push(1);
    b.extend(utf("tweaks"));
    b
}

#[test]
fn mod_list_is_read() {
    let mods = mods_from_bytes(&mod_list_bytes()).unwrap();
    assert_eq!(mods.len(), 2);
    assert_eq!(mods[0].mod_id, "jei");
    assert_eq!(mods[0].mod_marker, "1.2.3");
    assert_eq!(mods[1].mod_id, "tweaks");
    assert_eq!(mods[1].mod_marker, "IGNORESERVERONLY");
}

#[test]
fn mod_list_through_packing() {
    let mods = extract_forge_mods(&pack(&mod_list_bytes())).unwrap();
    assert_eq!(mods.len(), 2);
    assert_eq!(mods[1].mod_marker, "IGNORESERVERONLY");
}

#[test]
fn short_mod_list_gives_nothing() {
    let mut b = mod_list_bytes();
    b.pop();
    assert!(mods_from_bytes(&b).is_none());
    assert!(extract_forge_mods(&pack(&b)).is_none());
}
