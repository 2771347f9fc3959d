use std::io::Write;

use flate2::write::ZlibEncoder;
use flate2::Compression;

use tes_plugin::bytes::{read_i32, read_u16, read_u32, read_u64};
use tes_plugin::common::{zstring, TypeCode};
use tes_plugin::flags::{Flags, PluginFlags, RecordFlags};
use tes_plugin::group::{group, GroupData, GroupType, Label};
use tes_plugin::record::{check_inflated, decompress, file_header_record, record, RecordData};
use tes_plugin::subrecord::subrecords;
use tes_plugin::{plugin, Error};

fn subrecord(code: &[u8; 4], data: &[u8]) -> Vec<u8> {
    let mut out = code.to_vec();
    out.extend_from_slice(&(data.len() as u16).to_le_bytes());
    out.extend_from_slice(data);
    out
}

fn record_bytes(code: &[u8; 4], flags: u32, id: u32, payload: &[u8]) -> Vec<u8> {
    let mut out = code.to_vec();
    out.extend_from_slice(&(payload.len() as u32).to_le_bytes());
    out.extend_from_slice(&flags.to_le_bytes());
    out.extend_from_slice(&id.to_le_bytes());
    out.extend_from_slice(&7u16.to_le_bytes());
    out.extend_from_slice(&8u16.to_le_bytes());
    out.extend_from_slice(&44u16.to_le_bytes());
    out.extend_from_slice(&0u16.to_le_bytes());
    out.extend_from_slice(payload);
    out
}

fn group_bytes(label: [u8; 4], kind: i32, body: &[u8]) -> Vec<u8> {
    let mut out = b"GRUP".to_vec();
    out.extend_from_slice(&((body.len() + 24) as u32).to_le_bytes());
    out.extend_from_slice(&label);
    out.extend_from_slice(&kind.to_le_bytes());
    out.extend_from_slice(&3u16.to_le_bytes());
    out.extend_from_slice(&5u16.to_le_bytes());
    out.extend_from_slice(&[0, 0, 0, 0]);
    out.extend_from_slice(body);
    out
}

fn zlib(data: &[u8]) -> Vec<u8> {
    let mut enc = ZlibEncoder::new(Vec::new(), Compression::default());
    enc.write_all(data).unwrap();
    enc.finish().unwrap()
}

fn tes4_payload(master: bool) -> Vec<u8> {
    let mut hedr = Vec::new();
    hedr.extend_from_slice(&1.7f32.to_bits().to_le_bytes());
    hedr.extend_from_slice(&12i32.to_le_bytes());
    hedr.extend_from_slice(&0x800u32.to_le_bytes());
    let mut p = subrecord(b"HEDR", &hedr);
    p.extend(subrecord(b"CNAM", b"mcarofano\0"));
    if !master {
        p.extend(subrecord(b"MAST", b"Skyrim.esm\0"));
        p.extend(subrecord(b"DATA", &0u64.to_le_bytes()));
    }
    p.extend(subrecord(b"INTV", &0x4e15u32.to_le_bytes()));
    p
}

fn synthetic_plugin(master: bool) -> Vec<u8> {
    let flags = if master { PluginFlags::MASTER } else { 0 };
    let mut b = record_bytes(b"TES4", flags, 0, &tes4_payload(master));
    let mut kywd = record_bytes(b"KYWD", 0, 0x1e71, &subrecord(b"EDID", b"ArmorMaterialSteel\0"));
    kywd.extend(record_bytes(b"KYWD", 0, 0x1e72, &subrecord(b"EDID", b"VendorItemArmor\0")));
    b.extend(group_bytes(*b"KYWD", 0, &kywd));
    b
}

#[test]
fn test_header_magic() {
    let skyrim = plugin(&synthetic_plugin(true)).unwrap();
    let dawnguard = plugin(&synthetic_plugin(false)).unwrap();
    assert_eq!(&skyrim.tes4.header.code.to_string(), "TES4");
    assert_eq!(&dawnguard.tes4.header.code.to_string(), "TES4");
}

#[test]
fn type_code_text_round_trips() {
    for text in ["TES4", "GRUP", "KYWD", "EDID", "éé", "a€"] {
        let code = TypeCode::from_utf8(text).unwrap();
        assert_eq!(code.0, <[u8; 4]>::try_from(text.as_bytes()).unwrap());
        assert_eq!(code.to_string(), text);
    }
}

#[test]
fn type_code_rejects_other_lengths() {
    for text in ["", "TES", "TES4X", "é", "ééé"] {
        assert!(TypeCode::from_utf8(text).is_none());
    }
}

#[test]
fn type_code_text_of_invalid_utf8_is_empty() {
    assert_eq!(TypeCode::new([0xff, 0xfe, 0x41, 0x42]).to_string(), "");
}

#[test]
fn little_endian_readers() {
    let b = [0x01, 0x02, 0x03, 0x04, 0x05, 0x06, 0x07, 0x88];
    assert_eq!(read_u16(&b, 0), 0x0201);
    assert_eq!(read_u32(&b, 1), 0x05040302);
    assert_eq!(read_i32(&b, 4), 0x88070605u32 as i32);
    assert_eq!(read_u64(&b, 0), 0x8807060504030201);
}

#[test]
fn record_flags_accept_exactly_known_bits() {
    let all = RecordFlags::from_bits(RecordFlags::KNOWN).unwrap();
    assert_eq!(all.bits(), RecordFlags::KNOWN);
    let some = RecordFlags::from_bits(RecordFlags::COMPRESSED | RecordFlags::DELETED).unwrap();
    assert_eq!(some.bits(), 0x0004_0020);
    assert!(some.test(RecordFlags::COMPRESSED));
    assert!(!some.test(RecordFlags::MARKER));
    for bit in 0..32 {
        let v = 1u32 << bit;
        assert_eq!(RecordFlags::from_bits(v).is_some(), v & RecordFlags::KNOWN == v);
    }
    assert!(RecordFlags::from_bits(0x0000_0001).is_none());
    assert_eq!(RecordFlags::from_bits(0).unwrap().bits(), 0);
}

#[test]
fn plugin_flags_accept_exactly_known_bits() {
    let f = PluginFlags::from_bits(0x0281).unwrap();
    assert_eq!(f.bits(), 0x0281);
    let again = PluginFlags::from_bits(f.bits()).unwrap();
    assert_eq!(again, f);
    assert!(PluginFlags::from_bits(0x0040).is_none());
    assert!(PluginFlags::from_bits(0x0283).is_none());
}

#[test]
fn master_flag_decodes_on_file_header() {
    let b = record_bytes(b"TES4", 0x0001, 0, &tes4_payload(true));
    let (rec, end) = file_header_record(&b, 0).unwrap();
    assert_eq!(rec.header.flags.bits(), PluginFlags::MASTER);
    assert_eq!(end, b.len());
}

#[test]
fn unknown_plugin_flag_fails() {
    let b = record_bytes(b"TES4", 0x0040, 0, &tes4_payload(true));
    assert_eq!(file_header_record(&b, 0).unwrap_err(), Error::InvalidFlags(0x0040));
}

#[test]
fn keyword_group_editor_ids() {
    let mut body = record_bytes(b"KYWD", 0, 0x1e71, &subrecord(b"EDID", b"ArmorMaterialSteel\0"));
    let mut second = subrecord(b"EDID", b"VendorItemArmor\0");
    second.extend(subrecord(b"CNAM", &[1, 2, 3, 4]));
    body.extend(record_bytes(b"KYWD", 0, 0x1e72, &second));
    let b = group_bytes(*b"KYWD", 0, &body);
    let (g, end) = group(&b, 0).unwrap();
    assert_eq!(end, b.len());
    assert_eq!(g.size as usize, b.len());
    assert_eq!(g.group_type, GroupType::Top);
    match g.label {
        Label::RecordType(c) => assert_eq!(c.to_string(), "KYWD"),
        other => panic!("unexpected label {:?}", other),
    }
    match &g.data {
        GroupData::Records(records) => {
            assert_eq!(records.len(), 2);
            assert_eq!(records[0].header.editor_id.as_deref(), Some("ArmorMaterialSteel"));
            assert_eq!(records[0].header.id.0, 0x1e71);
            assert_eq!(records[1].header.editor_id.as_deref(), Some("VendorItemArmor"));
        }
        other => panic!("unexpected body {:?}", other),
    }
}

#[test]
fn file_header_masters_and_overrides() {
    let mut p = subrecord(b"MAST", b"Skyrim.esm\0");
    p.extend(subrecord(b"DATA", &0x0102030405060708u64.to_le_bytes()));
    p.extend(subrecord(b"ONAM", &0x0001_2345u32.to_le_bytes()));
    let b = record_bytes(b"TES4", 0, 0, &p);
    let (rec, _) = file_header_record(&b, 0).unwrap();
    match &rec.data {
        RecordData::FileHeader(d) => {
            assert_eq!(d.masters.len(), 1);
            assert_eq!(d.masters[0].name, "Skyrim.esm");
            assert_eq!(d.masters[0].tag, 0x0102030405060708);
            assert_eq!(d.overrides.len(), 1);
            assert_eq!(d.overrides[0].0, 0x0001_2345);
            assert_eq!(d.author, None);
            assert_eq!(d.intv, 0);
        }
        other => panic!("unexpected payload {:?}", other),
    }
}

#[test]
fn file_header_fields() {
    let b = record_bytes(b"TES4", 0x0001, 0, &tes4_payload(false));
    let (rec, _) = file_header_record(&b, 0).unwrap();
    match &rec.data {
        RecordData::FileHeader(d) => {
            assert_eq!(f32::from_bits(d.hedr.version_bits), 1.7f32);
            assert_eq!(d.hedr.num_records, 12);
            assert_eq!(d.hedr.next_id.0, 0x800);
            assert_eq!(d.author.as_deref(), Some("mcarofano"));
            assert_eq!(d.description, None);
            assert_eq!(d.masters.len(), 1);
            assert_eq!(d.masters[0].tag, 0);
            assert_eq!(d.intv, 0x4e15);
            assert_eq!(d.incc, 0);
        }
        other => panic!("unexpected payload {:?}", other),
    }
    assert_eq!(rec.header.timestamp, 7);
    assert_eq!(rec.header.vc_info, 8);
    assert_eq!(rec.header.version, 44);
    assert!(rec.header.editor_id.is_none());
}

#[test]
fn file_header_errors() {
    let bad_utf8 = record_bytes(b"TES4", 0, 0, &subrecord(b"CNAM", &[0xff, 0xfe, 0]));
    assert_eq!(file_header_record(&bad_utf8, 0).unwrap_err(), Error::InvalidUtf8);
    let unterminated = record_bytes(b"TES4", 0, 0, &subrecord(b"SNAM", b"abc"));
    assert_eq!(file_header_record(&unterminated, 0).unwrap_err(), Error::Truncated);
    let short_hedr = record_bytes(b"TES4", 0, 0, &subrecord(b"HEDR", &[0; 8]));
    assert_eq!(file_header_record(&short_hedr, 0).unwrap_err(), Error::Truncated);
    let mut overrun = subrecord(b"INTV", &[1, 0, 0, 0]);
    overrun.truncate(8);
    let b = record_bytes(b"TES4", 0, 0, &overrun);
    assert_eq!(file_header_record(&b, 0).unwrap_err(), Error::Truncated);
}

#[test]
fn file_header_ignores_unknown_tags() {
    let mut p = subrecord(b"XXXX", &[9, 9]);
    p.extend(subrecord(b"DATA", &[1, 2, 3]));
    p.extend(subrecord(b"INCC", &5u32.to_le_bytes()));
    let b = record_bytes(b"TES4", 0, 0, &p);
    let (rec, _) = file_header_record(&b, 0).unwrap();
    match &rec.data {
        RecordData::FileHeader(d) => {
            assert_eq!(d.incc, 5);
            assert!(d.masters.is_empty());
        }
        other => panic!("unexpected payload {:?}", other),
    }
}

#[test]
fn truncated_record_fails() {
    let mut b = record_bytes(b"KYWD", 0, 1, &subrecord(b"EDID", b"ArmorMaterialSteel\0"));
    let declared = (b.len() - 24) as u32;
    b.truncate(b.len() - 3);
    assert_eq!(
        record(&b, 0).unwrap_err(),
        Error::TruncatedPayload {
            code: TypeCode(*b"KYWD"),
            declared,
            available: declared as usize - 3,
        }
    );
    assert_eq!(record(&b[..20], 0).unwrap_err(), Error::Truncated);
}

#[test]
fn record_takes_declared_size_only() {
    let payload = subrecord(b"EDID", b"Iron\0");
    let mut b = record_bytes(b"WEAP", 0, 9, &payload);
    let n = b.len();
    b.extend_from_slice(&[0xAA; 10]);
    let (rec, end) = record(&b, 0).unwrap();
    assert_eq!(end, n);
    assert_eq!(end, 24 + rec.header.size as usize);
    assert_eq!(rec.header.editor_id.as_deref(), Some("Iron"));
    match &rec.data {
        RecordData::Unknown(bytes) => assert_eq!(bytes, &payload),
        other => panic!("unexpected payload {:?}", other),
    }
}

#[test]
fn record_without_editor_id() {
    let b = record_bytes(b"WEAP", 0, 9, &subrecord(b"DATA", &[1, 2]));
    let (rec, _) = record(&b, 0).unwrap();
    assert!(rec.header.editor_id.is_none());
    let bad = record_bytes(b"WEAP", 0, 9, &subrecord(b"EDID", &[0xff, 0]));
    let (rec, _) = record(&bad, 0).unwrap();
    assert!(rec.header.editor_id.is_none());
    let empty = record_bytes(b"WEAP", 0, 9, &[]);
    let (rec, end) = record(&empty, 0).unwrap();
    assert!(rec.header.editor_id.is_none());
    assert_eq!(end, 24);
}

#[test]
fn editor_id_needs_whole_data_to_be_utf8() {
    let b = record_bytes(b"WEAP", 0, 9, &subrecord(b"EDID", &[0x41, 0, 0xFF]));
    let (rec, end) = record(&b, 0).unwrap();
    assert!(rec.header.editor_id.is_none());
    assert_eq!(end, b.len());
    match &rec.data {
        RecordData::Unknown(bytes) => assert_eq!(bytes, &subrecord(b"EDID", &[0x41, 0, 0xFF])),
        other => panic!("unexpected payload {:?}", other),
    }
}

#[test]
fn editor_id_drops_only_the_terminator() {
    let b = record_bytes(b"WEAP", 0, 9, &subrecord(b"EDID", b"Iron"));
    assert_eq!(record(&b, 0).unwrap().0.header.editor_id.as_deref(), Some("Iron"));
    let b = record_bytes(b"WEAP", 0, 9, &subrecord(b"EDID", b"A\0B\0"));
    assert_eq!(record(&b, 0).unwrap().0.header.editor_id.as_deref(), Some("A\0B"));
    let b = record_bytes(b"WEAP", 0, 9, &subrecord(b"EDID", b"\0"));
    assert_eq!(record(&b, 0).unwrap().0.header.editor_id.as_deref(), Some(""));
}

#[test]
fn record_with_unknown_flag_fails() {
    let b = record_bytes(b"WEAP", 0x0000_0001, 9, &[]);
    assert_eq!(record(&b, 0).unwrap_err(), Error::InvalidFlags(1));
}

#[test]
fn compressed_record_inflates() {
    let plain = subrecord(b"EDID", b"CompressedThing\0");
    let mut stored = (plain.len() as u32).to_le_bytes().to_vec();
    stored.extend(zlib(&plain));
    let b = record_bytes(b"NPC_", RecordFlags::COMPRESSED, 4, &stored);
    let (rec, end) = record(&b, 0).unwrap();
    assert_eq!(end, b.len());
    assert_eq!(rec.header.editor_id.as_deref(), Some("CompressedThing"));
    match &rec.data {
        RecordData::Unknown(bytes) => assert_eq!(bytes, &plain),
        other => panic!("unexpected payload {:?}", other),
    }
}

#[test]
fn decompress_checks_length_prefix() {
    let plain: Vec<u8> = (0..200u32).map(|i| (i % 7) as u8).collect();
    let stream = zlib(&plain);
    let mut good = 200u32.to_le_bytes().to_vec();
    good.extend_from_slice(&stream);
    assert_eq!(decompress(&good).unwrap(), plain);
    let mut bad = 199u32.to_le_bytes().to_vec();
    bad.extend_from_slice(&stream);
    assert_eq!(
        decompress(&bad).unwrap_err(),
        Error::DecompressedSizeMismatch { expected: 199, actual: 200 }
    );
    let mut corrupt = 200u32.to_le_bytes().to_vec();
    corrupt.extend_from_slice(&[0x12, 0x34, 0x56, 0x78]);
    assert_eq!(decompress(&corrupt).unwrap_err(), Error::Decompression);
    assert_eq!(decompress(&[1, 2]).unwrap_err(), Error::Truncated);
}

#[test]
fn check_inflated_outcomes() {
    assert_eq!(check_inflated(3, Some(vec![1, 2, 3])).unwrap(), vec![1, 2, 3]);
    assert_eq!(
        check_inflated(4, Some(vec![1, 2, 3])).unwrap_err(),
        Error::DecompressedSizeMismatch { expected: 4, actual: 3 }
    );
    assert_eq!(check_inflated(0, None).unwrap_err(), Error::Decompression);
}

#[test]
fn compressed_record_with_wrong_prefix_fails() {
    let plain = subrecord(b"EDID", b"X\0");
    let mut stored = (plain.len() as u32 + 1).to_le_bytes().to_vec();
    stored.extend(zlib(&plain));
    let b = record_bytes(b"NPC_", RecordFlags::COMPRESSED, 4, &stored);
    assert_eq!(
        record(&b, 0).unwrap_err(),
        Error::DecompressedSizeMismatch { expected: plain.len() as u32 + 1, actual: plain.len() }
    );
}

#[test]
fn subrecord_scanner() {
    let mut b = subrecord(b"EDID", b"abc\0");
    b.extend(subrecord(b"DATA", &[]));
    let subs = subrecords(&b).unwrap();
    assert_eq!(subs.len(), 2);
    assert_eq!(subs[0].code.to_string(), "EDID");
    assert_eq!(subs[0].data, b"abc\0");
    assert_eq!(subs[1].code.to_string(), "DATA");
    assert!(subs[1].data.is_empty());
    assert!(subrecords(&[]).unwrap().is_empty());
    assert_eq!(subrecords(&b[..b.len() - 1]).unwrap_err(), Error::Truncated);
    assert_eq!(subrecords(&b[..3]).unwrap_err(), Error::Truncated);
}

#[test]
fn zstring_reads_to_terminator() {
    let b = b"xxSkyrim.esm\0rest";
    let (s, end) = zstring(b, 2).unwrap();
    assert_eq!(s, "Skyrim.esm");
    assert_eq!(end, 13);
    assert_eq!(zstring(b"abc", 0).unwrap_err(), Error::Truncated);
    assert_eq!(zstring(&[0xc3, 0x28, 0], 0).unwrap_err(), Error::InvalidUtf8);
}

#[test]
fn group_labels_by_kind() {
    let raw = [0x01, 0x02, 0xff, 0xff];
    let cases: Vec<(i32, Label)> = vec![
        (1, Label::ParentWorld(tes_plugin::FormId(0xffff0201))),
        (2, Label::BlockNumber(0xffff0201u32 as i32)),
        (3, Label::SubBlockNumber(0xffff0201u32 as i32)),
        (4, Label::GridCoordinate([0x0201, 0xffff])),
        (5, Label::GridCoordinate([0x0201, 0xffff])),
        (6, Label::ParentCell(tes_plugin::FormId(0xffff0201))),
        (7, Label::ParentDialog(tes_plugin::FormId(0xffff0201))),
        (8, Label::ParentCell(tes_plugin::FormId(0xffff0201))),
        (9, Label::ParentCell(tes_plugin::FormId(0xffff0201))),
    ];
    for (kind, expected) in cases {
        let b = group_bytes(raw, kind, &[1, 2, 3]);
        let (g, end) = group(&b, 0).unwrap();
        assert_eq!(end, 27);
        assert_eq!(format!("{:?}", g.label), format!("{:?}", expected));
        match &g.data {
            GroupData::Unimplemented(bytes) => assert_eq!(bytes, &vec![1, 2, 3]),
            other => panic!("unexpected body {:?}", other),
        }
        assert_eq!(g.timestamp, 3);
        assert_eq!(g.vc_info, 5);
    }
}

#[test]
fn group_header_errors() {
    let b = group_bytes(*b"KYWD", 10, &[]);
    assert_eq!(group(&b, 0).unwrap_err(), Error::InvalidGroupType(10));
    let b = group_bytes(*b"KYWD", -1, &[]);
    assert_eq!(group(&b, 0).unwrap_err(), Error::InvalidGroupType(-1));
    let mut b = group_bytes(*b"KYWD", 0, &[]);
    b[4..8].copy_from_slice(&20u32.to_le_bytes());
    assert_eq!(group(&b, 0).unwrap_err(), Error::InvalidGroupSize(20));
    let mut b = group_bytes(*b"KYWD", 0, &[]);
    b[0..4].copy_from_slice(b"GRUQ");
    assert_eq!(group(&b, 0).unwrap_err(), Error::NotAGroup(TypeCode(*b"GRUQ")));
    let b = group_bytes(*b"KYWD", 0, &[0; 10]);
    assert_eq!(
        group(&b[..30], 0).unwrap_err(),
        Error::TruncatedGroup { declared: 34, available: 30 }
    );
    assert_eq!(group(&b[..23], 0).unwrap_err(), Error::Truncated);
}

#[test]
fn nested_categories_kept_as_bytes() {
    for label in [*b"CELL", *b"WRLD", *b"DIAL"] {
        let body = [0xde, 0xad, 0xbe, 0xef];
        let b = group_bytes(label, 0, &body);
        let (g, end) = group(&b, 0).unwrap();
        assert_eq!(end, 28);
        match &g.data {
            GroupData::Unimplemented(bytes) => assert_eq!(bytes, &body.to_vec()),
            other => panic!("unexpected body {:?}", other),
        }
    }
}

#[test]
fn group_record_overrunning_body_fails() {
    let rec = record_bytes(b"KYWD", 0, 1, &subrecord(b"EDID", b"A\0"));
    let mut b = group_bytes(*b"KYWD", 0, &rec);
    let size = (24 + rec.len() - 2) as u32;
    b[4..8].copy_from_slice(&size.to_le_bytes());
    assert_eq!(
        group(&b, 0).unwrap_err(),
        Error::TruncatedPayload {
            code: TypeCode(*b"KYWD"),
            declared: (rec.len() - 24) as u32,
            available: rec.len() - 26,
        }
    );
}

#[test]
fn plugin_indexes_groups_by_category() {
    let mut b = synthetic_plugin(true);
    let weap = record_bytes(b"WEAP", 0, 2, &subrecord(b"EDID", b"IronSword\0"));
    b.extend(group_bytes(*b"WEAP", 0, &weap));
    b.extend(group_bytes(*b"CELL", 0, &[1, 2, 3]));
    let p = plugin(&b).unwrap();
    assert_eq!(p.groups.len(), 3);
    assert_eq!(
        p.get_editor_ids_by_code(*b"KYWD"),
        vec!["ArmorMaterialSteel".to_string(), "VendorItemArmor".to_string()]
    );
    assert_eq!(p.get_editor_ids_by_code(*b"WEAP"), vec!["IronSword".to_string()]);
    assert!(p.get_editor_ids_by_code(*b"CELL").is_empty());
    assert!(p.get_editor_ids_by_code(*b"ARMO").is_empty());
    assert!(p.group(&TypeCode(*b"WEAP")).is_some());
    assert!(p.group(&TypeCode(*b"ARMO")).is_none());
}

#[test]
fn later_group_of_category_wins() {
    let mut b = synthetic_plugin(true);
    let weap = record_bytes(b"KYWD", 0, 2, &subrecord(b"EDID", b"Replacement\0"));
    b.extend(group_bytes(*b"KYWD", 0, &weap));
    let p = plugin(&b).unwrap();
    assert_eq!(p.groups.len(), 1);
    assert_eq!(p.get_editor_ids_by_code(*b"KYWD"), vec!["Replacement".to_string()]);
}

#[test]
fn plugin_rejects_nested_group_at_top_level() {
    let mut b = synthetic_plugin(true);
    b.extend(group_bytes([0, 0, 0, 0], 2, &[]));
    assert_eq!(plugin(&b).unwrap_err(), Error::NotATopGroup(GroupType::InteriorCellBlock));
}

#[test]
fn plugin_with_only_header() {
    let b = record_bytes(b"TES4", 0x0200, 0, &[]);
    let p = plugin(&b).unwrap();
    assert!(p.groups.is_empty());
    assert_eq!(p.tes4.header.flags.bits(), PluginFlags::LIGHT);
    assert_eq!(plugin(&[]).unwrap_err(), Error::Truncated);
}

#[test]
fn plugin_with_trailing_partial_group_fails() {
    let mut b = synthetic_plugin(true);
    b.extend_from_slice(b"GRUP");
    assert_eq!(plugin(&b).unwrap_err(), Error::Truncated);
}
