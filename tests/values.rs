use tes_plugin::codec::{
    FormIDParser, Int16Parser, Int32Parser, Int64Parser, Int8Parser, Uint16Parser, Uint32Parser,
    Uint64Parser, Uint8Parser, ZStringParser,
};
use tes_plugin::group::group;
use tes_plugin::schema::{read_value, RecordParser, Value, ValueKind, ValueSubrecordParser};
use tes_plugin::{Error, FormId, TypeCode};

fn subrecord(code: &[u8; 4], data: &[u8]) -> Vec<u8> {
    let mut out = code.to_vec();
    out.extend_from_slice(&(data.len() as u16).to_le_bytes());
    out.extend_from_slice(data);
    out
}

#[test]
fn form_id_text_is_fixed_width_hex() {
    assert_eq!(FormId(0x0001_ABCD).to_string(), "0x0001ABCD");
    assert_eq!(FormId(0).to_string(), "0x00000000");
    assert_eq!(FormId(u32::MAX).to_string(), "0xFFFFFFFF");
    assert_eq!(FormId(0x1234_5678).to_string(), format!("{:#010X}", 0x1234_5678u32).replace("0X", "0x"));
}

#[test]
fn scalar_codecs_advance_by_width() {
    let b = [0xfe, 0xff, 0x01, 0x00, 0x02, 0x00, 0x00, 0x80, 0x09];
    assert_eq!((Uint8Parser {}).parse(&b, 0).unwrap(), (0xfe, 1));
    assert_eq!((Int8Parser {}).parse(&b, 0).unwrap(), (-2, 1));
    assert_eq!((Uint16Parser {}).parse(&b, 0).unwrap(), (0xfffe, 2));
    assert_eq!((Int16Parser {}).parse(&b, 0).unwrap(), (-2, 2));
    assert_eq!((Uint32Parser {}).parse(&b, 1).unwrap(), (0x0200_01ff, 5));
    assert_eq!((Int32Parser {}).parse(&b, 4).unwrap(), (i32::MIN + 2, 8));
    assert_eq!((Uint64Parser {}).parse(&b, 0).unwrap(), (0x8000_0002_0001_fffe, 8));
    assert_eq!((Int64Parser {}).parse(&b, 1).unwrap().1, 9);
    assert_eq!((FormIDParser {}).parse(&b, 2).unwrap(), (FormId(0x0002_0001), 6));
    assert_eq!((Uint32Parser {}).parse(&b, 6).unwrap_err(), Error::Truncated);
    assert_eq!((Uint64Parser {}).parse(&b, 2).unwrap_err(), Error::Truncated);
    assert_eq!((Uint8Parser {}).parse(&b, 9).unwrap_err(), Error::Truncated);
    assert_eq!((ZStringParser {}).parse(b"ab\0c", 0).unwrap(), ("ab".to_string(), 3));
}

#[test]
fn read_value_by_kind() {
    assert_eq!(read_value(ValueKind::Uint16, &[1, 2, 3]).unwrap(), Value::Uint16(0x0201));
    assert_eq!(read_value(ValueKind::FormId, &[1, 2, 3, 4]).unwrap(), Value::FormId(FormId(0x04030201)));
    assert_eq!(read_value(ValueKind::ZString, b"Steel\0").unwrap(), Value::ZString("Steel".to_string()));
    assert_eq!(read_value(ValueKind::Int32, &[1, 2, 3]).unwrap_err(), Error::Truncated);
    assert_eq!(read_value(ValueKind::ZString, &[0xff, 0]).unwrap_err(), Error::InvalidUtf8);
}

#[test]
fn layouts_reject_codes_of_other_lengths() {
    assert!(RecordParser::new("KYWD", "Keyword").is_some());
    assert!(RecordParser::new("KYW", "Keyword").is_none());
    assert!(ValueSubrecordParser::new("EDIDX", "Editor ID").is_none());
    let p = ValueSubrecordParser::new("EDID", "Editor ID").unwrap();
    assert_eq!(p.code, TypeCode(*b"EDID"));
    assert_eq!(p.value, None);
    assert_eq!(p.with_value(ValueKind::ZString).value, Some(ValueKind::ZString));
}

#[test]
fn record_layout_reads_named_values() {
    let layout = RecordParser::new("KYWD", "Keyword")
        .unwrap()
        .with_subrecord(
            ValueSubrecordParser::new("EDID", "Editor ID").unwrap().with_value(ValueKind::ZString),
        )
        .with_subrecord(ValueSubrecordParser::new("CNAM", "Color").unwrap().with_value(ValueKind::Uint32))
        .with_subrecord(ValueSubrecordParser::new("DNAM", "Skipped").unwrap());
    let mut p = subrecord(b"EDID", b"ArmorMaterialSteel\0");
    p.extend(subrecord(b"XXXX", &[1]));
    p.extend(subrecord(b"DNAM", &[1, 2]));
    p.extend(subrecord(b"CNAM", &[0x10, 0x20, 0x30, 0x40]));
    let fields = layout.parse(&p).unwrap();
    assert_eq!(
        fields,
        vec![
            ("Editor ID".to_string(), Value::ZString("ArmorMaterialSteel".to_string())),
            ("Color".to_string(), Value::Uint32(0x40302010)),
        ]
    );
    let short = subrecord(b"CNAM", &[1, 2]);
    assert_eq!(layout.parse(&short).unwrap_err(), Error::Truncated);
}

#[test]
fn later_subrecord_layout_takes_precedence() {
    let layout = RecordParser::new("GMST", "Game Setting")
        .unwrap()
        .with_subrecord(ValueSubrecordParser::new("DATA", "Int").unwrap().with_value(ValueKind::Int32))
        .with_subrecord(ValueSubrecordParser::new("DATA", "Byte").unwrap().with_value(ValueKind::Uint8));
    let fields = layout.parse(&subrecord(b"DATA", &[7, 0, 0, 0])).unwrap();
    assert_eq!(fields, vec![("Byte".to_string(), Value::Uint8(7))]);
}

#[test]
fn top_group_category() {
    let mut b = b"GRUP".to_vec();
    b.extend_from_slice(&24u32.to_le_bytes());
    b.extend_from_slice(b"ARMO");
    b.extend_from_slice(&0i32.to_le_bytes());
    b.extend_from_slice(&[0; 8]);
    let (g, _) = group(&b, 0).unwrap();
    assert_eq!(g.category().to_string(), "ARMO");
}

