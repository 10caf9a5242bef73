use binchunk::{un_dump, ChunkError, Constant, HeaderField, Prototype, Reader};

fn header() -> Vec<u8> {
    let mut h = vec![0x1B, 0x4C, 0x75, 0x61, 0x53, 0x00, 0x19, 0x93, 0x0D, 0x0A, 0x1A, 0x0A];
    h.extend_from_slice(&[4, 8, 4, 8, 8]);
    h.extend_from_slice(&0x5678i64.to_le_bytes());
    h.extend_from_slice(&370.5f64.to_le_bytes());
    h
}

fn u32b(out: &mut Vec<u8>, v: u32) {
    out.extend_from_slice(&v.to_le_bytes());
}

fn string(out: &mut Vec<u8>, s: &str) {
    if s.is_empty() {
        out.push(0);
    } else {
        out.push((s.len() + 1) as u8);
        out.extend_from_slice(s.as_bytes());
    }
}

/// A function record with one instruction, three constants, one upvalue, the
/// given nested records and full debug information.
fn proto(source: &str, line: u32, children: &[Vec<u8>]) -> Vec<u8> {
    let mut out = Vec::new();
    string(&mut out, source);
    u32b(&mut out, line);
    u32b(&mut out, line + 2);
    out.extend_from_slice(&[1, 0, 3]);
    u32b(&mut out, 1);
    u32b(&mut out, 0x0080_0026);
    u32b(&mut out, 3);
    out.push(0x01);
    out.push(1);
    out.push(0x03);
    out.extend_from_slice(&(-7i64).to_le_bytes());
    out.push(0x04);
    string(&mut out, "hi");
    u32b(&mut out, 1);
    out.extend_from_slice(&[1, 0]);
    u32b(&mut out, children.len() as u32);
    for c in children {
        out.extend_from_slice(c);
    }
    u32b(&mut out, 1);
    u32b(&mut out, line + 1);
    u32b(&mut out, 1);
    string(&mut out, "x");
    u32b(&mut out, 0);
    u32b(&mut out, 1);
    u32b(&mut out, 1);
    string(&mut out, "_ENV");
    out
}

fn chunk(main: Vec<u8>) -> Vec<u8> {
    let mut out = header();
    out.push(1);
    out.extend_from_slice(&main);
    out
}

fn sample() -> Vec<u8> {
    let inner = proto("", 3, &[]);
    let own = proto("@other.lua", 9, &[]);
    chunk(proto("@main.lua", 0, &[inner, own]))
}

#[test]
fn loads_a_whole_chunk() {
    let p: Prototype = un_dump(&sample()).unwrap();
    assert_eq!(p.source, "@main.lua");
    assert_eq!(p.line_defined, 0);
    assert_eq!(p.last_line_defined, 2);
    assert_eq!((p.num_params, p.is_vararg, p.max_stack_size), (1, 0, 3));
    assert_eq!(p.code, vec![0x0080_0026]);
    assert_eq!(p.constants.len(), 3);
    assert!(matches!(p.constants[0], Constant::Boolean(true)));
    assert!(matches!(p.constants[1], Constant::Integer(-7)));
    assert!(matches!(&p.constants[2], Constant::ShortString(s) if s == "hi"));
    assert_eq!(p.upvalues.len(), 1);
    assert_eq!((p.upvalues[0].in_stack, p.upvalues[0].idx), (1, 0));
    assert_eq!(p.line_info, vec![1]);
    assert_eq!(p.loc_vars.len(), 1);
    assert_eq!(p.loc_vars[0].var_name, "x");
    assert_eq!((p.loc_vars[0].start_pc, p.loc_vars[0].end_pc), (0, 1));
    assert_eq!(p.upvalue_names, vec!["_ENV".to_string()]);
    assert_eq!(p.protos.len(), 2);
}

#[test]
fn nested_source_is_inherited_when_empty() {
    let p = un_dump(&sample()).unwrap();
    assert_eq!(p.protos[0].source, "@main.lua");
    assert_eq!(p.protos[0].line_defined, 3);
}

#[test]
fn nested_source_is_kept_when_present() {
    let p = un_dump(&sample()).unwrap();
    assert_eq!(p.protos[1].source, "@other.lua");
}

#[test]
fn main_source_may_be_empty() {
    let p = un_dump(&chunk(proto("", 0, &[]))).unwrap();
    assert_eq!(p.source, "");
}

#[test]
fn valid_header_passes() {
    assert!(un_dump(&sample()).is_ok());
}

#[test]
fn every_mutated_header_byte_is_a_mismatch() {
    let good = sample();
    for i in 0..33 {
        let mut bad = good.clone();
        bad[i] ^= 0x01;
        match un_dump(&bad) {
            Err(ChunkError::HeaderMismatch(_)) => {}
            other => panic!("byte {} gave {:?}", i, other.map(|p| p.source)),
        }
    }
}

#[test]
fn header_mismatch_names_the_field() {
    let good = sample();
    let cases: [(usize, HeaderField); 11] = [
        (0, HeaderField::Signature),
        (4, HeaderField::Version),
        (5, HeaderField::Format),
        (8, HeaderField::LuacData),
        (12, HeaderField::CIntSize),
        (13, HeaderField::SizeTSize),
        (14, HeaderField::InstructionSize),
        (15, HeaderField::IntegerSize),
        (16, HeaderField::NumberSize),
        (17, HeaderField::Endianness),
        (30, HeaderField::FloatFormat),
    ];
    for (i, field) in cases {
        let mut bad = good.clone();
        bad[i] = bad[i].wrapping_add(1);
        assert_eq!(un_dump(&bad).unwrap_err(), ChunkError::HeaderMismatch(field));
    }
}

#[test]
fn big_endian_canary_is_rejected() {
    let mut bad = sample();
    bad[17..25].copy_from_slice(&0x5678i64.to_be_bytes());
    assert_eq!(un_dump(&bad).unwrap_err(), ChunkError::HeaderMismatch(HeaderField::Endianness));
}

#[test]
fn every_truncation_is_unexpected_eof() {
    let full = sample();
    for k in 0..full.len() {
        assert_eq!(un_dump(&full[..k]).unwrap_err(), ChunkError::UnexpectedEof, "prefix {}", k);
    }
}

#[test]
fn empty_buffer_is_unexpected_eof() {
    assert_eq!(un_dump(&[]).unwrap_err(), ChunkError::UnexpectedEof);
}

#[test]
fn unknown_constant_tag_is_corrupt() {
    let mut main = Vec::new();
    string(&mut main, "@c.lua");
    u32b(&mut main, 0);
    u32b(&mut main, 0);
    main.extend_from_slice(&[0, 1, 2]);
    u32b(&mut main, 0);
    u32b(&mut main, 1);
    main.push(0x02);
    main.extend_from_slice(&[0; 64]);
    assert_eq!(un_dump(&chunk(main)).unwrap_err(), ChunkError::CorruptConstant(0x02));
}

#[test]
fn all_constant_kinds_decode() {
    let mut r = Reader::new(&[0x00]);
    assert!(matches!(r.read_constant(), Ok(Constant::Nil)));
    let mut r = Reader::new(&[0x01, 0x00]);
    assert!(matches!(r.read_constant(), Ok(Constant::Boolean(false))));
    let mut bytes = vec![0x13];
    bytes.extend_from_slice(&370.5f64.to_le_bytes());
    let mut r = Reader::new(&bytes);
    match r.read_constant() {
        Ok(Constant::Number(bits)) => assert_eq!(f64::from_bits(bits), 370.5),
        _ => panic!("expected a number"),
    }
    let mut r = Reader::new(&[0x14, 3, b'o', b'k']);
    assert!(matches!(r.read_constant(), Ok(Constant::LongString(s)) if s == "ok"));
    assert_eq!(r.pos, 4);
}

#[test]
fn string_size_zero_is_empty_and_takes_one_byte() {
    let mut r = Reader::new(&[0, 7, 7]);
    assert_eq!(r.read_string().unwrap(), "");
    assert_eq!(r.pos, 1);
}

#[test]
fn string_size_five_reads_four_bytes() {
    let mut r = Reader::new(&[5, b'a', b'b', b'c', b'd', b'e']);
    assert_eq!(r.read_string().unwrap(), "abcd");
    assert_eq!(r.pos, 5);
}

#[test]
fn long_string_size_reads_size_minus_one_bytes() {
    let mut bytes = vec![0xFF];
    bytes.extend_from_slice(&1000u64.to_le_bytes());
    bytes.extend(std::iter::repeat(b'z').take(999));
    let mut r = Reader::new(&bytes);
    let s = r.read_string().unwrap();
    assert_eq!(s.len(), 999);
    assert!(s.bytes().all(|b| b == b'z'));
    assert_eq!(r.pos, 1008);
}

#[test]
fn string_cut_short_is_unexpected_eof() {
    let mut r = Reader::new(&[5, b'a', b'b']);
    assert_eq!(r.read_string().unwrap_err(), ChunkError::UnexpectedEof);
}

#[test]
fn invalid_utf8_is_invalid_encoding() {
    let mut r = Reader::new(&[3, 0xC3, 0x28]);
    assert_eq!(r.read_string().unwrap_err(), ChunkError::InvalidEncoding);
}

#[test]
fn multibyte_utf8_decodes_to_text() {
    let mut r = Reader::new(&[3, 0xC3, 0xA9]);
    assert_eq!(r.read_string().unwrap(), "\u{e9}");
}

#[test]
fn fixed_width_reads_are_little_endian() {
    let mut r = Reader::new(&[0x78, 0x56, 0x34, 0x12, 1, 0, 0, 0, 0, 0, 0, 0x80, 0xFF]);
    assert_eq!(r.read_u32().unwrap(), 0x1234_5678);
    assert_eq!(r.read_u64().unwrap(), 0x8000_0000_0000_0001);
    assert_eq!(r.read_byte().unwrap(), 0xFF);
    assert_eq!(r.read_byte().unwrap_err(), ChunkError::UnexpectedEof);
    let mut r = Reader::new(&(-2i64).to_le_bytes());
    assert_eq!(r.read_lua_integer().unwrap(), -2);
}
