use vstd::prelude::*;

use crate::chunk::{ChunkError, ConstantModel, HeaderField, LocVarModel, ProtoModel, Upvalue};

verus! {

/// What a successful read yields: the value and the number of bytes consumed.
pub type Parsed<T> = Result<(T, nat), ChunkError>;

/// Number of header bytes that are compared with fixed values.
pub const HEADER_SIZE: usize = 33;

/// Offset of the main function's record: the header and the byte after it.
pub const MAIN_PROTO_OFFSET: usize = 34;

/// The text that UTF-8 decoding of `b` yields, or `None` where `b` is not valid UTF-8.
pub uninterp spec fn utf8_decoded(b: Seq<u8>) -> Option<Seq<char>>;

/// The header bytes this loader accepts: signature `\x1bLua`, version 5.3,
/// the official format, the conversion-check data, the sizes of C `int`,
/// `size_t`, instructions, integers and floats, then the integer 0x5678
/// and the float 370.5, least significant byte first.
pub open spec fn header_bytes() -> Seq<u8> {
    seq![
        0x1Bu8, 0x4C, 0x75, 0x61,
        0x53,
        0x00,
        0x19, 0x93, 0x0D, 0x0A, 0x1A, 0x0A,
        0x04, 0x08, 0x04, 0x08, 0x08,
        0x78, 0x56, 0x00, 0x00, 0x00, 0x00, 0x00, 0x00,
        0x00, 0x00, 0x00, 0x00, 0x00, 0x28, 0x77, 0x40,
    ]
}

/// Number of header fields.
pub const HEADER_FIELDS: usize = 11;

/// Start, width and name of header field `k`, in the order they are checked.
pub open spec fn header_field(k: int) -> (nat, nat, HeaderField) {
    if k == 0 {
        (0, 4, HeaderField::Signature)
    } else if k == 1 {
        (4, 1, HeaderField::Version)
    } else if k == 2 {
        (5, 1, HeaderField::Format)
    } else if k == 3 {
        (6, 6, HeaderField::LuacData)
    } else if k == 4 {
        (12, 1, HeaderField::CIntSize)
    } else if k == 5 {
        (13, 1, HeaderField::SizeTSize)
    } else if k == 6 {
        (14, 1, HeaderField::InstructionSize)
    } else if k == 7 {
        (15, 1, HeaderField::IntegerSize)
    } else if k == 8 {
        (16, 1, HeaderField::NumberSize)
    } else if k == 9 {
        (17, 8, HeaderField::Endianness)
    } else {
        (25, 8, HeaderField::FloatFormat)
    }
}

/// Outcome of checking header fields `k` onward, each in turn: the buffer
/// ends inside the field, or the field differs from `header_bytes`, or the
/// next field is checked.
pub open spec fn header_status_from(d: Seq<u8>, k: nat) -> Result<(), ChunkError>
    decreases HEADER_FIELDS - k,
{
    if k >= HEADER_FIELDS {
        Ok(())
    } else {
        let (start, width, field) = header_field(k as int);
        if d.len() < start + width {
            Err(ChunkError::UnexpectedEof)
        } else if d.subrange(start as int, (start + width) as int) != header_bytes().subrange(
            start as int,
            (start + width) as int,
        ) {
            Err(ChunkError::HeaderMismatch(field))
        } else {
            header_status_from(d, k + 1)
        }
    }
}

/// Outcome of checking the header at the front of `d`.
pub open spec fn header_status(d: Seq<u8>) -> Result<(), ChunkError> {
    header_status_from(d, 0)
}

/// Unsigned 32-bit integer stored at `p`, least significant byte first.
pub open spec fn u32_at(d: Seq<u8>, p: nat) -> u32 {
    let i = p as int;
    (d[i] + 0x100 * d[i + 1] + 0x10000 * d[i + 2] + 0x1000000 * d[i + 3]) as u32
}

/// Unsigned 64-bit integer stored at `p`, least significant byte first.
pub open spec fn u64_at(d: Seq<u8>, p: nat) -> u64 {
    (u32_at(d, p) + 0x100000000 * u32_at(d, p + 4)) as u64
}

pub open spec fn parse_byte(d: Seq<u8>, p: nat) -> Parsed<u8> {
    if p + 1 <= d.len() {
        Ok((d[p as int], 1))
    } else {
        Err(ChunkError::UnexpectedEof)
    }
}

pub open spec fn parse_u32(d: Seq<u8>, p: nat) -> Parsed<u32> {
    if p + 4 <= d.len() {
        Ok((u32_at(d, p), 4))
    } else {
        Err(ChunkError::UnexpectedEof)
    }
}

pub open spec fn parse_u64(d: Seq<u8>, p: nat) -> Parsed<u64> {
    if p + 8 <= d.len() {
        Ok((u64_at(d, p), 8))
    } else {
        Err(ChunkError::UnexpectedEof)
    }
}

/// Signed 64-bit integer: the two's complement reading of the unsigned one.
pub open spec fn parse_i64(d: Seq<u8>, p: nat) -> Parsed<i64> {
    if p + 8 <= d.len() {
        Ok((u64_at(d, p) as i64, 8))
    } else {
        Err(ChunkError::UnexpectedEof)
    }
}

/// The text of a string whose size value is `size` and whose bytes start at
/// `p`, after a prefix of `prefix` bytes. Size 0 is the empty (or absent)
/// string; otherwise the text has `size - 1` bytes.
pub open spec fn string_body(d: Seq<u8>, p: nat, size: nat, prefix: nat) -> Parsed<Seq<char>> {
    if size == 0 {
        Ok((Seq::empty(), prefix))
    } else if p + (size - 1) > d.len() {
        Err(ChunkError::UnexpectedEof)
    } else {
        match utf8_decoded(d.subrange(p as int, p + size - 1int)) {
            Some(s) => Ok((s, prefix + (size - 1) as nat)),
            None => Err(ChunkError::InvalidEncoding),
        }
    }
}

/// A string: one size byte, or 0xFF followed by an 8-byte size, then the text.
pub open spec fn parse_string(d: Seq<u8>, p: nat) -> Parsed<Seq<char>> {
    if p + 1 > d.len() {
        Err(ChunkError::UnexpectedEof)
    } else if d[p as int] == 0xFF {
        if p + 9 > d.len() {
            Err(ChunkError::UnexpectedEof)
        } else {
            string_body(d, p + 9, u64_at(d, p + 1) as nat, 9)
        }
    } else {
        string_body(d, p + 1, d[p as int] as nat, 1)
    }
}

/// A constant: a tag byte, then the value that the tag announces.
pub open spec fn parse_constant(d: Seq<u8>, p: nat) -> Parsed<ConstantModel> {
    if p + 1 > d.len() {
        Err(ChunkError::UnexpectedEof)
    } else {
        let tag = d[p as int];
        if tag == 0x00 {
            Ok((ConstantModel::Nil, 1))
        } else if tag == 0x01 {
            match parse_byte(d, p + 1) {
                Ok((b, c)) => Ok((ConstantModel::Boolean(b != 0), 1 + c)),
                Err(e) => Err(e),
            }
        } else if tag == 0x03 {
            match parse_i64(d, p + 1) {
                Ok((i, c)) => Ok((ConstantModel::Integer(i), 1 + c)),
                Err(e) => Err(e),
            }
        } else if tag == 0x13 {
            match parse_u64(d, p + 1) {
                Ok((bits, c)) => Ok((ConstantModel::Number(bits), 1 + c)),
                Err(e) => Err(e),
            }
        } else if tag == 0x04 {
            match parse_string(d, p + 1) {
                Ok((s, c)) => Ok((ConstantModel::ShortString(s), 1 + c)),
                Err(e) => Err(e),
            }
        } else if tag == 0x14 {
            match parse_string(d, p + 1) {
                Ok((s, c)) => Ok((ConstantModel::LongString(s), 1 + c)),
                Err(e) => Err(e),
            }
        } else {
            Err(ChunkError::CorruptConstant(tag))
        }
    }
}

/// An upvalue descriptor: two bytes, read as they are.
pub open spec fn parse_upvalue(d: Seq<u8>, p: nat) -> Parsed<Upvalue> {
    if p + 2 > d.len() {
        Err(ChunkError::UnexpectedEof)
    } else {
        Ok((Upvalue { in_stack: d[p as int], idx: d[p + 1int] }, 2))
    }
}

/// A local variable record: its name, then the two bounds of its range.
pub open spec fn parse_loc_var(d: Seq<u8>, p: nat) -> Parsed<LocVarModel> {
    match parse_string(d, p) {
        Err(e) => Err(e),
        Ok((name, c)) => if p + c + 8 > d.len() {
            Err(ChunkError::UnexpectedEof)
        } else {
            Ok((
                LocVarModel {
                    var_name: name,
                    start_pc: u32_at(d, p + c),
                    end_pc: u32_at(d, p + c + 4),
                },
                c + 8,
            ))
        },
    }
}

/// Prepends the items `xs`, which took `c` bytes, to the outcome `r` of the reads after them.
pub open spec fn prepend<T>(xs: Seq<T>, c: nat, r: Parsed<Seq<T>>) -> Parsed<Seq<T>> {
    match r {
        Ok((ys, c2)) => Ok((xs + ys, c + c2)),
        Err(e) => Err(e),
    }
}

/// `n` items read one after another with `item`.
pub open spec fn parse_many<T>(
    d: Seq<u8>,
    p: nat,
    n: nat,
    item: spec_fn(Seq<u8>, nat) -> Parsed<T>,
) -> Parsed<Seq<T>>
    decreases n,
{
    if n == 0 {
        Ok((Seq::empty(), 0))
    } else {
        match item(d, p) {
            Err(e) => Err(e),
            Ok((x, c)) => prepend(seq![x], c, parse_many(d, p + c, (n - 1) as nat, item)),
        }
    }
}

/// Reading one more item moves it from the outcome of the remaining reads to
/// the items already read.
pub proof fn lemma_many_step<T>(
    d: Seq<u8>,
    p: nat,
    n: nat,
    item: spec_fn(Seq<u8>, nat) -> Parsed<T>,
    acc: Seq<T>,
    c0: nat,
)
    requires
        n > 0,
        item(d, p) is Ok,
    ensures
        prepend(acc, c0, parse_many(d, p, n, item)) == prepend(
            acc.push(item(d, p)->Ok_0.0),
            c0 + item(d, p)->Ok_0.1,
            parse_many(d, p + item(d, p)->Ok_0.1, (n - 1) as nat, item),
        ),
{
    let (x, c) = item(d, p)->Ok_0;
    if let Ok((ys, c2)) = parse_many(d, p + c, (n - 1) as nat, item) {
        assert(acc + (seq![x] + ys) =~= acc.push(x) + ys);
    }
}

/// A failed item read fails the whole sequence with the same error.
pub proof fn lemma_many_err<T>(d: Seq<u8>, p: nat, n: nat, item: spec_fn(Seq<u8>, nat) -> Parsed<T>)
    requires
        n > 0,
        item(d, p) is Err,
    ensures
        parse_many(d, p, n, item) == Parsed::<Seq<T>>::Err(item(d, p)->Err_0),
{
}

/// A 4-byte count, then that many items read with `item`.
pub open spec fn parse_counted<T>(
    d: Seq<u8>,
    p: nat,
    item: spec_fn(Seq<u8>, nat) -> Parsed<T>,
) -> Parsed<Seq<T>> {
    match parse_u32(d, p) {
        Err(e) => Err(e),
        Ok((n, c)) => prepend(Seq::empty(), c, parse_many(d, p + c, n as nat, item)),
    }
}

pub open spec fn u32_item() -> spec_fn(Seq<u8>, nat) -> Parsed<u32> {
    |d: Seq<u8>, p: nat| parse_u32(d, p)
}

pub open spec fn constant_item() -> spec_fn(Seq<u8>, nat) -> Parsed<ConstantModel> {
    |d: Seq<u8>, p: nat| parse_constant(d, p)
}

pub open spec fn upvalue_item() -> spec_fn(Seq<u8>, nat) -> Parsed<Upvalue> {
    |d: Seq<u8>, p: nat| parse_upvalue(d, p)
}

pub open spec fn loc_var_item() -> spec_fn(Seq<u8>, nat) -> Parsed<LocVarModel> {
    |d: Seq<u8>, p: nat| parse_loc_var(d, p)
}

pub open spec fn string_item() -> spec_fn(Seq<u8>, nat) -> Parsed<Seq<char>> {
    |d: Seq<u8>, p: nat| parse_string(d, p)
}

/// Bytes left after position `p`.
pub open spec fn left(d: Seq<u8>, p: nat) -> nat {
    if p <= d.len() {
        (d.len() - p) as nat
    } else {
        0
    }
}

/// The fields of a function record that follow its nested functions, given
/// everything read before them.
pub open spec fn proto_tail(d: Seq<u8>, p: nat, m: ProtoModel) -> Parsed<ProtoModel> {
    match parse_counted(d, p, u32_item()) {
        Err(e) => Err(e),
        Ok((line_info, c1)) => match parse_counted(d, p + c1, loc_var_item()) {
            Err(e) => Err(e),
            Ok((loc_vars, c2)) => match parse_counted(d, p + c1 + c2, string_item()) {
                Err(e) => Err(e),
                Ok((names, c3)) => Ok((
                    ProtoModel { line_info, loc_vars, upvalue_names: names, ..m },
                    c1 + c2 + c3,
                )),
            },
        },
    }
}

/// The fields of a function record that precede its nested functions: the
/// source name (falling back to `parent` when the stored one is empty), the
/// fixed-width fields, the instructions, the constants and the upvalues.
/// The fields read later are left empty.
pub open spec fn parse_proto_head(d: Seq<u8>, p: nat, parent: Seq<char>) -> Parsed<ProtoModel> {
    match parse_string(d, p) {
        Err(e) => Err(e),
        Ok((own, c0)) => {
            let q = p + c0;
            if q + 11 > d.len() {
                Err(ChunkError::UnexpectedEof)
            } else {
                match parse_counted(d, q + 11, u32_item()) {
                    Err(e) => Err(e),
                    Ok((code, c1)) => match parse_counted(d, q + 11 + c1, constant_item()) {
                        Err(e) => Err(e),
                        Ok((constants, c2)) => match parse_counted(
                            d,
                            q + 11 + c1 + c2,
                            upvalue_item(),
                        ) {
                            Err(e) => Err(e),
                            Ok((upvalues, c3)) => Ok((
                                ProtoModel {
                                    source: if own.len() == 0 {
                                        parent
                                    } else {
                                        own
                                    },
                                    line_defined: u32_at(d, q),
                                    last_line_defined: u32_at(d, q + 4),
                                    num_params: d[q + 8int],
                                    is_vararg: d[q + 9int],
                                    max_stack_size: d[q + 10int],
                                    code,
                                    constants,
                                    upvalues,
                                    protos: Seq::empty(),
                                    line_info: Seq::empty(),
                                    loc_vars: Seq::empty(),
                                    upvalue_names: Seq::empty(),
                                },
                                c0 + 11 + c1 + c2 + c3,
                            )),
                        },
                    },
                }
            }
        },
    }
}

/// A function record: its head, a count and that many nested records (which
/// fall back to this record's source name), then its debug tail.
pub open spec fn parse_proto(d: Seq<u8>, p: nat, parent: Seq<char>) -> Parsed<ProtoModel>
    decreases left(d, p), 0nat, 0nat,
{
    match parse_proto_head(d, p, parent) {
        Err(e) => Err(e),
        Ok((m, c)) => {
            let r = p + c;
            if r + 4 > d.len() {
                Err(ChunkError::UnexpectedEof)
            } else {
                match parse_protos(d, r + 4, u32_at(d, r) as nat, m.source) {
                    Err(e) => Err(e),
                    Ok((protos, c4)) => match proto_tail(d, r + 4 + c4, ProtoModel { protos, ..m }) {
                        Err(e) => Err(e),
                        Ok((m2, c5)) => Ok((m2, c + 4 + c4 + c5)),
                    },
                }
            }
        },
    }
}

/// `n` function records read one after another, each with `parent` as the
/// source name to fall back to.
pub open spec fn parse_protos(d: Seq<u8>, p: nat, n: nat, parent: Seq<char>) -> Parsed<
    Seq<ProtoModel>,
>
    decreases left(d, p), 1nat, n,
{
    if n == 0 {
        Ok((Seq::empty(), 0))
    } else {
        match parse_proto(d, p, parent) {
            Err(e) => Err(e),
            Ok((m, c)) => prepend(seq![m], c, parse_protos(d, p + c, (n - 1) as nat, parent)),
        }
    }
}

/// Reading one more function record moves it from the outcome of the
/// remaining reads to the records already read.
pub proof fn lemma_protos_step(
    d: Seq<u8>,
    p: nat,
    n: nat,
    parent: Seq<char>,
    acc: Seq<ProtoModel>,
    c0: nat,
)
    requires
        n > 0,
        parse_proto(d, p, parent) is Ok,
    ensures
        prepend(acc, c0, parse_protos(d, p, n, parent)) == prepend(
            acc.push(parse_proto(d, p, parent)->Ok_0.0),
            c0 + parse_proto(d, p, parent)->Ok_0.1,
            parse_protos(d, p + parse_proto(d, p, parent)->Ok_0.1, (n - 1) as nat, parent),
        ),
{
    let (x, c) = parse_proto(d, p, parent)->Ok_0;
    if let Ok((ys, c2)) = parse_protos(d, p + c, (n - 1) as nat, parent) {
        assert(acc + (seq![x] + ys) =~= acc.push(x) + ys);
    }
}

/// A whole chunk: the header, one further byte (the main function's upvalue
/// count, which the function record repeats), then the main function, whose
/// source name falls back to the empty string. Bytes after it are ignored.
pub open spec fn parse_chunk(d: Seq<u8>) -> Result<ProtoModel, ChunkError> {
    match header_status(d) {
        Err(e) => Err(e),
        Ok(_) => if d.len() < MAIN_PROTO_OFFSET {
            Err(ChunkError::UnexpectedEof)
        } else {
            match parse_proto(d, MAIN_PROTO_OFFSET as nat, Seq::empty()) {
                Ok((m, _)) => Ok(m),
                Err(e) => Err(e),
            }
        },
    }
}

} // verus!
