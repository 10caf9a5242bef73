use vstd::prelude::*;
use vstd::slice::{slice_subrange, slice_to_vec};

use crate::chunk::{
    lemma_proto_model, ChunkError, Constant, HeaderField, LocVar, ProtoModel, Prototype, Upvalue,
};
use crate::format::{
    constant_item, header_bytes, header_field, header_status, header_status_from,
    lemma_many_err, lemma_many_step, lemma_protos_step, loc_var_item, parse_byte, parse_chunk,
    parse_constant, parse_counted, parse_i64, parse_loc_var, parse_many, parse_proto,
    parse_proto_head, parse_protos, parse_string, parse_u32, parse_u64, parse_upvalue, prepend,
    proto_tail, string_body, string_item, u32_item, upvalue_item, utf8_decoded, HEADER_FIELDS,
    HEADER_SIZE, Parsed,
};

verus! {

/// Relies on `String::from_utf8`: it returns the decoded text when the bytes
/// are valid UTF-8 and an error otherwise; an empty byte sequence is valid
/// and decodes to the empty string.
#[verifier::external_body]
fn decode_utf8(bytes: Vec<u8>) -> (r: Option<String>)
    ensures
        r.is_some() == utf8_decoded(bytes@).is_some(),
        r.is_some() ==> r.unwrap()@ == utf8_decoded(bytes@).unwrap(),
        bytes@.len() == 0 ==> r.is_some() && r.unwrap()@.len() == 0,
{
    match String::from_utf8(bytes) {
        Ok(s) => Some(s),
        Err(_) => None,
    }
}

/// Byte `i` of the accepted header.
fn header_byte(i: usize) -> (r: u8)
    requires
        i < HEADER_SIZE,
    ensures
        r == header_bytes()[i as int],
{
    let bytes: [u8; 33] = [
        0x1B, 0x4C, 0x75, 0x61,
        0x53,
        0x00,
        0x19, 0x93, 0x0D, 0x0A, 0x1A, 0x0A,
        0x04, 0x08, 0x04, 0x08, 0x08,
        0x78, 0x56, 0x00, 0x00, 0x00, 0x00, 0x00, 0x00,
        0x00, 0x00, 0x00, 0x00, 0x00, 0x28, 0x77, 0x40,
    ];
    assert(bytes@ == header_bytes());
    bytes[i]
}

/// Start, width and name of header field `k`.
fn header_field_span(k: usize) -> (r: (usize, usize, HeaderField))
    requires
        k < HEADER_FIELDS,
    ensures
        r.0 == header_field(k as int).0,
        r.1 == header_field(k as int).1,
        r.2 == header_field(k as int).2,
        r.0 + r.1 <= HEADER_SIZE,
{
    if k == 0 {
        (0, 4, HeaderField::Signature)
    } else if k == 1 {
        (4, 1, HeaderField::Version)
    } else if k == 2 {
        (5, 1, HeaderField::Format)
    } else if k == 3 {
        (6, 6, HeaderField::LuacData)
    } else if k == 4 {
        (12, 1, HeaderField::CIntSize)
    } else if k == 5 {
        (13, 1, HeaderField::SizeTSize)
    } else if k == 6 {
        (14, 1, HeaderField::InstructionSize)
    } else if k == 7 {
        (15, 1, HeaderField::IntegerSize)
    } else if k == 8 {
        (16, 1, HeaderField::NumberSize)
    } else if k == 9 {
        (17, 8, HeaderField::Endianness)
    } else {
        (25, 8, HeaderField::FloatFormat)
    }
}

/// A read of a value from `before` to `after`: the buffer is kept, the
/// position moves forward only, and the value read is what `expected`
/// describes, together with the number of bytes it took.
pub open spec fn read_outcome<T: DeepView>(
    before: Reader,
    after: Reader,
    expected: Parsed<T::V>,
    r: &Result<T, ChunkError>,
) -> bool {
    &&& after.data@ == before.data@
    &&& before.pos <= after.pos <= after.data@.len()
    &&& match r {
        Ok(v) => expected == Parsed::<T::V>::Ok((v.deep_view(), (after.pos - before.pos) as nat)),
        Err(e) => expected == Parsed::<T::V>::Err(*e),
    }
}

/// A cursor over an owned copy of the chunk's bytes.
pub struct Reader {
    pub data: Vec<u8>,
    pub pos: usize,
}

impl Reader {
    pub open spec fn wf(&self) -> bool {
        self.pos <= self.data@.len()
    }

    pub open spec fn at(&self) -> nat {
        self.pos as nat
    }

    pub fn new(data: &[u8]) -> (r: Reader)
        ensures
            r.data@ == data@,
            r.pos == 0,
    {
        Reader { data: slice_to_vec(data), pos: 0 }
    }

    pub fn read_byte(&mut self) -> (r: Result<u8, ChunkError>)
        requires
            old(self).wf(),
        ensures
            read_outcome(*old(self), *final(self), parse_byte(old(self).data@, old(self).at()), &r),
    {
        if self.data.len() - self.pos < 1 {
            return Err(ChunkError::UnexpectedEof);
        }
        let b = self.data[self.pos];
        self.pos = self.pos + 1;
        Ok(b)
    }

    pub fn read_u32(&mut self) -> (r: Result<u32, ChunkError>)
        requires
            old(self).wf(),
        ensures
            read_outcome(*old(self), *final(self), parse_u32(old(self).data@, old(self).at()), &r),
    {
        if self.data.len() - self.pos < 4 {
            return Err(ChunkError::UnexpectedEof);
        }
        let p = self.pos;
        let b0 = self.data[p] as u32;
        let b1 = self.data[p + 1] as u32;
        let b2 = self.data[p + 2] as u32;
        let b3 = self.data[p + 3] as u32;
        self.pos = p + 4;
        Ok(b0 + 0x100 * b1 + 0x10000 * b2 + 0x1000000 * b3)
    }

    pub fn read_u64(&mut self) -> (r: Result<u64, ChunkError>)
        requires
            old(self).wf(),
        ensures
            read_outcome(*old(self), *final(self), parse_u64(old(self).data@, old(self).at()), &r),
    {
        if self.data.len() - self.pos < 8 {
            return Err(ChunkError::UnexpectedEof);
        }
        let lo = self.read_u32()?;
        let hi = self.read_u32()?;
        Ok(lo as u64 + 0x100000000 * hi as u64)
    }

    pub fn read_lua_integer(&mut self) -> (r: Result<i64, ChunkError>)
        requires
            old(self).wf(),
        ensures
            read_outcome(*old(self), *final(self), parse_i64(old(self).data@, old(self).at()), &r),
    {
        let v = self.read_u64()?;
        Ok(v as i64)
    }

    /// Reads `n` raw bytes.
    pub fn read_bytes(&mut self, n: usize) -> (r: Result<Vec<u8>, ChunkError>)
        requires
            old(self).wf(),
        ensures
            final(self).data@ == old(self).data@,
            final(self).wf(),
            old(self).pos + n <= old(self).data@.len() ==> (r matches Ok(v) && v@
                == old(self).data@.subrange(old(self).pos as int, old(self).pos + n)
                && final(self).pos == old(self).pos + n),
            old(self).pos + n > old(self).data@.len() ==> r == Err::<Vec<u8>, ChunkError>(
                ChunkError::UnexpectedEof,
            ),
    {
        if self.data.len() - self.pos < n {
            return Err(ChunkError::UnexpectedEof);
        }
        let p = self.pos;
        let v = slice_to_vec(slice_subrange(self.data.as_slice(), p, p + n));
        self.pos = p + n;
        Ok(v)
    }

    /// Reads a string: a size byte, or 0xFF and an 8-byte size; size 0 is
    /// the empty string, any other size is followed by `size - 1` bytes of
    /// UTF-8 text.
    pub fn read_string(&mut self) -> (r: Result<String, ChunkError>)
        requires
            old(self).wf(),
        ensures
            read_outcome(*old(self), *final(self), parse_string(old(self).data@, old(self).at()), &r),
    {
        let ghost d = self.data@;
        let ghost p = self.at();
        let hint = self.read_byte()?;
        let size: u64 = if hint == 0xFF {
            self.read_u64()?
        } else {
            hint as u64
        };
        let ghost prefix = (self.pos - p) as nat;
        assert(parse_string(d, p) == string_body(d, self.at(), size as nat, prefix));
        if size == 0 {
            return Ok(String::new());
        }
        let n = size - 1;
        if n > (self.data.len() - self.pos) as u64 {
            return Err(ChunkError::UnexpectedEof);
        }
        let bytes = self.read_bytes(n as usize)?;
        match decode_utf8(bytes) {
            Some(s) => Ok(s),
            None => Err(ChunkError::InvalidEncoding),
        }
    }

    /// Checks the header fields in order and stops at the first that the
    /// buffer cuts short or that differs from the accepted bytes.
    pub fn check_head(&mut self) -> (r: Result<(), ChunkError>)
        requires
            old(self).wf(),
            old(self).pos == 0,
        ensures
            final(self).data@ == old(self).data@,
            final(self).wf(),
            r == header_status(old(self).data@),
            r is Ok ==> final(self).pos == HEADER_SIZE,
    {
        let ghost d = self.data@;
        let mut k: usize = 0;
        while k < HEADER_FIELDS
            invariant
                self.data@ == d,
                self.pos == 0,
                k <= HEADER_FIELDS,
                header_status(d) == header_status_from(d, k as nat),
                k > 0 ==> d.len() >= header_field(k - 1).0 + header_field(k - 1).1,
            decreases HEADER_FIELDS - k,
        {
            let (start, width, field) = header_field_span(k);
            if self.data.len() < start + width {
                return Err(ChunkError::UnexpectedEof);
            }
            let mut j: usize = 0;
            while j < width
                invariant
                    self.data@ == d,
                    self.pos == 0,
                    k < HEADER_FIELDS,
                    header_status(d) == header_status_from(d, k as nat),
                    start == header_field(k as int).0,
                    width == header_field(k as int).1,
                    field == header_field(k as int).2,
                    start + width <= d.len(),
                    start + width <= HEADER_SIZE,
                    j <= width,
                    forall|i: int| start <= i < start + j ==> d[i] == header_bytes()[i],
                decreases width - j,
            {
                if self.data[start + j] != header_byte(start + j) {
                    assert(d.subrange(start as int, (start + width) as int)[j as int]
                        != header_bytes().subrange(start as int, (start + width) as int)[j as int]);
                    return Err(ChunkError::HeaderMismatch(field));
                }
                j = j + 1;
            }
            assert(d.subrange(start as int, (start + width) as int) =~= header_bytes().subrange(
                start as int,
                (start + width) as int,
            ));
            k = k + 1;
        }
        self.pos = HEADER_SIZE;
        Ok(())
    }

    /// Reads a count, then that many instruction words.
    pub fn read_code(&mut self) -> (r: Result<Vec<u32>, ChunkError>)
        requires
            old(self).wf(),
        ensures
            read_outcome(
                *old(self),
                *final(self),
                parse_counted(old(self).data@, old(self).at(), u32_item()),
                &r,
            ),
    {
        let ghost d = self.data@;
        let ghost first = self.at();
        let n = self.read_u32()?;
        let mut out: Vec<u32> = Vec::new();
        assert(out.deep_view() =~= Seq::empty());
        let mut k: u32 = 0;
        while k < n
            invariant
                d == old(self).data@,
                first == old(self).at(),
                self.data@ == d,
                self.wf(),
                first + 4 <= self.pos,
                k <= n,
                parse_counted(d, first, u32_item()) == prepend(
                    out.deep_view(),
                    (self.pos - first) as nat,
                    parse_many(d, self.at(), (n - k) as nat, u32_item()),
                ),
            decreases n - k,
        {
            let ghost before = out.deep_view();
            let ghost at = self.at();
            let x = match self.read_u32() {
                Ok(x) => x,
                Err(e) => {
                    proof {
                        lemma_many_err(d, at, (n - k) as nat, u32_item());
                    }
                    return Err(e);
                },
            };
            proof {
                lemma_many_step(d, at, (n - k) as nat, u32_item(), before, (at - first) as nat);
            }
            out.push(x);
            assert(out.deep_view() =~= before.push(x.deep_view()));
            k = k + 1;
        }
        assert(out.deep_view() + Seq::empty() =~= out.deep_view());
        Ok(out)
    }

    /// Reads a count, then that many line numbers.
    pub fn read_line_info(&mut self) -> (r: Result<Vec<u32>, ChunkError>)
        requires
            old(self).wf(),
        ensures
            read_outcome(
                *old(self),
                *final(self),
                parse_counted(old(self).data@, old(self).at(), u32_item()),
                &r,
            ),
    {
        self.read_code()
    }

    /// Reads a tag byte, then the constant it announces.
    pub fn read_constant(&mut self) -> (r: Result<Constant, ChunkError>)
        requires
            old(self).wf(),
        ensures
            read_outcome(*old(self), *final(self), parse_constant(old(self).data@, old(self).at()), &r),
    {
        let tag = self.read_byte()?;
        if tag == 0x00 {
            Ok(Constant::Nil)
        } else if tag == 0x01 {
            let b = self.read_byte()?;
            Ok(Constant::Boolean(b != 0))
        } else if tag == 0x03 {
            let i = self.read_lua_integer()?;
            Ok(Constant::Integer(i))
        } else if tag == 0x13 {
            let bits = self.read_u64()?;
            Ok(Constant::Number(bits))
        } else if tag == 0x04 {
            let s = self.read_string()?;
            Ok(Constant::ShortString(s))
        } else if tag == 0x14 {
            let s = self.read_string()?;
            Ok(Constant::LongString(s))
        } else {
            Err(ChunkError::CorruptConstant(tag))
        }
    }

    /// Reads an upvalue descriptor: two bytes.
    pub fn read_upvalue(&mut self) -> (r: Result<Upvalue, ChunkError>)
        requires
            old(self).wf(),
        ensures
            read_outcome(*old(self), *final(self), parse_upvalue(old(self).data@, old(self).at()), &r),
    {
        let in_stack = self.read_byte()?;
        let idx = self.read_byte()?;
        Ok(Upvalue { in_stack, idx })
    }

    /// Reads a local variable record: name, first and last live instruction.
    pub fn read_loc_var(&mut self) -> (r: Result<LocVar, ChunkError>)
        requires
            old(self).wf(),
        ensures
            read_outcome(*old(self), *final(self), parse_loc_var(old(self).data@, old(self).at()), &r),
    {
        let var_name = self.read_string()?;
        let start_pc = self.read_u32()?;
        let end_pc = self.read_u32()?;
        Ok(LocVar { var_name, start_pc, end_pc })
    }

    /// Reads a count, then that many constants.
    pub fn read_constants(&mut self) -> (r: Result<Vec<Constant>, ChunkError>)
        requires
            old(self).wf(),
        ensures
            read_outcome(
                *old(self),
                *final(self),
                parse_counted(old(self).data@, old(self).at(), constant_item()),
                &r,
            ),
    {
        let ghost d = self.data@;
        let ghost first = self.at();
        let n = self.read_u32()?;
        let mut out: Vec<Constant> = Vec::new();
        assert(out.deep_view() =~= Seq::empty());
        let mut k: u32 = 0;
        while k < n
            invariant
                d == old(self).data@,
                first == old(self).at(),
                self.data@ == d,
                self.wf(),
                first + 4 <= self.pos,
                k <= n,
                parse_counted(d, first, constant_item()) == prepend(
                    out.deep_view(),
                    (self.pos - first) as nat,
                    parse_many(d, self.at(), (n - k) as nat, constant_item()),
                ),
            decreases n - k,
        {
            let ghost before = out.deep_view();
            let ghost at = self.at();
            let x = match self.read_constant() {
                Ok(x) => x,
                Err(e) => {
                    proof {
                        lemma_many_err(d, at, (n - k) as nat, constant_item());
                    }
                    return Err(e);
                },
            };
            proof {
                lemma_many_step(d, at, (n - k) as nat, constant_item(), before, (at - first) as nat);
            }
            out.push(x);
            assert(out.deep_view() =~= before.push(x.deep_view()));
            k = k + 1;
        }
        assert(out.deep_view() + Seq::empty() =~= out.deep_view());
        Ok(out)
    }

    /// Reads a count, then that many upvalue descriptors.
    pub fn read_upvalues(&mut self) -> (r: Result<Vec<Upvalue>, ChunkError>)
        requires
            old(self).wf(),
        ensures
            read_outcome(
                *old(self),
                *final(self),
                parse_counted(old(self).data@, old(self).at(), upvalue_item()),
                &r,
            ),
    {
        let ghost d = self.data@;
        let ghost first = self.at();
        let n = self.read_u32()?;
        let mut out: Vec<Upvalue> = Vec::new();
        assert(out.deep_view() =~= Seq::empty());
        let mut k: u32 = 0;
        while k < n
            invariant
                d == old(self).data@,
                first == old(self).at(),
                self.data@ == d,
                self.wf(),
                first + 4 <= self.pos,
                k <= n,
                parse_counted(d, first, upvalue_item()) == prepend(
                    out.deep_view(),
                    (self.pos - first) as nat,
                    parse_many(d, self.at(), (n - k) as nat, upvalue_item()),
                ),
            decreases n - k,
        {
            let ghost before = out.deep_view();
            let ghost at = self.at();
            let x = match self.read_upvalue() {
                Ok(x) => x,
                Err(e) => {
                    proof {
                        lemma_many_err(d, at, (n - k) as nat, upvalue_item());
                    }
                    return Err(e);
                },
            };
            proof {
                lemma_many_step(d, at, (n - k) as nat, upvalue_item(), before, (at - first) as nat);
            }
            out.push(x);
            assert(out.deep_view() =~= before.push(x.deep_view()));
            k = k + 1;
        }
        assert(out.deep_view() + Seq::empty() =~= out.deep_view());
        Ok(out)
    }

    /// Reads a count, then that many local variable records.
    pub fn read_loc_vars(&mut self) -> (r: Result<Vec<LocVar>, ChunkError>)
        requires
            old(self).wf(),
        ensures
            read_outcome(
                *old(self),
                *final(self),
                parse_counted(old(self).data@, old(self).at(), loc_var_item()),
                &r,
            ),
    {
        let ghost d = self.data@;
        let ghost first = self.at();
        let n = self.read_u32()?;
        let mut out: Vec<LocVar> = Vec::new();
        assert(out.deep_view() =~= Seq::empty());
        let mut k: u32 = 0;
        while k < n
            invariant
                d == old(self).data@,
                first == old(self).at(),
                self.data@ == d,
                self.wf(),
                first + 4 <= self.pos,
                k <= n,
                parse_counted(d, first, loc_var_item()) == prepend(
                    out.deep_view(),
                    (self.pos - first) as nat,
                    parse_many(d, self.at(), (n - k) as nat, loc_var_item()),
                ),
            decreases n - k,
        {
            let ghost before = out.deep_view();
            let ghost at = self.at();
            let x = match self.read_loc_var() {
                Ok(x) => x,
                Err(e) => {
                    proof {
                        lemma_many_err(d, at, (n - k) as nat, loc_var_item());
                    }
                    return Err(e);
                },
            };
            proof {
                lemma_many_step(d, at, (n - k) as nat, loc_var_item(), before, (at - first) as nat);
            }
            out.push(x);
            assert(out.deep_view() =~= before.push(x.deep_view()));
            k = k + 1;
        }
        assert(out.deep_view() + Seq::empty() =~= out.deep_view());
        Ok(out)
    }

    /// Reads a count, then that many upvalue names.
    pub fn read_upvalue_names(&mut self) -> (r: Result<Vec<String>, ChunkError>)
        requires
            old(self).wf(),
        ensures
            read_outcome(
                *old(self),
                *final(self),
                parse_counted(old(self).data@, old(self).at(), string_item()),
                &r,
            ),
    {
        let ghost d = self.data@;
        let ghost first = self.at();
        let n = self.read_u32()?;
        let mut out: Vec<String> = Vec::new();
        assert(out.deep_view() =~= Seq::empty());
        let mut k: u32 = 0;
        while k < n
            invariant
                d == old(self).data@,
                first == old(self).at(),
                self.data@ == d,
                self.wf(),
                first + 4 <= self.pos,
                k <= n,
                parse_counted(d, first, string_item()) == prepend(
                    out.deep_view(),
                    (self.pos - first) as nat,
                    parse_many(d, self.at(), (n - k) as nat, string_item()),
                ),
            decreases n - k,
        {
            let ghost before = out.deep_view();
            let ghost at = self.at();
            let x = match self.read_string() {
                Ok(x) => x,
                Err(e) => {
                    proof {
                        lemma_many_err(d, at, (n - k) as nat, string_item());
                    }
                    return Err(e);
                },
            };
            proof {
                lemma_many_step(d, at, (n - k) as nat, string_item(), before, (at - first) as nat);
            }
            out.push(x);
            assert(out.deep_view() =~= before.push(x.deep_view()));
            k = k + 1;
        }
        assert(out.deep_view() + Seq::empty() =~= out.deep_view());
        Ok(out)
    }

    /// Reads the fields of a function record that precede its nested
    /// functions; the later fields are left empty.
    #[verifier::rlimit(50)]
    pub fn read_proto_head(&mut self, parent: &String) -> (r: Result<Prototype, ChunkError>)
        requires
            old(self).wf(),
        ensures
            read_outcome(
                *old(self),
                *final(self),
                parse_proto_head(old(self).data@, old(self).at(), parent@),
                &r,
            ),
    {
        let ghost d = self.data@;
        let ghost p = self.at();
        let own = self.read_string()?;
        let ghost own_view = own@;
        let source = if own.as_str().is_empty() {
            parent.clone()
        } else {
            own
        };
        assert(source@ == (if own_view.len() == 0 { parent@ } else { own_view }));
        if self.data.len() - self.pos < 11 {
            return Err(ChunkError::UnexpectedEof);
        }
        let ghost q = self.at();
        let line_defined = self.read_u32()?;
        let last_line_defined = self.read_u32()?;
        let num_params = self.read_byte()?;
        let is_vararg = self.read_byte()?;
        let max_stack_size = self.read_byte()?;
        let code = self.read_code()?;
        let constants = self.read_constants()?;
        let upvalues = self.read_upvalues()?;
        let proto = Prototype {
            source,
            line_defined,
            last_line_defined,
            num_params,
            is_vararg,
            max_stack_size,
            code,
            constants,
            upvalues,
            protos: Vec::new(),
            line_info: Vec::new(),
            loc_vars: Vec::new(),
            upvalue_names: Vec::new(),
        };
        proof {
            lemma_proto_model(&proto);
        }
        assert(q == p + parse_string(d, p)->Ok_0.1);
        assert(proto.deep_view().source == parse_proto_head(d, p, parent@)->Ok_0.0.source);
        assert(proto.deep_view().code == parse_proto_head(d, p, parent@)->Ok_0.0.code);
        assert(proto.deep_view().constants == parse_proto_head(d, p, parent@)->Ok_0.0.constants);
        assert(proto.deep_view().upvalues == parse_proto_head(d, p, parent@)->Ok_0.0.upvalues);
        assert(proto.deep_view().line_info =~= Seq::empty());
        assert(proto.deep_view().loc_vars =~= Seq::empty());
        assert(proto.deep_view().upvalue_names =~= Seq::empty());
        assert(proto.deep_view().protos =~= Seq::empty());
        assert(proto.deep_view() == parse_proto_head(d, p, parent@)->Ok_0.0);
        assert(self.pos - p == parse_proto_head(d, p, parent@)->Ok_0.1);
        Ok(proto)
    }

    /// Reads a function record. An empty stored source name is replaced by
    /// `parent`; nested records get this record's source name as theirs.
    #[verifier::rlimit(50)]
    pub fn read_proto(&mut self, parent: &String) -> (r: Result<Prototype, ChunkError>)
        requires
            old(self).wf(),
        ensures
            read_outcome(
                *old(self),
                *final(self),
                parse_proto(old(self).data@, old(self).at(), parent@),
                &r,
            ),
        decreases old(self).data@.len() - old(self).pos, 0nat,
    {
        let ghost d = self.data@;
        let ghost p = self.at();
        let mut proto = self.read_proto_head(parent)?;
        let ghost m = proto.deep_view();
        proof {
            lemma_proto_model(&proto);
        }
        let n = self.read_u32()?;
        let protos = self.read_protos(n, &proto.source)?;
        proto.protos = protos;
        proof {
            lemma_proto_model(&proto);
        }
        let proto = self.read_proto_tail(proto)?;
        Ok(proto)
    }

    /// Reads the debug fields that end a function record: line numbers,
    /// local variables and upvalue names; the other fields are kept.
    #[verifier::rlimit(50)]
    pub fn read_proto_tail(&mut self, proto: Prototype) -> (r: Result<Prototype, ChunkError>)
        requires
            old(self).wf(),
        ensures
            read_outcome(
                *old(self),
                *final(self),
                proto_tail(old(self).data@, old(self).at(), proto.deep_view()),
                &r,
            ),
    {
        let ghost m = proto.deep_view();
        let mut proto = proto;
        proof {
            lemma_proto_model(&proto);
        }
        let line_info = self.read_line_info()?;
        assert(line_info.deep_view() =~= line_info@);
        let loc_vars = self.read_loc_vars()?;
        let upvalue_names = self.read_upvalue_names()?;
        proto.line_info = line_info;
        proto.loc_vars = loc_vars;
        proto.upvalue_names = upvalue_names;
        proof {
            lemma_proto_model(&proto);
        }
        assert(proto.deep_view() == (ProtoModel {
            line_info: proto.line_info@,
            loc_vars: proto.loc_vars.deep_view(),
            upvalue_names: proto.upvalue_names.deep_view(),
            ..m
        }));
        Ok(proto)
    }

    /// Reads `n` function records, each with `parent` as the source name to fall back to.
    pub fn read_protos(&mut self, n: u32, parent: &String) -> (r: Result<Vec<Prototype>, ChunkError>)
        requires
            old(self).wf(),
        ensures
            read_outcome(
                *old(self),
                *final(self),
                parse_protos(old(self).data@, old(self).at(), n as nat, parent@),
                &r,
            ),
        decreases old(self).data@.len() - old(self).pos, 1nat,
    {
        let ghost d = self.data@;
        let ghost first = self.at();
        let mut out: Vec<Prototype> = Vec::new();
        assert(out.deep_view() =~= Seq::empty());
        let mut k: u32 = 0;
        while k < n
            invariant
                d == old(self).data@,
                first == old(self).at(),
                self.data@ == d,
                self.wf(),
                first <= self.pos,
                k <= n,
                parse_protos(d, first, n as nat, parent@) == prepend(
                    out.deep_view(),
                    (self.pos - first) as nat,
                    parse_protos(d, self.at(), (n - k) as nat, parent@),
                ),
            decreases n - k,
        {
            let ghost before = out.deep_view();
            let ghost at = self.at();
            let x = match self.read_proto(parent) {
                Ok(x) => x,
                Err(e) => {
                    return Err(e);
                },
            };
            proof {
                lemma_protos_step(d, at, (n - k) as nat, parent@, before, (at - first) as nat);
            }
            out.push(x);
            assert(out.deep_view() =~= before.push(x.deep_view()));
            k = k + 1;
        }
        assert(out.deep_view() + Seq::empty() =~= out.deep_view());
        Ok(out)
    }
}

/// Loads a chunk: checks its header, skips the byte after it, and reads the
/// main function record, whose source name falls back to the empty string.
/// Multi-byte fields are read least significant byte first; a chunk written
/// in the other byte order fails the header's integer canary.
pub fn un_dump(data: &[u8]) -> (r: Result<Prototype, ChunkError>)
    ensures
        match r {
            Ok(p) => parse_chunk(data@) == Ok::<_, ChunkError>(p.deep_view()),
            Err(e) => parse_chunk(data@) == Err::<crate::chunk::ProtoModel, _>(e),
        },
{
    let mut reader = Reader::new(data);
    reader.check_head()?;
    reader.read_byte()?;
    let no_name = String::new();
    reader.read_proto(&no_name)
}

} // verus!
