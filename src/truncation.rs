use vstd::prelude::*;

use crate::chunk::{ChunkError, ProtoModel};
use crate::format::{
    constant_item, header_status_from, header_field, loc_var_item,
    parse_chunk, parse_constant, parse_counted, parse_i64, parse_loc_var, parse_many,
    parse_proto, parse_proto_head, parse_protos, parse_string, parse_u32, parse_u64,
    parse_upvalue, proto_tail, string_item, u32_item, upvalue_item, Parsed,
    HEADER_FIELDS, MAIN_PROTO_OFFSET,
};

verus! {

/// The first `k` bytes of `d`.
pub open spec fn cut(d: Seq<u8>, k: nat) -> Seq<u8> {
    d.subrange(0, k as int)
}

/// A read at `p` that succeeds on the whole buffer gives the same result on
/// the first `k` bytes when it ends within them, and fails for want of bytes
/// otherwise.
pub open spec fn cut_ok<T>(full: Parsed<T>, part: Parsed<T>, p: nat, k: nat) -> bool {
    full is Ok ==> if p + full->Ok_0.1 <= k {
        part == full
    } else {
        part == Parsed::<T>::Err(ChunkError::UnexpectedEof)
    }
}

proof fn lemma_cut_u32(d: Seq<u8>, k: nat, p: nat)
    requires
        k <= d.len(),
    ensures
        cut_ok(parse_u32(d, p), parse_u32(cut(d, k), p), p, k),
{
    let t = cut(d, k);
    if p + 4 <= k {
        assert(t[p as int] == d[p as int] && t[p + 1int] == d[p + 1int] && t[p + 2int] == d[p + 2int] && t[p + 3int] == d[p + 3int]);
    }
}

proof fn lemma_cut_u64(d: Seq<u8>, k: nat, p: nat)
    requires
        k <= d.len(),
    ensures
        cut_ok(parse_u64(d, p), parse_u64(cut(d, k), p), p, k),
        cut_ok(parse_i64(d, p), parse_i64(cut(d, k), p), p, k),
{
    if p + 8 <= k {
        lemma_cut_u32(d, k, p);
        lemma_cut_u32(d, k, p + 4);
    }
}

proof fn lemma_cut_string(d: Seq<u8>, k: nat, p: nat)
    requires
        k <= d.len(),
    ensures
        cut_ok(parse_string(d, p), parse_string(cut(d, k), p), p, k),
{
    let t = cut(d, k);
    if parse_string(d, p) is Ok && p + 1 <= k {
        assert(t[p as int] == d[p as int]);
        if d[p as int] == 0xFF && p + 9 <= k {
            lemma_cut_u64(d, k, p + 1);
        }
        let size = if d[p as int] == 0xFF { crate::format::u64_at(d, p + 1) as nat } else { d[p as int] as nat };
        let start: nat = if d[p as int] == 0xFF { p + 9 } else { p + 1 };
        if size > 0 && start + (size - 1) <= k {
            assert(t.subrange(start as int, start + size - 1int) =~= d.subrange(start as int, start + size - 1int));
        }
    }
}

proof fn lemma_cut_constant(d: Seq<u8>, k: nat, p: nat)
    requires
        k <= d.len(),
    ensures
        cut_ok(parse_constant(d, p), parse_constant(cut(d, k), p), p, k),
{
    let t = cut(d, k);
    if p + 1 <= k {
        assert(t[p as int] == d[p as int]);
        lemma_cut_u64(d, k, p + 1);
        lemma_cut_string(d, k, p + 1);
        if p + 2 <= k {
            assert(t[p + 1int] == d[p + 1int]);
        }
    }
}

proof fn lemma_cut_upvalue(d: Seq<u8>, k: nat, p: nat)
    requires
        k <= d.len(),
    ensures
        cut_ok(parse_upvalue(d, p), parse_upvalue(cut(d, k), p), p, k),
{
    let t = cut(d, k);
    if p + 2 <= k {
        assert(t[p as int] == d[p as int] && t[p + 1int] == d[p + 1int]);
    }
}

proof fn lemma_cut_loc_var(d: Seq<u8>, k: nat, p: nat)
    requires
        k <= d.len(),
    ensures
        cut_ok(parse_loc_var(d, p), parse_loc_var(cut(d, k), p), p, k),
{
    lemma_cut_string(d, k, p);
    if parse_string(d, p) is Ok {
        let c = parse_string(d, p)->Ok_0.1;
        lemma_cut_u32(d, k, p + c);
        lemma_cut_u32(d, k, p + c + 4);
    }
}

proof fn lemma_cut_many<T>(d: Seq<u8>, k: nat, p: nat, n: nat, item: spec_fn(Seq<u8>, nat) -> Parsed<T>)
    requires
        k <= d.len(),
        p <= k,
        forall|q: nat| #[trigger] cut_ok(item(d, q), item(cut(d, k), q), q, k),
    ensures
        cut_ok(parse_many(d, p, n, item), parse_many(cut(d, k), p, n, item), p, k),
    decreases n,
{
    if n > 0 && parse_many(d, p, n, item) is Ok {
        assert(cut_ok(item(d, p), item(cut(d, k), p), p, k));
        let c = item(d, p)->Ok_0.1;
        if p + c <= k {
            lemma_cut_many(d, k, p + c, (n - 1) as nat, item);
        }
    }
}

proof fn lemma_cut_counted<T>(d: Seq<u8>, k: nat, p: nat, item: spec_fn(Seq<u8>, nat) -> Parsed<T>)
    requires
        k <= d.len(),
        p <= k,
        forall|q: nat| #[trigger] cut_ok(item(d, q), item(cut(d, k), q), q, k),
    ensures
        cut_ok(parse_counted(d, p, item), parse_counted(cut(d, k), p, item), p, k),
{
    lemma_cut_u32(d, k, p);
    if p + 4 <= k {
        lemma_cut_many(d, k, p + 4, parse_u32(d, p)->Ok_0.0 as nat, item);
    }
}

proof fn lemma_cut_items(d: Seq<u8>, k: nat)
    requires
        k <= d.len(),
    ensures
        forall|q: nat| #[trigger] cut_ok(u32_item()(d, q), u32_item()(cut(d, k), q), q, k),
        forall|q: nat| #[trigger] cut_ok(constant_item()(d, q), constant_item()(cut(d, k), q), q, k),
        forall|q: nat| #[trigger] cut_ok(upvalue_item()(d, q), upvalue_item()(cut(d, k), q), q, k),
        forall|q: nat| #[trigger] cut_ok(loc_var_item()(d, q), loc_var_item()(cut(d, k), q), q, k),
        forall|q: nat| #[trigger] cut_ok(string_item()(d, q), string_item()(cut(d, k), q), q, k),
{
    assert forall|q: nat| #[trigger] cut_ok(u32_item()(d, q), u32_item()(cut(d, k), q), q, k) by {
        lemma_cut_u32(d, k, q);
    }
    assert forall|q: nat| #[trigger] cut_ok(constant_item()(d, q), constant_item()(cut(d, k), q), q, k) by {
        lemma_cut_constant(d, k, q);
    }
    assert forall|q: nat| #[trigger] cut_ok(upvalue_item()(d, q), upvalue_item()(cut(d, k), q), q, k) by {
        lemma_cut_upvalue(d, k, q);
    }
    assert forall|q: nat| #[trigger] cut_ok(loc_var_item()(d, q), loc_var_item()(cut(d, k), q), q, k) by {
        lemma_cut_loc_var(d, k, q);
    }
    assert forall|q: nat| #[trigger] cut_ok(string_item()(d, q), string_item()(cut(d, k), q), q, k) by {
        lemma_cut_string(d, k, q);
    }
}

proof fn lemma_cut_head(d: Seq<u8>, k: nat, p: nat, parent: Seq<char>)
    requires
        k <= d.len(),
        p <= k,
    ensures
        cut_ok(parse_proto_head(d, p, parent), parse_proto_head(cut(d, k), p, parent), p, k),
{
    let t = cut(d, k);
    lemma_cut_string(d, k, p);
    lemma_cut_items(d, k);
    if parse_proto_head(d, p, parent) is Ok && p + parse_string(d, p)->Ok_0.1 <= k {
        let q = p + parse_string(d, p)->Ok_0.1;
        if q + 11 <= k {
            lemma_cut_u32(d, k, q);
            lemma_cut_u32(d, k, q + 4);
            assert(t[q + 8int] == d[q + 8int] && t[q + 9int] == d[q + 9int] && t[q + 10int] == d[q + 10int]);
            lemma_cut_counted(d, k, q + 11, u32_item());
            let c1 = parse_counted(d, q + 11, u32_item())->Ok_0.1;
            if q + 11 + c1 <= k {
                lemma_cut_counted(d, k, q + 11 + c1, constant_item());
                let c2 = parse_counted(d, q + 11 + c1, constant_item())->Ok_0.1;
                if q + 11 + c1 + c2 <= k {
                    lemma_cut_counted(d, k, q + 11 + c1 + c2, upvalue_item());
                }
            }
        }
    }
}

proof fn lemma_cut_tail(d: Seq<u8>, k: nat, p: nat, m: ProtoModel)
    requires
        k <= d.len(),
        p <= k,
    ensures
        cut_ok(proto_tail(d, p, m), proto_tail(cut(d, k), p, m), p, k),
{
    lemma_cut_items(d, k);
    lemma_cut_counted(d, k, p, u32_item());
    if proto_tail(d, p, m) is Ok {
        let c1 = parse_counted(d, p, u32_item())->Ok_0.1;
        if p + c1 <= k {
            lemma_cut_counted(d, k, p + c1, loc_var_item());
            let c2 = parse_counted(d, p + c1, loc_var_item())->Ok_0.1;
            if p + c1 + c2 <= k {
                lemma_cut_counted(d, k, p + c1 + c2, string_item());
            }
        }
    }
}

proof fn lemma_cut_proto(d: Seq<u8>, k: nat, p: nat, parent: Seq<char>)
    requires
        k <= d.len(),
        p <= k,
    ensures
        cut_ok(parse_proto(d, p, parent), parse_proto(cut(d, k), p, parent), p, k),
    decreases crate::format::left(d, p), 0nat, 0nat,
{
    lemma_cut_head(d, k, p, parent);
    if parse_proto(d, p, parent) is Ok {
        let (m, c) = parse_proto_head(d, p, parent)->Ok_0;
        let r = p + c;
        if r + 4 <= k {
            lemma_cut_u32(d, k, r);
            let n = crate::format::u32_at(d, r) as nat;
            lemma_cut_protos(d, k, r + 4, n, m.source);
            let (ps, c4) = parse_protos(d, r + 4, n, m.source)->Ok_0;
            if r + 4 + c4 <= k {
                lemma_cut_tail(d, k, r + 4 + c4, ProtoModel { protos: ps, ..m });
            }
        }
    }
}

proof fn lemma_cut_protos(d: Seq<u8>, k: nat, p: nat, n: nat, parent: Seq<char>)
    requires
        k <= d.len(),
        p <= k,
    ensures
        cut_ok(parse_protos(d, p, n, parent), parse_protos(cut(d, k), p, n, parent), p, k),
    decreases crate::format::left(d, p), 1nat, n,
{
    if n > 0 && parse_protos(d, p, n, parent) is Ok {
        lemma_cut_proto(d, k, p, parent);
        let c = parse_proto(d, p, parent)->Ok_0.1;
        if p + c <= k {
            lemma_cut_protos(d, k, p + c, (n - 1) as nat, parent);
        }
    }
}

proof fn lemma_cut_header_from(d: Seq<u8>, k: nat, j: nat)
    requires
        k <= d.len(),
        j <= HEADER_FIELDS,
        j == HEADER_FIELDS ==> k >= crate::format::HEADER_SIZE,
        header_status_from(d, j) is Ok,
    ensures
        header_status_from(cut(d, k), j) == (if k >= crate::format::HEADER_SIZE {
            Ok::<(), ChunkError>(())
        } else {
            Err::<(), ChunkError>(ChunkError::UnexpectedEof)
        }),
    decreases HEADER_FIELDS - j,
{
    if j < HEADER_FIELDS {
        let s = header_field(j as int).0 as int;
        let w = header_field(j as int).1 as int;
        if k >= s + w {
            assert(cut(d, k).subrange(s, s + w) =~= d.subrange(s, s + w));
            lemma_cut_header_from(d, k, j + 1);
        }
    }
}

/// Every proper prefix of a chunk whose main function record ends exactly
/// at the end of the buffer fails to load for want of bytes.
pub proof fn lemma_truncated_chunk_fails(d: Seq<u8>, k: nat)
    requires
        is_exact_chunk(d),
        k < d.len(),
    ensures
        parse_chunk(cut(d, k)) == Err::<ProtoModel, ChunkError>(ChunkError::UnexpectedEof),
{
    lemma_cut_header_from(d, k, 0);
    if k >= MAIN_PROTO_OFFSET {
        lemma_cut_proto(d, k, MAIN_PROTO_OFFSET as nat, Seq::empty());
    }
}

/// A buffer that holds a chunk and nothing after it: the header, the byte
/// after it and the main function record, which ends at the buffer's end.
pub open spec fn is_exact_chunk(d: Seq<u8>) -> bool {
    &&& parse_chunk(d) is Ok
    &&& MAIN_PROTO_OFFSET + parse_proto(d, MAIN_PROTO_OFFSET as nat, Seq::empty())->Ok_0.1 == d.len()
}

} // verus!
