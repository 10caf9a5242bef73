use vstd::prelude::*;

use crate::chunk::ChunkError;
use crate::format::{parse_constant, parse_proto, parse_protos, parse_string, Parsed, header_bytes, header_field, header_status, header_status_from, HEADER_FIELDS, HEADER_SIZE};

verus! {

/// A buffer that starts with the accepted header bytes passes the header check.
pub proof fn lemma_valid_header_passes(d: Seq<u8>)
    requires
        d.len() >= HEADER_SIZE,
        d.subrange(0, HEADER_SIZE as int) == header_bytes(),
    ensures
        header_status(d) == Ok::<(), ChunkError>(()),
{
    lemma_header_from(d, 0);
}

proof fn lemma_field_matches(d: Seq<u8>, k: nat)
    requires
        k < HEADER_FIELDS,
        d.len() >= HEADER_SIZE,
        d.subrange(0, HEADER_SIZE as int) == header_bytes(),
    ensures
        d.subrange(header_field(k as int).0 as int, (header_field(k as int).0 + header_field(k as int).1) as int)
            == header_bytes().subrange(header_field(k as int).0 as int, (header_field(k as int).0 + header_field(k as int).1) as int),
{
    let s = header_field(k as int).0 as int;
    let w = header_field(k as int).1 as int;
    assert forall|i: int| 0 <= i < w implies #[trigger] d.subrange(s as int, s + w)[i] == header_bytes().subrange(s as int, s + w)[i] by {
        assert(d[s + i] == d.subrange(0, HEADER_SIZE as int)[s + i]);
    }
    assert(d.subrange(s as int, s + w) =~= header_bytes().subrange(s as int, s + w));
}

proof fn lemma_header_from(d: Seq<u8>, k: nat)
    requires
        k <= HEADER_FIELDS,
        d.len() >= HEADER_SIZE,
        d.subrange(0, HEADER_SIZE as int) == header_bytes(),
    ensures
        header_status_from(d, k) == Ok::<(), ChunkError>(()),
    decreases HEADER_FIELDS - k,
{
    if k < HEADER_FIELDS {
        lemma_field_matches(d, k);
        lemma_header_from(d, k + 1);
    }
}

/// Changing any one byte of an accepted header makes the header check fail
/// with a mismatch.
pub proof fn lemma_mutated_header_fails(d: Seq<u8>, i: int, b: u8)
    requires
        d.len() >= HEADER_SIZE,
        d.subrange(0, HEADER_SIZE as int) == header_bytes(),
        0 <= i < HEADER_SIZE,
        b != d[i],
    ensures
        header_status(d.update(i, b)) is Err,
        header_status(d.update(i, b))->Err_0 is HeaderMismatch,
{
    lemma_mutated_from(d, i, b, 0);
}

proof fn lemma_mutated_from(d: Seq<u8>, i: int, b: u8, k: nat)
    requires
        d.len() >= HEADER_SIZE,
        d.subrange(0, HEADER_SIZE as int) == header_bytes(),
        0 <= i < HEADER_SIZE,
        b != d[i],
        k < HEADER_FIELDS,
        header_field(k as int).0 <= i,
    ensures
        header_status_from(d.update(i, b), k) is Err,
        header_status_from(d.update(i, b), k)->Err_0 is HeaderMismatch,
    decreases HEADER_FIELDS - k,
{
    let e = d.update(i, b);
    let s = header_field(k as int).0 as int;
    let w = header_field(k as int).1 as int;
    if i < s + w {
        assert(e.subrange(s as int, s + w)[i - s] != header_bytes().subrange(s as int, s + w)[i - s]) by {
            assert(d[i] == d.subrange(0, HEADER_SIZE as int)[i]);
        }
    } else {
        assert forall|j: int| 0 <= j < w implies #[trigger] e.subrange(s as int, s + w)[j] == header_bytes().subrange(s as int, s + w)[j] by {
            assert(d[s + j] == d.subrange(0, HEADER_SIZE as int)[s + j]);
        }
        assert(e.subrange(s as int, s + w) =~= header_bytes().subrange(s as int, s + w));
        lemma_mutated_from(d, i, b, k + 1);
    }
}

/// A function record keeps its own source name when the stored one is
/// non-empty, and takes the enclosing record's name when it is empty.
pub proof fn lemma_source_fallback(d: Seq<u8>, p: nat, parent: Seq<char>)
    requires
        parse_proto(d, p, parent) is Ok,
    ensures
        parse_string(d, p) is Ok,
        parse_proto(d, p, parent)->Ok_0.0.source == (if parse_string(d, p)->Ok_0.0.len() == 0 {
            parent
        } else {
            parse_string(d, p)->Ok_0.0
        }),
{
}

/// The nested functions of a record are read as one list whose fallback
/// source name is the record's own resolved source name; the result says
/// where that list starts and how long it is.
pub proof fn lemma_nested_inherit(d: Seq<u8>, p: nat, parent: Seq<char>) -> (r: (nat, nat))
    requires
        parse_proto(d, p, parent) is Ok,
    ensures
        parse_protos(d, r.0, r.1, parse_proto(d, p, parent)->Ok_0.0.source) is Ok,
        parse_protos(d, r.0, r.1, parse_proto(d, p, parent)->Ok_0.0.source)->Ok_0.0
            == parse_proto(d, p, parent)->Ok_0.0.protos,
{
    let (h, c) = crate::format::parse_proto_head(d, p, parent)->Ok_0;
    let r = p + c;
    (r + 4, crate::format::u32_at(d, r) as nat)
}

/// Each record of a list of function records is itself a record read with
/// the list's fallback source name.
pub proof fn lemma_each_nested(d: Seq<u8>, p: nat, n: nat, parent: Seq<char>)
    requires
        parse_protos(d, p, n, parent) is Ok,
    ensures
        forall|i: int|
            0 <= i < parse_protos(d, p, n, parent)->Ok_0.0.len() ==> exists|q: nat|
                #[trigger] parse_proto(d, q, parent) is Ok && parse_proto(d, q, parent)->Ok_0.0
                    == #[trigger] parse_protos(d, p, n, parent)->Ok_0.0[i],
    decreases n,
{
    if n > 0 {
        let (x, c) = parse_proto(d, p, parent)->Ok_0;
        lemma_each_nested(d, p + c, (n - 1) as nat, parent);
        let ys = parse_protos(d, p + c, (n - 1) as nat, parent)->Ok_0.0;
        let ps = parse_protos(d, p, n, parent)->Ok_0.0;
        assert(ps == seq![x] + ys);
        assert forall|i: int| 0 <= i < ps.len() implies exists|q: nat|
            #[trigger] parse_proto(d, q, parent) is Ok && parse_proto(d, q, parent)->Ok_0.0 == #[trigger] ps[i] by {
            if i == 0 {
                assert(parse_proto(d, p, parent)->Ok_0.0 == ps[0]);
            } else {
                assert(ps[i] == ys[i - 1]);
            }
        }
    }
}

/// A constant whose tag byte is none of the six known tags fails with
/// `CorruptConstant` carrying that byte; it is never read as nil.
pub proof fn lemma_unknown_tag_is_corrupt(d: Seq<u8>, p: nat)
    requires
        p < d.len(),
        d[p as int] != 0x00,
        d[p as int] != 0x01,
        d[p as int] != 0x03,
        d[p as int] != 0x13,
        d[p as int] != 0x04,
        d[p as int] != 0x14,
    ensures
        parse_constant(d, p) == Parsed::<crate::chunk::ConstantModel>::Err(
            ChunkError::CorruptConstant(d[p as int]),
        ),
{
}

} // verus!
