//! Document-level laws: total, order-preserving coverage of the input,
//! and determinism of the parse.

use vstd::prelude::*;

use crate::text::{SpanModel, span_at};
use crate::markdown::{BlockModel, spec_doc, spec_block, span_parts, block_parts};

verus! {

/// The bytes the given spans select, concatenated in order.
pub open spec fn concat_bytes(s: Seq<u8>, spans: Seq<SpanModel>) -> Seq<u8>
    decreases spans.len(),
{
    if spans.len() == 0 {
        Seq::empty()
    } else {
        spans[0].bytes(s) + concat_bytes(s, spans.drop_first())
    }
}

proof fn lemma_coverage_from(s: Seq<u8>, pos: int, d: Seq<(BlockModel, SpanModel)>)
    requires
        0 <= pos <= s.len(),
        spec_doc(s, pos) == Some(d),
    ensures
        concat_bytes(s, span_parts(d)) == s.subrange(pos, s.len() as int),
    decreases s.len() - pos,
{
    if pos == s.len() {
        assert(d =~= Seq::<(BlockModel, SpanModel)>::empty());
        assert(span_parts(d) =~= Seq::<SpanModel>::empty());
        assert(concat_bytes(s, span_parts(d)) =~= s.subrange(pos, s.len() as int));
    } else {
        let t = spec_block(s, pos)->0;
        let p = t.1;
        let rest = spec_doc(s, p)->0;
        assert(d == seq![(t.0, span_at(pos, p))] + rest);
        lemma_coverage_from(s, p, rest);
        assert(span_parts(d)[0] == span_at(pos, p));
        assert(span_parts(d).drop_first() =~= span_parts(rest));
        assert(span_at(pos, p).bytes(s) + s.subrange(p, s.len() as int) =~= s.subrange(
            pos,
            s.len() as int,
        ));
    }
}

/// Total coverage: for any successfully parsed document, concatenating
/// the spans its blocks consumed, in order, reconstructs the input
/// exactly — no gaps, no overlaps, no reordering.
pub proof fn lemma_total_coverage(s: Seq<u8>, d: Seq<(BlockModel, SpanModel)>)
    requires
        spec_doc(s, 0) == Some(d),
    ensures
        concat_bytes(s, span_parts(d)) == s,
{
    lemma_coverage_from(s, 0, d);
    assert(s.subrange(0, s.len() as int) =~= s);
}

/// Determinism: the parsed document is a function of the input bytes
/// alone, so parsing the same buffer twice yields structurally
/// identical documents. Every successful `Block::parse` result is
/// pinned to `spec_doc` by its postcondition, and two descriptions of
/// the same buffer coincide.
pub proof fn lemma_parse_deterministic(
    s: Seq<u8>,
    d1: Seq<(BlockModel, SpanModel)>,
    d2: Seq<(BlockModel, SpanModel)>,
)
    requires
        spec_doc(s, 0) == Some(d1),
        spec_doc(s, 0) == Some(d2),
    ensures
        d1 == d2,
        block_parts(d1) == block_parts(d2),
{
}

} // verus!
