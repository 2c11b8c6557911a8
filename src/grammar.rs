//! A grammar packs the thirteen binary syntactic parameters into one small
//! integer: parameter `p` lives at bit `12 - p`.

use vstd::prelude::*;

verus! {

/// Number of binary syntactic parameters.
pub const NUM_PARAMS: usize = 13;

/// One setting of the thirteen parameters, packed into bits 0..13.
pub type Grammar = u16;

/// Identifier of a surface sentence of the corpus.
pub type Sentence = u32;

/// The mask of parameter `p` within a grammar.
pub open spec fn param_bit(p: int) -> u16 {
    (1u16 << ((12 - p) as u16)) as u16
}

/// The value (0 or 1) of parameter `p` in grammar `g`.
pub open spec fn param_of(g: u16, p: int) -> u16 {
    ((g >> ((12 - p) as u16)) & 1u16) as u16
}

/// `g` uses bits 0..13 only, and parameter `p` is on exactly where `flips[p]` holds.
pub open spec fn encodes_flips(g: u16, flips: Seq<bool>) -> bool {
    &&& flips.len() == NUM_PARAMS
    &&& g < 8192
    &&& forall|p: int| 0 <= p < NUM_PARAMS ==> #[trigger] param_of(g, p) == if flips[p] { 1u16 } else { 0u16 }
}

proof fn lemma_or_shift(g: u16, a: u16, b: u16)
    requires
        a < 13,
        b < 13,
    ensures
        ((g | (1u16 << a)) >> b) & 1u16 == if a == b { 1u16 } else { (g >> b) & 1u16 },
        g < 8192 ==> (g | (1u16 << a)) < 8192,
{
    assert(((g | (1u16 << a)) >> b) & 1u16 == if a == b { 1u16 } else { (g >> b) & 1u16 }) by (bit_vector)
        requires a < 13u16, b < 13u16;
    assert(g < 8192 ==> (g | (1u16 << a)) < 8192) by (bit_vector)
        requires a < 13u16;
}

proof fn lemma_shift_zero(b: u16)
    requires
        b < 13,
    ensures
        (0u16 >> b) & 1u16 == 0,
{
    assert((0u16 >> b) & 1u16 == 0) by (bit_vector);
}

/// Returns parameter number `param_num` of `grammar`, as 0 or 1.
pub fn get_param(grammar: &Grammar, param_num: usize) -> (r: Grammar)
    requires
        param_num < NUM_PARAMS,
    ensures
        r == param_of(*grammar, param_num as int),
        r == 0 || r == 1,
{
    let g = *grammar;
    let sh = (12 - param_num) as u16;
    let r = (g >> sh) & 1u16;
    assert(((g >> sh) & 1u16) <= 1u16) by (bit_vector);
    r
}

/// Returns `grammar` with parameter `param_num` turned on (bitwise or:
/// a parameter already on stays on).
pub fn set_param(grammar: Grammar, param_num: usize) -> (r: Grammar)
    requires
        param_num < NUM_PARAMS,
    ensures
        r == (grammar | param_bit(param_num as int)),
{
    grammar | (1u16 << ((12 - param_num) as u16))
}

/// Returns `grammar` with parameter `param_num` flipped.
pub fn toggled(grammar: &Grammar, param_num: usize) -> (r: Grammar)
    requires
        param_num < NUM_PARAMS,
    ensures
        r == (*grammar ^ param_bit(param_num as int)),
{
    *grammar ^ (1u16 << ((12 - param_num) as u16))
}

/// Builds the grammar whose parameter `p` is on exactly where `flips[p]` is true.
pub fn grammar_of_flips(flips: &[bool; NUM_PARAMS]) -> (r: Grammar)
    ensures
        encodes_flips(r, flips@),
{
    let mut g: Grammar = 0;
    let mut i: usize = 0;
    assert forall|p: int| 0 <= p < NUM_PARAMS implies #[trigger] param_of(g, p) == 0 by {
        lemma_shift_zero((12 - p) as u16);
    }
    while i < NUM_PARAMS
        invariant
            i <= NUM_PARAMS,
            g < 8192,
            forall|p: int| 0 <= p < i ==> #[trigger] param_of(g, p) == if flips@[p] { 1u16 } else { 0u16 },
            forall|p: int| i <= p < NUM_PARAMS ==> #[trigger] param_of(g, p) == 0,
        decreases NUM_PARAMS - i,
    {
        let old_g = g;
        if flips[i] {
            g = set_param(g, i);
            proof {
                assert forall|p: int| 0 <= p < NUM_PARAMS implies #[trigger] param_of(g, p) == if p == i { 1u16 } else { param_of(old_g, p) } by {
                    lemma_or_shift(old_g, (12 - i) as u16, (12 - p) as u16);
                }
                lemma_or_shift(old_g, (12 - i) as u16, 0);
            }
        }
        i = i + 1;
    }
    g
}

/// Setting a parameter after flipping it always leaves that parameter on.
pub proof fn lemma_set_after_toggle(g: Grammar, p: int)
    requires
        0 <= p < NUM_PARAMS,
    ensures
        param_of(((g ^ param_bit(p)) | param_bit(p)) as u16, p) == 1,
{
    let s = (12 - p) as u16;
    assert((((g ^ (1u16 << s)) | (1u16 << s)) >> s) & 1u16 == 1u16) by (bit_vector)
        requires s < 13u16;
}

/// No coin comes up: the empty grammar. Every coin comes up: all thirteen
/// parameters on.
pub proof fn lemma_flips_extremes(g: Grammar, flips: Seq<bool>)
    requires
        encodes_flips(g, flips),
    ensures
        (forall|p: int| 0 <= p < NUM_PARAMS ==> !flips[p]) ==> g == 0,
        (forall|p: int| 0 <= p < NUM_PARAMS ==> flips[p]) ==> g == 0x1FFF,
{
    let b0 = param_of(g, 0);
    let b1 = param_of(g, 1);
    let b2 = param_of(g, 2);
    let b3 = param_of(g, 3);
    let b4 = param_of(g, 4);
    let b5 = param_of(g, 5);
    let b6 = param_of(g, 6);
    let b7 = param_of(g, 7);
    let b8 = param_of(g, 8);
    let b9 = param_of(g, 9);
    let b10 = param_of(g, 10);
    let b11 = param_of(g, 11);
    let b12 = param_of(g, 12);
    assert(g < 8192u16 ==> (
        ((g >> 12u16) & 1u16 == 0u16 && (g >> 11u16) & 1u16 == 0u16 && (g >> 10u16) & 1u16 == 0u16
        && (g >> 9u16) & 1u16 == 0u16 && (g >> 8u16) & 1u16 == 0u16 && (g >> 7u16) & 1u16 == 0u16
        && (g >> 6u16) & 1u16 == 0u16 && (g >> 5u16) & 1u16 == 0u16 && (g >> 4u16) & 1u16 == 0u16
        && (g >> 3u16) & 1u16 == 0u16 && (g >> 2u16) & 1u16 == 0u16 && (g >> 1u16) & 1u16 == 0u16
        && (g >> 0u16) & 1u16 == 0u16) ==> g == 0u16)) by (bit_vector);
    assert(g < 8192u16 ==> (
        ((g >> 12u16) & 1u16 == 1u16 && (g >> 11u16) & 1u16 == 1u16 && (g >> 10u16) & 1u16 == 1u16
        && (g >> 9u16) & 1u16 == 1u16 && (g >> 8u16) & 1u16 == 1u16 && (g >> 7u16) & 1u16 == 1u16
        && (g >> 6u16) & 1u16 == 1u16 && (g >> 5u16) & 1u16 == 1u16 && (g >> 4u16) & 1u16 == 1u16
        && (g >> 3u16) & 1u16 == 1u16 && (g >> 2u16) & 1u16 == 1u16 && (g >> 1u16) & 1u16 == 1u16
        && (g >> 0u16) & 1u16 == 1u16) ==> g == 0x1FFFu16)) by (bit_vector);
}

} // verus!
