//! Framing of rendered audio for the host.
//!
//! Samples cross to the host as the bit patterns of 32-bit floats, each laid
//! out as four little-endian bytes, so that the host can view the bytes as an
//! array of floats. A render that fails hands the host a silent block and an
//! empty console instead.

use vstd::prelude::*;
use vstd::bytes::{
    lemma_auto_spec_u32_to_from_le_bytes,
    spec_u32_from_le_bytes,
    spec_u32_to_le_bytes,
    u32_to_le_bytes,
};

verus! {

/// Samples in the engine's output block: two channels of 128 samples.
pub const OUTPUT_SAMPLES: usize = 256;

/// Bytes in the engine's console block.
pub const CONSOLE_BYTES: usize = 256;

/// `bytes` holds, from its start, the little-endian encoding of each word in
/// turn.
pub open spec fn frames_words(bytes: Seq<u8>, words: Seq<u32>) -> bool {
    &&& 4 * words.len() <= bytes.len()
    &&& forall|i: int|
        0 <= i < words.len() ==> bytes.subrange(4 * i, 4 * i + 4) == spec_u32_to_le_bytes(
            #[trigger] words[i],
        )
}

/// Writes the little-endian bytes of each word into `out`, word `i` at bytes
/// `4 * i .. 4 * i + 4`; the bytes after the last word are left as they were.
pub fn write_le_words(words: &[u32], out: &mut [u8])
    requires
        4 * words@.len() <= old(out)@.len(),
    ensures
        final(out)@.len() == old(out)@.len(),
        frames_words(final(out)@, words@),
        forall|k: int| 4 * words@.len() <= k < old(out)@.len() ==> #[trigger] final(out)@[k] == old(out)@[k],
{
    let n = words.len();
    let len = out.len();
    let mut i: usize = 0;
    while i < n
        invariant
            n == words@.len(),
            i <= n,
            4 * n <= len,
            len == out@.len(),
            out@.len() == old(out)@.len(),
            forall|k: int|
                0 <= k < i ==> out@.subrange(4 * k, 4 * k + 4) == spec_u32_to_le_bytes(
                    #[trigger] words@[k],
                ),
            forall|k: int| 4 * i <= k < out@.len() ==> out@[k] == old(out)@[k],
        decreases n - i,
    {
        let b = u32_to_le_bytes(words[i]);
        let base = 4 * i;
        let ghost before = out@;
        out[base] = b[0];
        out[base + 1] = b[1];
        out[base + 2] = b[2];
        out[base + 3] = b[3];
        assert(out@.subrange(4 * i, 4 * i + 4) =~= b@);
        assert forall|k: int| 0 <= k < i implies out@.subrange(4 * k, 4 * k + 4)
            == spec_u32_to_le_bytes(#[trigger] words@[k]) by {
            assert(out@.subrange(4 * k, 4 * k + 4) =~= before.subrange(4 * k, 4 * k + 4));
        }
        i = i + 1;
    }
}

/// Framed words read back: the four bytes of each word, taken least significant
/// first, give the word again.
pub proof fn lemma_framed_words_read_back(bytes: Seq<u8>, words: Seq<u32>)
    requires
        frames_words(bytes, words),
    ensures
        forall|i: int|
            0 <= i < words.len() ==> spec_u32_from_le_bytes(bytes.subrange(4 * i, 4 * i + 4))
                == #[trigger] words[i],
{
    lemma_auto_spec_u32_to_from_le_bytes();
    assert forall|i: int| 0 <= i < words.len() implies spec_u32_from_le_bytes(
        bytes.subrange(4 * i, 4 * i + 4),
    ) == #[trigger] words[i] by {
        assert(bytes.subrange(4 * i, 4 * i + 4) == spec_u32_to_le_bytes(words[i]));
    }
}

/// Framing is one to one: two word sequences framed into the same bytes are
/// equal.
pub proof fn lemma_framing_injective(bytes: Seq<u8>, words: Seq<u32>, others: Seq<u32>)
    requires
        frames_words(bytes, words),
        frames_words(bytes, others),
        words.len() == others.len(),
    ensures
        words == others,
{
    lemma_framed_words_read_back(bytes, words);
    lemma_framed_words_read_back(bytes, others);
    assert forall|i: int| 0 <= i < words.len() implies words[i] == others[i] by {
        assert(spec_u32_from_le_bytes(bytes.subrange(4 * i, 4 * i + 4)) == words[i]);
        assert(spec_u32_from_le_bytes(bytes.subrange(4 * i, 4 * i + 4)) == others[i]);
    }
    assert(words =~= others);
}

/// The block handed to the host: the rendered samples and console when the
/// render succeeded, else a silent block of `OUTPUT_SAMPLES` zero samples and
/// a console of `CONSOLE_BYTES` zero bytes.
pub fn output_or_silence(rendered: Option<(Vec<u32>, Vec<u8>)>) -> (out: (Vec<u32>, Vec<u8>))
    ensures
        match rendered {
            Some((samples, console)) => out.0@ == samples@ && out.1@ == console@,
            None => out.0@ == Seq::new(OUTPUT_SAMPLES as nat, |i: int| 0u32) && out.1@ == Seq::new(
                CONSOLE_BYTES as nat,
                |i: int| 0u8,
            ),
        },
{
    match rendered {
        Some(block) => block,
        None => (vec![0u32; OUTPUT_SAMPLES], vec![0u8; CONSOLE_BYTES]),
    }
}

} // verus!
