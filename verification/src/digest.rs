//! Digests of text, as the standard library's default hasher computes them.
//!
//! A digest is modelled by the byte chunks that are fed to the hasher: a text is
//! fed as its UTF-8 bytes and a closing `0xff`, a length as eight bytes with the
//! least significant first.

use vstd::prelude::*;
use std::collections::hash_map::DefaultHasher;
use std::hash::Hasher;
use vstd::std_specs::hash::*;
use vstd::string::*;

verus! {

/// The chunks of one text.
pub open spec fn text_chunks(bytes: Seq<u8>) -> Seq<Seq<u8>> {
    seq![bytes, seq![0xffu8]]
}

/// The chunk of one length.
pub open spec fn size_chunk(n: nat) -> Seq<u8> {
    vstd::bytes::spec_u64_to_le_bytes(n as u64)
}

/// The value that the default hasher gives to a series of chunks.
pub open spec fn digest(chunks: Seq<Seq<u8>>) -> u64 {
    DefaultHasher::spec_finish(chunks)
}

/// Feeds the bytes of one text.
pub fn feed_text(h: &mut DefaultHasher, bytes: &[u8])
    ensures
        final(h)@ == old(h)@ + text_chunks(bytes@),
{
    h.write(bytes);
    let end: [u8; 1] = [0xffu8];
    h.write(&end);
    assert(end@ == seq![0xffu8]);
}

/// Feeds one length.
pub fn feed_size(h: &mut DefaultHasher, n: usize)
    ensures
        final(h)@ == old(h)@.push(size_chunk(n as nat)),
{
    let bytes = vstd::bytes::u64_to_le_bytes(n as u64);
    h.write(bytes.as_slice());
}

} // verus!
