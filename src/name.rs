//! Fixed-capacity word names.
use vstd::prelude::*;
use vstd::string::StringSliceAdditionalSpecFns;

verus! {

/// Capacity of a word name, in bytes.
pub const NAME_SIZE: usize = 32;

/// A word name: up to `NAME_SIZE` bytes, the rest zero.
pub type WordName = [u8; NAME_SIZE];

/// The name buffer that holds the first `NAME_SIZE` bytes of `s`, zero-padded.
pub open spec fn name_buffer(s: Seq<u8>) -> Seq<u8> {
    Seq::new(NAME_SIZE as nat, |i: int| if i < s.len() { s[i] } else { 0u8 })
}

/// How many bytes of `s` a name keeps.
pub open spec fn kept_len(s: Seq<u8>) -> nat {
    if s.len() < NAME_SIZE { s.len() } else { NAME_SIZE as nat }
}

/// Builds a word name from a string, keeping at most `NAME_SIZE` bytes.
pub fn word_name_from_str(name: &str) -> (r: (WordName, u8))
    ensures
        r.0@ == name_buffer(name.spec_bytes()),
        r.1 as nat == kept_len(name.spec_bytes()),
{
    let bytes = name.as_bytes();
    let mut word_name: WordName = [0u8; NAME_SIZE];
    let mut i: usize = 0;
    while i < bytes.len() && i < NAME_SIZE
        invariant
            bytes@ == name.spec_bytes(),
            i <= NAME_SIZE,
            i <= bytes@.len(),
            forall|j: int| 0 <= j < i ==> word_name@[j] == bytes@[j],
            forall|j: int| i <= j < NAME_SIZE ==> word_name@[j] == 0u8,
        decreases NAME_SIZE - i,
    {
        word_name[i] = bytes[i];
        i += 1;
    }
    assert(word_name@ =~= name_buffer(bytes@));
    let len: u8 = if bytes.len() < NAME_SIZE { bytes.len() as u8 } else { NAME_SIZE as u8 };
    (word_name, len)
}

} // verus!
