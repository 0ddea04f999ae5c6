//! The terminal input buffer: splits a byte source into name tokens.
use vstd::prelude::*;

use crate::name::{name_buffer, WordName, NAME_SIZE};

verus! {

/// Comma, space and every control byte separate tokens.
pub open spec fn is_delimiter(b: u8) -> bool {
    b == 44 || b <= 32
}

/// The first index at or after `p` that holds no delimiter, or the end.
pub open spec fn skip_delimiters(s: Seq<u8>, p: int) -> int
    decreases s.len() - p,
{
    if 0 <= p < s.len() && is_delimiter(s[p]) {
        skip_delimiters(s, p + 1)
    } else {
        p
    }
}

/// The first index at or after `p` that holds a delimiter, or the end.
pub open spec fn token_end(s: Seq<u8>, p: int) -> int
    decreases s.len() - p,
{
    if 0 <= p < s.len() && !is_delimiter(s[p]) {
        token_end(s, p + 1)
    } else {
        p
    }
}

/// Where the next token starts, reading from `p`.
pub open spec fn token_start(s: Seq<u8>, p: int) -> int {
    skip_delimiters(s, p)
}

/// The bytes of the next token read from `p`, cut to `NAME_SIZE`.
pub open spec fn next_token(s: Seq<u8>, p: int) -> Seq<u8> {
    let start = token_start(s, p);
    let end = token_end(s, start);
    if end - start <= NAME_SIZE {
        s.subrange(start, end)
    } else {
        s.subrange(start, start + NAME_SIZE)
    }
}

/// Where reading resumes after the next token: past the delimiter that ends it.
pub open spec fn after_token(s: Seq<u8>, p: int) -> int {
    let end = token_end(s, token_start(s, p));
    if end < s.len() {
        end + 1
    } else {
        end
    }
}

proof fn lemma_skip_bounds(s: Seq<u8>, p: int)
    requires
        0 <= p <= s.len(),
    ensures
        p <= skip_delimiters(s, p) <= s.len(),
    decreases s.len() - p,
{
    if p < s.len() && is_delimiter(s[p]) {
        lemma_skip_bounds(s, p + 1);
    }
}

proof fn lemma_end_bounds(s: Seq<u8>, p: int)
    requires
        0 <= p <= s.len(),
    ensures
        p <= token_end(s, p) <= s.len(),
        forall|i: int| p <= i < token_end(s, p) ==> !is_delimiter(#[trigger] s[i]),
    decreases s.len() - p,
{
    if p < s.len() && !is_delimiter(s[p]) {
        lemma_end_bounds(s, p + 1);
    }
}

/// A token holds at most `NAME_SIZE` bytes.
pub proof fn lemma_next_token_short(s: Seq<u8>, p: int)
    requires
        0 <= p <= s.len(),
    ensures
        next_token(s, p).len() <= NAME_SIZE,
{
    lemma_skip_bounds(s, p);
    lemma_end_bounds(s, token_start(s, p));
}

/// Terminal input buffer: a byte source and the position of the next byte.
pub struct TIB {
    source: Vec<u8>,
    pos: usize,
}

impl TIB {
    #[verifier::type_invariant]
    spec fn inv(&self) -> bool {
        self.pos <= self.source@.len()
    }

    /// The bytes being read.
    pub closed spec fn source(&self) -> Seq<u8> {
        self.source@
    }

    /// The index of the next byte to read.
    pub closed spec fn position(&self) -> int {
        self.pos as int
    }

    /// A buffer that reads `reader` from its first byte.
    pub fn new(reader: Vec<u8>) -> (r: Self)
        ensures
            r.source() == reader@,
            r.position() == 0,
    {
        Self { source: reader, pos: 0 }
    }

    /// Reads the next token: skips delimiters, then takes bytes up to the next
    /// delimiter, keeping at most `NAME_SIZE` of them; the delimiter that ends
    /// the token is consumed. A length of zero means the source is exhausted.
    pub fn next_word(&mut self) -> (r: (WordName, u8))
        ensures
            final(self).source() == old(self).source(),
            0 <= final(self).position() <= final(self).source().len(),
            final(self).position() == after_token(old(self).source(), old(self).position()),
            r.0@ == name_buffer(next_token(old(self).source(), old(self).position())),
            r.1 as int == next_token(old(self).source(), old(self).position()).len(),
            r.1 <= NAME_SIZE,
            (r.1 == 0) <==> token_start(old(self).source(), old(self).position()) == old(
                self,
            ).source().len(),
    {
        proof {
            use_type_invariant(&*self);
        }
        let ghost s = self.source@;
        let ghost p0 = self.pos as int;
        while self.pos < self.source.len() && (self.source[self.pos] == 44 || self.source[self.pos]
            <= 32)
            invariant
                self.source@ == s,
                0 <= p0 <= self.pos <= s.len(),
                skip_delimiters(s, p0) == skip_delimiters(s, self.pos as int),
            decreases s.len() - self.pos,
        {
            self.pos = self.pos + 1;
        }
        let start = self.pos;
        proof {
            lemma_skip_bounds(s, p0);
            lemma_end_bounds(s, start as int);
        }
        let mut word_name: WordName = [0u8; NAME_SIZE];
        while self.pos < self.source.len() && !(self.source[self.pos] == 44 || self.source[self.pos]
            <= 32)
            invariant
                self.source@ == s,
                start <= self.pos <= s.len(),
                start == skip_delimiters(s, p0),
                token_end(s, start as int) == token_end(s, self.pos as int),
                forall|j: int|
                    0 <= j < NAME_SIZE ==> word_name@[j] == (if j < self.pos - start {
                        s[start + j]
                    } else {
                        0u8
                    }),
            decreases s.len() - self.pos,
        {
            if self.pos - start < NAME_SIZE {
                word_name[self.pos - start] = self.source[self.pos];
            }
            self.pos = self.pos + 1;
        }
        let end = self.pos;
        let len: usize = if end - start < NAME_SIZE {
            end - start
        } else {
            NAME_SIZE
        };
        if self.pos < self.source.len() {
            self.pos = self.pos + 1;
        }
        assert(word_name@ =~= name_buffer(next_token(s, p0)));
        (word_name, len as u8)
    }
}

} // verus!
