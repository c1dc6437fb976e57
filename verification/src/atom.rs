use vstd::prelude::*;

use crate::encode::Encode;
use crate::encode::push_bytes;

verus! {

/// A byte legal in a bare identifier token: printable ASCII with none of the
/// characters the grammar reserves for delimiters, wildcards, quoting or
/// response codes.
pub open spec fn is_atom_byte(b: u8) -> bool {
    &&& 0x21 <= b <= 0x7e
    &&& b != 0x28  // (
    &&& b != 0x29  // )
    &&& b != 0x7b  // {
    &&& b != 0x25  // %
    &&& b != 0x2a  // *
    &&& b != 0x22  // "
    &&& b != 0x5c  // backslash
    &&& b != 0x5d  // ]
}

/// `s` forms a legal bare identifier token: at least one byte, each legal.
pub open spec fn is_atom_seq(s: Seq<u8>) -> bool {
    s.len() > 0 && forall|i: int| 0 <= i < s.len() ==> is_atom_byte(#[trigger] s[i])
}

pub(crate) fn atom_byte_ok(b: u8) -> (r: bool)
    ensures
        r == is_atom_byte(b),
{
    0x21 <= b && b <= 0x7e && b != 0x28 && b != 0x29 && b != 0x7b && b != 0x25 && b != 0x2a && b
        != 0x22 && b != 0x5c && b != 0x5d
}

pub(crate) fn atom_seq_ok(bytes: &[u8]) -> (r: bool)
    ensures
        r == is_atom_seq(bytes@),
{
    if bytes.len() == 0 {
        return false;
    }
    let mut i: usize = 0;
    while i < bytes.len()
        invariant
            i <= bytes@.len(),
            forall|j: int| 0 <= j < i ==> is_atom_byte(#[trigger] bytes@[j]),
        decreases bytes@.len() - i,
    {
        if !atom_byte_ok(bytes[i]) {
            return false;
        }
        i += 1;
    }
    true
}

/// Why a token value was rejected at construction.
#[derive(Clone, Copy, Debug, PartialEq, Eq)]
pub enum TokenError {
    /// The bytes do not form a legal bare identifier token.
    NotAnAtom,
    /// The bytes hold a NUL, which no string form of the wire can carry.
    ContainsNul,
}

/// A bare identifier token. Its bytes are validated once, at construction,
/// and emitted verbatim at encode time.
#[derive(Clone, Debug, PartialEq, Eq, Hash)]
pub struct Atom {
    bytes: Vec<u8>,
}

impl View for Atom {
    type V = Seq<u8>;

    closed spec fn view(&self) -> Seq<u8> {
        self.bytes@
    }
}

impl Atom {
    /// The construction-time invariant: the bytes form a legal token.
    pub open spec fn wf(&self) -> bool {
        is_atom_seq(self@)
    }

    /// Validate `bytes` as a bare identifier token and take ownership of it.
    /// Succeeds exactly when every byte is token-legal and there is at least
    /// one.
    pub fn try_new(bytes: Vec<u8>) -> (r: Result<Atom, TokenError>)
        ensures
            is_atom_seq(bytes@) ==> (r matches Ok(a) && a@ == bytes@ && a.wf()),
            !is_atom_seq(bytes@) ==> (r matches Err(e) && e == TokenError::NotAnAtom),
    {
        if atom_seq_ok(bytes.as_slice()) {
            Ok(Atom { bytes })
        } else {
            Err(TokenError::NotAnAtom)
        }
    }

    /// The token's bytes.
    pub fn as_bytes(&self) -> (r: &Vec<u8>)
        ensures
            r@ == self@,
    {
        &self.bytes
    }
}

impl Encode for Atom {
    /// A bare token's wire form is its bytes, verbatim: validation at
    /// construction already made escaping needless.
    open spec fn wire(&self) -> Seq<u8> {
        self@
    }

    fn encode(&self, out: &mut Vec<u8>) {
        push_bytes(out, self.bytes.as_slice());
    }
}

} // verus!
