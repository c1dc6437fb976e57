use vstd::prelude::*;

use crate::atom::is_atom_seq;
use crate::atom::atom_seq_ok;
use crate::atom::TokenError;
use crate::encode::Encode;
use crate::encode::push_bytes;
use crate::numbers::encode_u64;
use crate::numbers::spec_decimal;

verus! {

/// ASCII code of the double quote.
pub const DQUOTE: u8 = 0x22;

/// ASCII code of the backslash.
pub const BACKSLASH: u8 = 0x5c;

/// A byte a quoted string can carry: ASCII text without CR and LF. The two
/// bytes the quoting itself reserves are carried escaped, so they count too.
pub open spec fn is_quotable_byte(b: u8) -> bool {
    0x01 <= b <= 0x7f && b != 0x0d && b != 0x0a
}

/// Every byte of `s` can travel inside a quoted string.
pub open spec fn is_quotable_seq(s: Seq<u8>) -> bool {
    forall|i: int| 0 <= i < s.len() ==> is_quotable_byte(#[trigger] s[i])
}

/// One byte of a quoted string's body: `"` and `\` get a backslash before
/// them, every other byte passes unchanged.
pub open spec fn spec_escaped_byte(b: u8) -> Seq<u8> {
    if b == DQUOTE || b == BACKSLASH {
        seq![BACKSLASH, b]
    } else {
        seq![b]
    }
}

/// The escaped body of a quoted string holding `s`.
pub open spec fn spec_escaped(s: Seq<u8>) -> Seq<u8>
    decreases s.len(),
{
    if s.len() == 0 {
        Seq::empty()
    } else {
        spec_escaped(s.drop_last()) + spec_escaped_byte(s.last())
    }
}

/// The wire form the flexible string picks for contents `s`: the bytes bare
/// where they already form an identifier token, a quoted string where every
/// byte is quotable (the empty contents among them), and a length-prefixed
/// literal otherwise.
pub open spec fn spec_string_wire(s: Seq<u8>) -> Seq<u8> {
    if is_atom_seq(s) {
        s
    } else if is_quotable_seq(s) {
        seq![DQUOTE] + spec_escaped(s) + seq![DQUOTE]
    } else {
        seq![0x7bu8] + spec_decimal(s.len()) + seq![0x7du8, 0x0du8, 0x0au8] + s
    }
}

pub(crate) fn quotable_seq_ok(bytes: &[u8]) -> (r: bool)
    ensures
        r == is_quotable_seq(bytes@),
{
    let mut i: usize = 0;
    while i < bytes.len()
        invariant
            i <= bytes@.len(),
            forall|j: int| 0 <= j < i ==> is_quotable_byte(#[trigger] bytes@[j]),
        decreases bytes@.len() - i,
    {
        let b: u8 = bytes[i];
        if !(0x01 <= b && b <= 0x7f && b != 0x0d && b != 0x0a) {
            return false;
        }
        i += 1;
    }
    true
}

/// A flexible protocol string: it accepts any octet sequence free of NUL and
/// chooses its own wire form — bare token, quoted string or literal. Mailbox
/// names and quota-root names are values of this type.
#[derive(Clone, Debug, PartialEq, Eq, Hash)]
pub struct AString {
    bytes: Vec<u8>,
}

impl View for AString {
    type V = Seq<u8>;

    closed spec fn view(&self) -> Seq<u8> {
        self.bytes@
    }
}

impl AString {
    /// The construction-time invariant: no byte is NUL, which not even the
    /// literal form can carry.
    pub open spec fn wf(&self) -> bool {
        forall|i: int| 0 <= i < self@.len() ==> #[trigger] self@[i] != 0x00
    }

    /// Take ownership of `bytes` as string contents. Succeeds exactly when no
    /// byte is NUL; the empty contents are welcome and encode as `""`.
    pub fn try_new(bytes: Vec<u8>) -> (r: Result<AString, TokenError>)
        ensures
            (forall|i: int| 0 <= i < bytes@.len() ==> #[trigger] bytes@[i] != 0x00) ==> (
            r matches Ok(s) && s@ == bytes@ && s.wf()),
            (exists|i: int| 0 <= i < bytes@.len() && #[trigger] bytes@[i] == 0x00) ==> (
            r matches Err(e) && e == TokenError::ContainsNul),
    {
        let mut i: usize = 0;
        while i < bytes.len()
            invariant
                i <= bytes@.len(),
                forall|j: int| 0 <= j < i ==> #[trigger] bytes@[j] != 0x00,
            decreases bytes@.len() - i,
        {
            if bytes[i] == 0x00 {
                return Err(TokenError::ContainsNul);
            }
            i += 1;
        }
        Ok(AString { bytes })
    }

    /// The raw contents, before any quoting.
    pub fn as_bytes(&self) -> (r: &Vec<u8>)
        ensures
            r@ == self@,
    {
        &self.bytes
    }
}

impl Encode for AString {
    /// The flexible string's wire form for these contents.
    open spec fn wire(&self) -> Seq<u8> {
        spec_string_wire(self@)
    }

    fn encode(&self, out: &mut Vec<u8>) {
        if atom_seq_ok(self.bytes.as_slice()) {
            push_bytes(out, self.bytes.as_slice());
        } else if quotable_seq_ok(self.bytes.as_slice()) {
            let ghost start: Seq<u8> = out@;
            out.push(DQUOTE);
            let mut i: usize = 0;
            while i < self.bytes.len()
                invariant
                    i <= self.bytes@.len(),
                    out@ == start + seq![DQUOTE] + spec_escaped(self.bytes@.take(i as int)),
                decreases self.bytes@.len() - i,
            {
                let b: u8 = self.bytes[i];
                if b == DQUOTE || b == BACKSLASH {
                    out.push(BACKSLASH);
                }
                out.push(b);
                proof {
                    assert(self.bytes@.take(i as int + 1).drop_last() =~= self.bytes@.take(
                        i as int,
                    ));
                    assert(self.bytes@.take(i as int + 1).last() == self.bytes@[i as int]);
                    assert(out@ =~= start + seq![DQUOTE] + spec_escaped(
                        self.bytes@.take(i as int + 1),
                    ));
                }
                i += 1;
            }
            out.push(DQUOTE);
            proof {
                assert(self.bytes@.take(self.bytes@.len() as int) =~= self.bytes@);
                assert(out@ =~= start + self.wire());
            }
        } else {
            let ghost start: Seq<u8> = out@;
            out.push(0x7b);
            encode_u64(self.bytes.len() as u64, out);
            out.push(0x7d);
            out.push(0x0d);
            out.push(0x0a);
            push_bytes(out, self.bytes.as_slice());
            proof {
                assert(out@ =~= start + self.wire());
            }
        }
    }
}

} // verus!
