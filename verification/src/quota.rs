use vstd::prelude::*;

use crate::atom::Atom;
use crate::encode::Encode;
use crate::numbers::encode_u64;
use crate::numbers::spec_decimal;

verus! {

/// ASCII code of the space separating tokens on the wire.
pub const SP: u8 = 0x20;

/// `STORAGE` as wire bytes.
pub open spec fn spec_storage_token() -> Seq<u8> {
    seq![0x53u8, 0x54, 0x4f, 0x52, 0x41, 0x47, 0x45]
}

/// `MESSAGE` as wire bytes.
pub open spec fn spec_message_token() -> Seq<u8> {
    seq![0x4du8, 0x45, 0x53, 0x53, 0x41, 0x47, 0x45]
}

fn push_storage(out: &mut Vec<u8>)
    ensures
        final(out)@ == old(out)@ + spec_storage_token(),
{
    out.push(0x53);
    out.push(0x54);
    out.push(0x4f);
    out.push(0x52);
    out.push(0x41);
    out.push(0x47);
    out.push(0x45);
    proof {
        assert(out@ =~= old(out)@ + spec_storage_token());
    }
}

fn push_message(out: &mut Vec<u8>)
    ensures
        final(out)@ == old(out)@ + spec_message_token(),
{
    out.push(0x4d);
    out.push(0x45);
    out.push(0x53);
    out.push(0x53);
    out.push(0x41);
    out.push(0x47);
    out.push(0x45);
    proof {
        assert(out@ =~= old(out)@ + spec_message_token());
    }
}

/// The quota dimension a limit or a usage report speaks of: one of the two
/// well-known kinds, or a server-defined kind named by a validated
/// identifier token.
#[derive(Clone, Debug, PartialEq, Eq, Hash)]
pub enum QuotaResourceName {
    /// Storage volume, in the units the protocol fixes outside this layer.
    Storage,
    /// Number of messages.
    Message,
    /// A server-defined dimension; the token was validated at construction.
    Atom(Atom),
}

impl Encode for QuotaResourceName {
    /// A resource name is a single token: `STORAGE`, `MESSAGE`, or the
    /// extension token's bytes verbatim.
    open spec fn wire(&self) -> Seq<u8> {
        match self {
            QuotaResourceName::Storage => spec_storage_token(),
            QuotaResourceName::Message => spec_message_token(),
            QuotaResourceName::Atom(a) => a.wire(),
        }
    }

    fn encode(&self, out: &mut Vec<u8>) {
        match self {
            QuotaResourceName::Storage => push_storage(out),
            QuotaResourceName::Message => push_message(out),
            QuotaResourceName::Atom(a) => a.encode(out),
        }
    }
}

/// A requested quota ceiling: a resource name paired with the limit a client
/// asks the server to set. The limit is unit-less here; the protocol defines
/// units per resource kind.
#[derive(Clone, Debug, PartialEq, Eq, Hash)]
pub struct SetQuotaResource {
    pub name: QuotaResourceName,
    pub limit: u64,
}

impl Encode for SetQuotaResource {
    /// `resource-name SP limit`: the name's token, one space, the limit in
    /// decimal with no sign and no leading zero.
    open spec fn wire(&self) -> Seq<u8> {
        self.name.wire() + seq![SP] + spec_decimal(self.limit as nat)
    }

    fn encode(&self, out: &mut Vec<u8>) {
        let ghost start: Seq<u8> = out@;
        self.name.encode(out);
        out.push(SP);
        encode_u64(self.limit, out);
        proof {
            assert(out@ =~= start + self.wire());
        }
    }
}

/// A reported quota state: a resource name paired with current usage and the
/// ceiling. The two numbers are independent; the protocol permits reporting
/// usage above the limit.
#[derive(Clone, Debug, PartialEq, Eq, Hash)]
pub struct QuotaResource {
    pub name: QuotaResourceName,
    pub usage: u64,
    pub limit: u64,
}

impl Encode for QuotaResource {
    /// `resource-name SP usage SP limit`, each number in decimal.
    open spec fn wire(&self) -> Seq<u8> {
        self.name.wire() + seq![SP] + spec_decimal(self.usage as nat) + seq![SP] + spec_decimal(
            self.limit as nat,
        )
    }

    fn encode(&self, out: &mut Vec<u8>) {
        let ghost start: Seq<u8> = out@;
        self.name.encode(out);
        out.push(SP);
        encode_u64(self.usage, out);
        out.push(SP);
        encode_u64(self.limit, out);
        proof {
            assert(out@ =~= start + self.wire());
        }
    }
}

} // verus!
