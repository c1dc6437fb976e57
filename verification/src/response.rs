use vstd::prelude::*;

use crate::astring::AString;
use crate::astring::DQUOTE;
use crate::astring::spec_escaped;
use crate::astring::spec_string_wire;
use crate::command::LPAREN;
use crate::command::RPAREN;
use crate::encode::Encode;
use crate::encode::encode_joined;
use crate::encode::spec_joined;
use crate::quota::QuotaResource;
use crate::quota::SP;

verus! {

/// ASCII code of carriage return.
pub const CR: u8 = 0x0d;

/// ASCII code of line feed.
pub const LF: u8 = 0x0a;

/// `* QUOTA` as wire bytes: the untagged-response star, a space and the
/// keyword.
pub open spec fn spec_quota_line_token() -> Seq<u8> {
    seq![0x2au8, 0x20, 0x51, 0x55, 0x4f, 0x54, 0x41]
}

/// `* QUOTAROOT` as wire bytes.
pub open spec fn spec_quotaroot_line_token() -> Seq<u8> {
    seq![0x2au8, 0x20, 0x51, 0x55, 0x4f, 0x54, 0x41, 0x52, 0x4f, 0x4f, 0x54]
}

fn push_quota_line(out: &mut Vec<u8>)
    ensures
        final(out)@ == old(out)@ + spec_quota_line_token(),
{
    out.push(0x2a);
    out.push(0x20);
    out.push(0x51);
    out.push(0x55);
    out.push(0x4f);
    out.push(0x54);
    out.push(0x41);
    proof {
        assert(out@ =~= old(out)@ + spec_quota_line_token());
    }
}

fn push_quotaroot_line(out: &mut Vec<u8>)
    ensures
        final(out)@ == old(out)@ + spec_quotaroot_line_token(),
{
    push_quota_line(out);
    out.push(0x52);
    out.push(0x4f);
    out.push(0x4f);
    out.push(0x54);
    proof {
        assert(out@ =~= old(out)@ + spec_quotaroot_line_token());
    }
}

/// Every quota-root name preceded by one space, in order; nothing for none.
pub open spec fn spec_rooted(roots: Seq<AString>) -> Seq<u8>
    decreases roots.len(),
{
    if roots.len() == 0 {
        Seq::empty()
    } else {
        spec_rooted(roots.drop_last()) + seq![SP] + roots.last().wire()
    }
}

/// Growing the rooted rendering by one name appends one space and that
/// name's bytes.
pub proof fn lemma_rooted_step(roots: Seq<AString>, i: int)
    requires
        0 <= i < roots.len(),
    ensures
        spec_rooted(roots.take(i + 1)) == spec_rooted(roots.take(i)) + seq![SP] + roots[i].wire(),
{
    assert(roots.take(i + 1).drop_last() =~= roots.take(i));
    assert(roots.take(i + 1).last() == roots[i]);
}

/// The two untagged server-data lines this extension adds to the protocol's
/// response set: a quota usage report and a quota-root listing.
#[derive(Clone, Debug, PartialEq, Eq, Hash)]
pub enum Data {
    Quota { root: AString, quotas: Vec<QuotaResource> },
    QuotaRoot { mailbox: AString, roots: Vec<AString> },
}

impl Data {
    /// Build a quota usage report for quota root `root`, entries kept in the
    /// caller's order.
    pub fn quota(root: AString, quotas: Vec<QuotaResource>) -> (d: Data)
        ensures
            d == (Data::Quota { root, quotas }),
    {
        Data::Quota { root, quotas }
    }

    /// Build a quota-root listing for `mailbox`, roots kept in the caller's
    /// order.
    pub fn quota_root(mailbox: AString, roots: Vec<AString>) -> (d: Data)
        ensures
            d == (Data::QuotaRoot { mailbox, roots }),
    {
        Data::QuotaRoot { mailbox, roots }
    }
}

impl Encode for Data {
    /// A full untagged line, CRLF included. The quota report parenthesizes
    /// its space-joined entries; the quota-root listing does not parenthesize
    /// its names — that asymmetry is the protocol grammar's — and with no
    /// roots it carries one empty string token after the mailbox name.
    open spec fn wire(&self) -> Seq<u8> {
        match self {
            Data::Quota { root, quotas } => spec_quota_line_token() + seq![SP] + root.wire()
                + seq![SP, LPAREN] + spec_joined(quotas@, seq![SP]) + seq![RPAREN, CR, LF],
            Data::QuotaRoot { mailbox, roots } => spec_quotaroot_line_token() + seq![SP]
                + mailbox.wire() + (if roots@.len() == 0 {
                seq![SP] + spec_string_wire(Seq::empty())
            } else {
                spec_rooted(roots@)
            }) + seq![CR, LF],
        }
    }

    fn encode(&self, out: &mut Vec<u8>) {
        let ghost start: Seq<u8> = out@;
        match self {
            Data::Quota { root, quotas } => {
                push_quota_line(out);
                out.push(SP);
                root.encode(out);
                out.push(SP);
                out.push(LPAREN);
                encode_joined(quotas, SP, out);
                out.push(RPAREN);
            },
            Data::QuotaRoot { mailbox, roots } => {
                push_quotaroot_line(out);
                out.push(SP);
                mailbox.encode(out);
                if roots.len() == 0 {
                    out.push(SP);
                    out.push(DQUOTE);
                    out.push(DQUOTE);
                    proof {
                        assert(spec_escaped(Seq::<u8>::empty()) == Seq::<u8>::empty());
                        assert(spec_string_wire(Seq::empty()) =~= seq![DQUOTE, DQUOTE]);
                    }
                } else {
                    let ghost mid: Seq<u8> = out@;
                    let mut i: usize = 0;
                    while i < roots.len()
                        invariant
                            i <= roots@.len(),
                            out@ == mid + spec_rooted(roots@.take(i as int)),
                        decreases roots@.len() - i,
                    {
                        out.push(SP);
                        roots[i].encode(out);
                        proof {
                            lemma_rooted_step(roots@, i as int);
                            assert(out@ =~= mid + spec_rooted(roots@.take(i as int + 1)));
                        }
                        i += 1;
                    }
                    proof {
                        assert(roots@.take(roots@.len() as int) =~= roots@);
                    }
                }
            },
        }
        out.push(CR);
        out.push(LF);
        proof {
            assert(out@ =~= start + self.wire());
        }
    }
}

} // verus!
