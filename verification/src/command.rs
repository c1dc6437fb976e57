use vstd::prelude::*;

use crate::astring::AString;
use crate::encode::Encode;
use crate::encode::encode_joined;
use crate::encode::spec_joined;
use crate::quota::SP;
use crate::quota::SetQuotaResource;

verus! {

/// ASCII code of the opening parenthesis.
pub const LPAREN: u8 = 0x28;

/// ASCII code of the closing parenthesis.
pub const RPAREN: u8 = 0x29;

/// `GETQUOTA` as wire bytes.
pub open spec fn spec_getquota_token() -> Seq<u8> {
    seq![0x47u8, 0x45, 0x54, 0x51, 0x55, 0x4f, 0x54, 0x41]
}

/// `GETQUOTAROOT` as wire bytes.
pub open spec fn spec_getquotaroot_token() -> Seq<u8> {
    seq![0x47u8, 0x45, 0x54, 0x51, 0x55, 0x4f, 0x54, 0x41, 0x52, 0x4f, 0x4f, 0x54]
}

/// `SETQUOTA` as wire bytes.
pub open spec fn spec_setquota_token() -> Seq<u8> {
    seq![0x53u8, 0x45, 0x54, 0x51, 0x55, 0x4f, 0x54, 0x41]
}

fn push_getquota(out: &mut Vec<u8>)
    ensures
        final(out)@ == old(out)@ + spec_getquota_token(),
{
    out.push(0x47);
    out.push(0x45);
    out.push(0x54);
    out.push(0x51);
    out.push(0x55);
    out.push(0x4f);
    out.push(0x54);
    out.push(0x41);
    proof {
        assert(out@ =~= old(out)@ + spec_getquota_token());
    }
}

fn push_getquotaroot(out: &mut Vec<u8>)
    ensures
        final(out)@ == old(out)@ + spec_getquotaroot_token(),
{
    push_getquota(out);
    out.push(0x52);
    out.push(0x4f);
    out.push(0x4f);
    out.push(0x54);
    proof {
        assert(out@ =~= old(out)@ + spec_getquotaroot_token());
    }
}

fn push_setquota(out: &mut Vec<u8>)
    ensures
        final(out)@ == old(out)@ + spec_setquota_token(),
{
    out.push(0x53);
    out.push(0x45);
    out.push(0x54);
    out.push(0x51);
    out.push(0x55);
    out.push(0x4f);
    out.push(0x54);
    out.push(0x41);
    proof {
        assert(out@ =~= old(out)@ + spec_setquota_token());
    }
}

/// The three client commands this extension adds to the protocol's command
/// set: querying a mailbox's quotas, querying its quota roots, and setting
/// quota limits on a quota root.
#[derive(Clone, Debug, PartialEq, Eq, Hash)]
pub enum CommandBody {
    GetQuota { mailbox: AString },
    GetQuotaRoot { mailbox: AString },
    SetQuota { mailbox: AString, quotas: Vec<SetQuotaResource> },
}

impl CommandBody {
    /// Build a get-quota command for `mailbox`.
    pub fn get_quota(mailbox: AString) -> (c: CommandBody)
        ensures
            c == (CommandBody::GetQuota { mailbox }),
    {
        CommandBody::GetQuota { mailbox }
    }

    /// Build a get-quota-root command for `mailbox`.
    pub fn get_quota_root(mailbox: AString) -> (c: CommandBody)
        ensures
            c == (CommandBody::GetQuotaRoot { mailbox }),
    {
        CommandBody::GetQuotaRoot { mailbox }
    }

    /// Build a set-quota command over `quotas`, kept in the caller's order:
    /// nothing is sorted or deduplicated.
    pub fn set_quota(mailbox: AString, quotas: Vec<SetQuotaResource>) -> (c: CommandBody)
        ensures
            c == (CommandBody::SetQuota { mailbox, quotas }),
    {
        CommandBody::SetQuota { mailbox, quotas }
    }
}

impl Encode for CommandBody {
    /// The command keyword, a space and the mailbox name; for set-quota also
    /// a space and the pairs space-joined between one pair of parentheses,
    /// `()` when there are none.
    open spec fn wire(&self) -> Seq<u8> {
        match self {
            CommandBody::GetQuota { mailbox } => spec_getquota_token() + seq![SP] + mailbox.wire(),
            CommandBody::GetQuotaRoot { mailbox } => spec_getquotaroot_token() + seq![SP]
                + mailbox.wire(),
            CommandBody::SetQuota { mailbox, quotas } => spec_setquota_token() + seq![SP]
                + mailbox.wire() + seq![SP, LPAREN] + spec_joined(quotas@, seq![SP])
                + seq![RPAREN],
        }
    }

    fn encode(&self, out: &mut Vec<u8>) {
        let ghost start: Seq<u8> = out@;
        match self {
            CommandBody::GetQuota { mailbox } => {
                push_getquota(out);
                out.push(SP);
                mailbox.encode(out);
            },
            CommandBody::GetQuotaRoot { mailbox } => {
                push_getquotaroot(out);
                out.push(SP);
                mailbox.encode(out);
            },
            CommandBody::SetQuota { mailbox, quotas } => {
                push_setquota(out);
                out.push(SP);
                mailbox.encode(out);
                out.push(SP);
                out.push(LPAREN);
                encode_joined(quotas, SP, out);
                out.push(RPAREN);
            },
        }
        proof {
            assert(out@ =~= start + self.wire());
        }
    }
}

} // verus!
