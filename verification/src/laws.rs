use vstd::prelude::*;

use crate::astring::AString;
use crate::atom::is_atom_seq;
use crate::command::CommandBody;
use crate::command::LPAREN;
use crate::command::RPAREN;
use crate::command::spec_setquota_token;
use crate::encode::Encode;
use crate::encode::spec_joined;
use crate::numbers::DIGIT_ZERO;
use crate::numbers::lemma_decimal_shape;
use crate::numbers::spec_decimal;
use crate::quota::QuotaResourceName;
use crate::quota::SP;
use crate::quota::SetQuotaResource;
use crate::quota::spec_storage_token;

verus! {

/// Law: for every limit, the storage set-quota pair renders as `STORAGE`,
/// exactly one space, and the limit in decimal — non-empty, ASCII digits
/// only, no sign, no leading zero.
pub proof fn lemma_storage_pair_wire(limit: u64)
    ensures
        (SetQuotaResource { name: QuotaResourceName::Storage, limit }).wire()
            == spec_storage_token() + seq![SP] + spec_decimal(limit as nat),
        spec_decimal(limit as nat).len() > 0,
        limit > 0 ==> spec_decimal(limit as nat)[0] != DIGIT_ZERO,
        forall|i: int|
            0 <= i < spec_decimal(limit as nat).len() ==> 0x30 <= #[trigger] spec_decimal(
                limit as nat,
            )[i] <= 0x39,
{
    lemma_decimal_shape(limit as nat);
}

/// Law: for every sequence of pairs, the set-quota command over a mailbox
/// whose bytes stand bare (as `INBOX` does) renders as `SETQUOTA`, a space,
/// those bytes, a space, and the space-joined pairs in the caller's order
/// between one pair of parentheses — `()` when the sequence is empty.
pub proof fn lemma_set_quota_command_wire(mailbox: AString, quotas: Vec<SetQuotaResource>)
    requires
        is_atom_seq(mailbox@),
    ensures
        (CommandBody::SetQuota { mailbox, quotas }).wire() == spec_setquota_token() + seq![SP]
            + mailbox@ + seq![SP, LPAREN] + spec_joined(quotas@, seq![SP]) + seq![RPAREN],
        quotas@.len() == 0 ==> spec_joined(quotas@, seq![SP]) == Seq::<u8>::empty(),
{
}

/// Law: encoding is deterministic. The contract of `Encode::encode` ties the
/// appended bytes to the value's one wire form, so two encodes of one value
/// append byte-identical output, whatever either sink already held.
pub proof fn lemma_encode_deterministic<T: Encode>(
    v: &T,
    before1: Seq<u8>,
    after1: Seq<u8>,
    before2: Seq<u8>,
    after2: Seq<u8>,
)
    requires
        after1 == before1 + v.wire(),
        after2 == before2 + v.wire(),
    ensures
        after1.skip(before1.len() as int) == after2.skip(before2.len() as int),
{
    assert(after1.skip(before1.len() as int) =~= v.wire());
    assert(after2.skip(before2.len() as int) =~= v.wire());
}

} // verus!
