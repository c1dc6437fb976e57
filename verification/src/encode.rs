use vstd::prelude::*;

verus! {

/// The capability every protocol value implements: rendering itself as the
/// exact byte sequence its grammar production prescribes, appended to a
/// caller-supplied sink. Separators between values are the caller's business;
/// a value never emits a leading or trailing one.
pub trait Encode {
    /// The bytes this value stands for on the wire.
    spec fn wire(&self) -> Seq<u8>;

    /// Append this value's wire bytes to `out`, changing nothing else.
    fn encode(&self, out: &mut Vec<u8>)
        ensures
            final(out)@ == old(out)@ + self.wire(),
    ;
}

/// Append every byte of `bytes` to `out`, in order.
pub fn push_bytes(out: &mut Vec<u8>, bytes: &[u8])
    ensures
        final(out)@ == old(out)@ + bytes@,
{
    let ghost start: Seq<u8> = out@;
    let mut i: usize = 0;
    while i < bytes.len()
        invariant
            i <= bytes@.len(),
            out@ == start + bytes@.take(i as int),
        decreases bytes@.len() - i,
    {
        out.push(bytes[i]);
        proof {
            assert(out@ =~= start + bytes@.take(i as int + 1));
        }
        i += 1;
    }
    proof {
        assert(bytes@.take(bytes@.len() as int) =~= bytes@);
    }
}

/// The bytes of `items` rendered in order with `sep` between neighbours:
/// nothing around a single item, nothing at all for none.
pub open spec fn spec_joined<T: Encode>(items: Seq<T>, sep: Seq<u8>) -> Seq<u8>
    decreases items.len(),
{
    if items.len() == 0 {
        Seq::empty()
    } else if items.len() == 1 {
        items[0].wire()
    } else {
        spec_joined(items.drop_last(), sep) + sep + items.last().wire()
    }
}

/// Growing a joined rendering by one item appends one separator (none before
/// the first item) and that item's bytes.
pub proof fn lemma_joined_step<T: Encode>(items: Seq<T>, sep: Seq<u8>, i: int)
    requires
        0 <= i < items.len(),
    ensures
        i == 0 ==> spec_joined(items.take(1), sep) == items[0].wire(),
        i > 0 ==> spec_joined(items.take(i + 1), sep) == spec_joined(items.take(i), sep) + sep
            + items[i].wire(),
{
    assert(items.take(i + 1).drop_last() =~= items.take(i));
    assert(items.take(i + 1).last() == items[i]);
}

/// Encode every item of `items` in order, one `sep` byte between neighbours.
pub fn encode_joined<T: Encode>(items: &Vec<T>, sep: u8, out: &mut Vec<u8>)
    ensures
        final(out)@ == old(out)@ + spec_joined(items@, seq![sep]),
{
    let ghost start: Seq<u8> = out@;
    let mut i: usize = 0;
    while i < items.len()
        invariant
            i <= items@.len(),
            out@ == start + spec_joined(items@.take(i as int), seq![sep]),
        decreases items@.len() - i,
    {
        if i > 0 {
            out.push(sep);
        }
        items[i].encode(out);
        proof {
            lemma_joined_step(items@, seq![sep], i as int);
            assert(out@ =~= start + spec_joined(items@.take(i as int + 1), seq![sep]));
        }
        i += 1;
    }
    proof {
        assert(items@.take(items@.len() as int) =~= items@);
    }
}

} // verus!
