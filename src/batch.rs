//! Splitting the messages of one submission into transactions.
use vstd::prelude::*;

use crate::error::Error;
use crate::proto::{singular_field_len, utf8_len};

verus! {

/// A protobuf `Any`: a type URL and the encoded message it names.
#[derive(Clone, Debug, PartialEq, Eq)]
pub struct Any {
    pub type_url: String,
    pub value: Vec<u8>,
}

/// Encoded size of an `Any`: field 1 holds the type URL, field 2 the value.
pub open spec fn any_encoded_len(m: Any) -> nat {
    singular_field_len(utf8_len(m.type_url@)) + singular_field_len(m.value@.len())
}

/// Relies on prost's `Message::encode` for `prost_types::Any`: into an empty
/// vector it writes exactly `encoded_len()` bytes, and fails only when that
/// length is above what a vector may hold (`isize::MAX`).
#[verifier::external_body]
fn encoded_any_len(m: &Any) -> (r: Result<usize, prost::EncodeError>)
    ensures
        r is Ok <==> any_encoded_len(*m) <= isize::MAX,
        r matches Ok(n) ==> n == any_encoded_len(*m),
{
    let any = prost_types::Any { type_url: m.type_url.clone(), value: m.value.clone() };
    let mut buf: Vec<u8> = Vec::new();
    prost::Message::encode(&any, &mut buf)?;
    Ok(buf.len())
}

/// Size in bytes of a message once encoded.
pub fn message_size(message: &Any) -> (r: Result<usize, Error>)
    ensures
        r is Ok <==> any_encoded_len(*message) <= isize::MAX,
        r matches Ok(n) ==> n == any_encoded_len(*message),
        r matches Err(e) ==> e == Error::ProtobufEncode,
{
    match encoded_any_len(message) {
        Ok(n) => Ok(n),
        Err(_) => Err(Error::ProtobufEncode),
    }
}

/// Total encoded size of a batch.
pub open spec fn batch_size(batch: Seq<Any>) -> nat
    decreases batch.len(),
{
    if batch.len() == 0 {
        0
    } else {
        batch_size(batch.drop_last()) + any_encoded_len(batch.last())
    }
}

/// A message can be sent: it encodes, and alone it fits in a transaction.
pub open spec fn message_fits(m: Any, max_tx_size: nat) -> bool {
    any_encoded_len(m) <= isize::MAX && any_encoded_len(m) <= max_tx_size
}

/// The error reported for a message that cannot be sent.
pub open spec fn message_error(m: Any, max_tx_size: usize) -> Error {
    if any_encoded_len(m) > isize::MAX {
        Error::ProtobufEncode
    } else {
        Error::MessageTooBigForTx { size: any_encoded_len(m) as usize, max_tx_size }
    }
}

/// Greedy batching: each message joins the last batch while that batch has
/// fewer than `max_count` messages and stays within `max_size` bytes;
/// otherwise it opens a new batch.
pub open spec fn batches_of(msgs: Seq<Any>, max_count: nat, max_size: nat) -> Seq<Seq<Any>>
    decreases msgs.len(),
{
    if msgs.len() == 0 {
        Seq::empty()
    } else {
        let prev = batches_of(msgs.drop_last(), max_count, max_size);
        let m = msgs.last();
        if prev.len() > 0 && prev.last().len() < max_count && batch_size(prev.last())
            + any_encoded_len(m) <= max_size {
            prev.update(prev.len() - 1, prev.last().push(m))
        } else {
            prev.push(seq![m])
        }
    }
}

pub open spec fn vecs_view(v: Seq<Vec<Any>>) -> Seq<Seq<Any>> {
    v.map_values(|b: Vec<Any>| b@)
}

/// Splits `messages` into consecutive batches of at most `max_message_count`
/// messages and at most `max_tx_size` encoded bytes each. Fails on the first
/// message that cannot be encoded or that alone exceeds `max_tx_size`.
pub fn batch_messages(messages: Vec<Any>, max_message_count: usize, max_tx_size: usize) -> (r:
    Result<Vec<Vec<Any>>, Error>)
    ensures
        r is Ok <==> forall|i: int|
            0 <= i < messages@.len() ==> message_fits(#[trigger] messages@[i], max_tx_size as nat),
        r matches Ok(b) ==> vecs_view(b@) == batches_of(
            messages@,
            max_message_count as nat,
            max_tx_size as nat,
        ),
        r matches Err(e) ==> exists|i: int|
            0 <= i < messages@.len() && !message_fits(#[trigger] messages@[i], max_tx_size as nat)
                && (forall|j: int|
                0 <= j < i ==> message_fits(#[trigger] messages@[j], max_tx_size as nat)) && e
                == message_error(messages@[i], max_tx_size),
{
    let ghost msgs = messages@;
    let mut batches: Vec<Vec<Any>> = Vec::new();
    let mut current: Vec<Any> = Vec::new();
    let mut current_size: usize = 0;
    let mut idx: usize = 0;
    let count = messages.len();

    for message in it: messages.into_iter()
        invariant
            it.seq() == msgs,
            idx == it.index(),
            idx <= msgs.len(),
            count == msgs.len(),
            forall|j: int| 0 <= j < idx ==> message_fits(#[trigger] msgs[j], max_tx_size as nat),
            current_size == batch_size(current@),
            current_size <= max_tx_size,
            idx == 0 ==> batches@.len() == 0 && current@.len() == 0,
            idx > 0 ==> current@.len() > 0 && vecs_view(batches@).push(current@) == batches_of(
                msgs.take(idx as int),
                max_message_count as nat,
                max_tx_size as nat,
            ),
    {
        let size = match message_size(&message) {
            Ok(n) => n,
            Err(e) => {
                return Err(e);
            },
        };
        if size > max_tx_size {
            return Err(Error::MessageTooBigForTx { size, max_tx_size });
        }
        let ghost prefix = msgs.take(idx as int);
        let ghost prev = batches_of(prefix, max_message_count as nat, max_tx_size as nat);
        let ghost next = batches_of(
            msgs.take(idx + 1),
            max_message_count as nat,
            max_tx_size as nat,
        );
        assert(msgs.take(idx + 1).drop_last() =~= prefix);
        assert(msgs.take(idx + 1).last() == message);
        assert(size == any_encoded_len(message));
        if current.len() > 0 && (current.len() >= max_message_count || current_size > max_tx_size
            - size) {
            let ghost done = vecs_view(batches@);
            assert(next == prev.push(seq![message]));
            batches.push(current);
            assert(vecs_view(batches@) =~= done.push(current@));
            current = Vec::new();
            current.push(message);
            current_size = size;
            assert(vecs_view(batches@).push(current@) =~= next);
        } else {
            let ghost before = current@;
            assert(idx > 0 ==> prev == vecs_view(batches@).push(before));
            current.push(message);
            assert(current@.drop_last() =~= before);
            assert(current@.last() == message);
            if idx == 0 {
                assert(prefix =~= Seq::<Any>::empty());
                assert(next =~= seq![seq![message]]);
                assert(current@ =~= seq![message]);
                assert(vecs_view(batches@) =~= Seq::<Seq<Any>>::empty());
                assert(vecs_view(batches@).push(current@) =~= next);
            } else {
                assert(next == prev.update(prev.len() - 1, prev.last().push(message)));
                assert(current@ == before.push(message));
                assert(prev.update(prev.len() - 1, before.push(message)) =~= vecs_view(
                    batches@,
                ).push(before.push(message)));
                assert(vecs_view(batches@).push(current@) =~= next);
            }
            current_size = current_size + size;
        }
        assert(batch_size(current@) == batch_size(current@.drop_last()) + any_encoded_len(message));
        assert(idx < count);
        idx = idx + 1;
    }
    assert(msgs.take(msgs.len() as int) == msgs);
    if current.len() > 0 {
        batches.push(current);
    }
    Ok(batches)
}

/// Batching keeps the messages and their order: the batches, concatenated,
/// are the input. With a positive message limit, and messages that each fit
/// in `max_size` bytes, every batch is non-empty and respects both limits.
pub proof fn lemma_batches_concat_and_respect_limits(
    msgs: Seq<Any>,
    max_count: nat,
    max_size: nat,
)
    requires
        max_count > 0,
        forall|i: int| 0 <= i < msgs.len() ==> any_encoded_len(#[trigger] msgs[i]) <= max_size,
    ensures
        batches_of(msgs, max_count, max_size).flatten() == msgs,
        forall|k: int|
            #![trigger batches_of(msgs, max_count, max_size)[k]]
            0 <= k < batches_of(msgs, max_count, max_size).len() ==> {
                let b = batches_of(msgs, max_count, max_size)[k];
                &&& b.len() > 0
                &&& b.len() <= max_count
                &&& batch_size(b) <= max_size
            },
    decreases msgs.len(),
{
    let batches = batches_of(msgs, max_count, max_size);
    if msgs.len() == 0 {
        assert(batches.flatten() =~= msgs);
    } else {
        let init = msgs.drop_last();
        let m = msgs.last();
        assert forall|i: int| 0 <= i < init.len() implies any_encoded_len(
            #[trigger] init[i],
        ) <= max_size by {
            assert(init[i] == msgs[i]);
        }
        lemma_batches_concat_and_respect_limits(init, max_count, max_size);
        let prev = batches_of(init, max_count, max_size);
        assert(any_encoded_len(m) <= max_size) by {
            assert(m == msgs[msgs.len() - 1]);
        }
        prev.lemma_flatten_and_flatten_alt_are_equivalent();
        batches.lemma_flatten_and_flatten_alt_are_equivalent();
        if prev.len() > 0 && prev.last().len() < max_count && batch_size(prev.last())
            + any_encoded_len(m) <= max_size {
            let last = prev.last().push(m);
            assert(batches == prev.update(prev.len() - 1, last));
            assert(batches.drop_last() =~= prev.drop_last());
            assert(last.drop_last() =~= prev.last());
            assert(batches.last() == last);
            assert(msgs =~= init.push(m));
            assert(prev.flatten_alt() == prev.drop_last().flatten_alt() + prev.last());
            assert(batches.flatten_alt() == batches.drop_last().flatten_alt() + last);
            assert(batches.flatten_alt() =~= msgs);
            assert forall|k: int|
                #![trigger batches[k]]
                0 <= k < batches.len() implies {
                let b = batches[k];
                &&& b.len() > 0
                &&& b.len() <= max_count
                &&& batch_size(b) <= max_size
            } by {
                if k < prev.len() - 1 {
                    assert(batches[k] == prev[k]);
                }
            }
        } else {
            let single = seq![m];
            assert(batches == prev.push(single));
            assert(batches.drop_last() =~= prev);
            assert(msgs =~= init.push(m));
            assert(batches.last() == single);
            assert(single.drop_last() =~= Seq::<Any>::empty());
            assert(batch_size(single.drop_last()) == 0);
            assert(single.last() == m);
            assert(batch_size(single) == any_encoded_len(m));
            assert(batches.flatten_alt() =~= msgs);
            assert forall|k: int|
                #![trigger batches[k]]
                0 <= k < batches.len() implies {
                let b = batches[k];
                &&& b.len() > 0
                &&& b.len() <= max_count
                &&& batch_size(b) <= max_size
            } by {
                if k < prev.len() {
                    assert(batches[k] == prev[k]);
                }
            }
        }
    }
}

} // verus!
