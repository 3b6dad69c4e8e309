//! What holds of every name that is read: the limits, the pointers and the
//! budget of redirections.

use vstd::prelude::*;
use crate::packet::fqdn::{
    classify, parse_fqdn, parse_label, parse_name, pointer_target, valid_label, valid_name,
    wire_length, FqdnError, FqdnParsingFSM, FqdnResult, MAX_FQDN_LENGTH, MAX_NUMBER_OF_LABELS,
    MAX_REDIRECTIONS,
};

verus! {

/// The bytes that labels take on the wire add up.
pub proof fn lemma_wire_length_concat(first: Seq<Seq<u8>>, second: Seq<Seq<u8>>)
    ensures
        wire_length(first + second) == wire_length(first) + wire_length(second),
    decreases second.len(),
{
    if second.len() == 0 {
        assert(first + second =~= first);
    } else {
        lemma_wire_length_concat(first, second.drop_last());
        assert((first + second).drop_last() =~= first + second.drop_last());
    }
}

/// The bytes that labels take on the wire, counted from the first label.
pub proof fn lemma_wire_length_first(labels: Seq<Seq<u8>>)
    requires
        labels.len() > 0,
    ensures
        wire_length(labels) == labels[0].len() + 1 + wire_length(labels.drop_first()),
{
    let head = seq![labels[0]];
    assert(head + labels.drop_first() =~= labels);
    lemma_wire_length_concat(head, labels.drop_first());
    assert(head.drop_last() =~= Seq::<Seq<u8>>::empty());
    assert(wire_length(head) == labels[0].len() + 1) by {
        reveal_with_fuel(wire_length, 2);
    }
}

/// A pointer stands at `position`, whole, and points before itself.
pub open spec fn pointer_at(buffer: Seq<u8>, position: nat) -> bool {
    &&& position + 2 <= buffer.len()
    &&& classify(buffer[position as int]) == Ok::<FqdnParsingFSM, FqdnError>(
        FqdnParsingFSM::Pointer,
    )
    &&& pointer_target(buffer, position) < position
}

/// The result of a name read behind a pointer, as the level of the pointer
/// sees it: the labels, and the offset `next` behind the pointer.
pub open spec fn redirected(result: FqdnResult<(Seq<Seq<u8>>, nat)>, next: nat) -> FqdnResult<
    (Seq<Seq<u8>>, nat),
> {
    match result {
        Ok((labels, _)) => Ok((labels, next)),
        Err(e) => Err(e),
    }
}

/// A pointer whose target is not before the pointer itself is refused.
pub proof fn lemma_pointer_must_point_back(
    buffer: Seq<u8>,
    position: nat,
    jumps: nat,
    labels: Seq<Seq<u8>>,
)
    requires
        jumps <= MAX_REDIRECTIONS,
        position + 2 <= buffer.len(),
        classify(buffer[position as int]) == Ok::<FqdnParsingFSM, FqdnError>(
            FqdnParsingFSM::Pointer,
        ),
        pointer_target(buffer, position) >= position,
    ensures
        parse_name(buffer, position, jumps, labels) == Err::<(Seq<Seq<u8>>, nat), FqdnError>(
            FqdnError::IncorrectPointerOffset,
        ),
{
}

/// A pointer that points before itself is followed while fewer than three
/// were followed before; the fourth in a row is refused.
pub proof fn lemma_pointer_is_followed(
    buffer: Seq<u8>,
    position: nat,
    jumps: nat,
    labels: Seq<Seq<u8>>,
)
    requires
        jumps <= MAX_REDIRECTIONS,
        pointer_at(buffer, position),
    ensures
        parse_name(buffer, position, jumps, labels) == if jumps == MAX_REDIRECTIONS {
            Err(FqdnError::TooManyRedirections(4))
        } else {
            redirected(
                parse_name(buffer, pointer_target(buffer, position), jumps + 1, labels),
                position + 2,
            )
        },
{
    if jumps == MAX_REDIRECTIONS {
        assert(parse_name(buffer, pointer_target(buffer, position), jumps + 1, labels) == Err::<
            (Seq<Seq<u8>>, nat),
            FqdnError,
        >(FqdnError::TooManyRedirections(4)));
    }
}

/// A byte that announces a label of more than 63 bytes is refused, with
/// that byte.
pub proof fn lemma_label_length_is_bounded(
    buffer: Seq<u8>,
    position: nat,
    jumps: nat,
    labels: Seq<Seq<u8>>,
)
    requires
        jumps <= MAX_REDIRECTIONS,
        position < buffer.len(),
        63 < buffer[position as int] < 0xC0,
    ensures
        parse_name(buffer, position, jumps, labels) == Err::<(Seq<Seq<u8>>, nat), FqdnError>(
            FqdnError::MalformedLenOrPtrInfo(buffer[position as int]),
        ),
{
}

/// A label that can be read, behind 127 labels, is one label too many.
pub proof fn lemma_label_count_is_bounded(
    buffer: Seq<u8>,
    position: nat,
    jumps: nat,
    labels: Seq<Seq<u8>>,
)
    requires
        jumps <= MAX_REDIRECTIONS,
        position < buffer.len(),
        classify(buffer[position as int]) == Ok::<FqdnParsingFSM, FqdnError>(
            FqdnParsingFSM::Length,
        ),
        parse_label(buffer, position) is Ok,
        labels.len() >= MAX_NUMBER_OF_LABELS,
    ensures
        parse_name(buffer, position, jumps, labels) == Err::<(Seq<Seq<u8>>, nat), FqdnError>(
            FqdnError::ExceedingMaxNumberOfLabels,
        ),
{
}

/// A label that is read is valid, where its length byte announces a label.
pub proof fn lemma_read_label_is_valid(buffer: Seq<u8>, position: nat)
    requires
        position < buffer.len(),
        classify(buffer[position as int]) == Ok::<FqdnParsingFSM, FqdnError>(
            FqdnParsingFSM::Length,
        ),
    ensures
        parse_label(buffer, position) matches Ok((label, next)) ==> valid_label(label) && next
            == position + 1 + label.len(),
{
}

/// A name that is read after valid labels is valid, and holds those labels
/// first.
pub proof fn lemma_read_name_is_valid(
    buffer: Seq<u8>,
    position: nat,
    jumps: nat,
    labels: Seq<Seq<u8>>,
)
    requires
        valid_name(labels),
    ensures
        parse_name(buffer, position, jumps, labels) matches Ok((all, _)) ==> valid_name(all)
            && labels.is_prefix_of(all),
    decreases MAX_REDIRECTIONS + 1 - jumps, buffer.len() - position,
{
    if jumps <= MAX_REDIRECTIONS && position < buffer.len() {
        match classify(buffer[position as int]) {
            Ok(FqdnParsingFSM::Pointer) => {
                if position + 2 <= buffer.len() && pointer_target(buffer, position) < position {
                    lemma_read_name_is_valid(
                        buffer,
                        pointer_target(buffer, position),
                        jumps + 1,
                        labels,
                    );
                }
            },
            Ok(FqdnParsingFSM::Length) => {
                lemma_read_label_is_valid(buffer, position);
                if let Ok((label, next)) = parse_label(buffer, position) {
                    if labels.len() < MAX_NUMBER_OF_LABELS && wire_length(labels) + label.len() + 1
                        <= MAX_FQDN_LENGTH {
                        let longer = labels.push(label);
                        assert(longer.drop_last() =~= labels);
                        assert(valid_name(longer));
                        lemma_read_name_is_valid(buffer, next, jumps, longer);
                    }
                }
            },
            _ => {},
        }
    }
}

/// Every name that is read is valid.
pub proof fn lemma_read_fqdn_is_valid(buffer: Seq<u8>, position: nat)
    ensures
        parse_fqdn(buffer, position) matches Ok((labels, _)) ==> valid_name(labels),
{
    lemma_read_name_is_valid(buffer, position, 0, Seq::empty());
}

/// A name that can be read after some pointers can be read after fewer, and
/// is the same name.
pub proof fn lemma_fewer_jumps(
    buffer: Seq<u8>,
    position: nat,
    jumps: nat,
    fewer: nat,
    labels: Seq<Seq<u8>>,
)
    requires
        fewer <= jumps,
        parse_name(buffer, position, jumps, labels) is Ok,
    ensures
        parse_name(buffer, position, fewer, labels) == parse_name(buffer, position, jumps, labels),
    decreases MAX_REDIRECTIONS + 1 - fewer, buffer.len() - position,
{
    if position < buffer.len() && jumps <= MAX_REDIRECTIONS {
        match classify(buffer[position as int]) {
            Ok(FqdnParsingFSM::Pointer) => {
                lemma_fewer_jumps(
                    buffer,
                    pointer_target(buffer, position),
                    jumps + 1,
                    fewer + 1,
                    labels,
                );
            },
            Ok(FqdnParsingFSM::Length) => {
                if let Ok((label, next)) = parse_label(buffer, position) {
                    lemma_fewer_jumps(buffer, next, jumps, fewer, labels.push(label));
                }
            },
            _ => {},
        }
    }
}

/// A name that can be read behind some labels can be read behind fewer of
/// them, and is the same name without the others.
pub proof fn lemma_labels_before(
    buffer: Seq<u8>,
    position: nat,
    jumps: nat,
    before: Seq<Seq<u8>>,
    labels: Seq<Seq<u8>>,
)
    requires
        parse_name(buffer, position, jumps, before + labels) is Ok,
    ensures
        parse_name(buffer, position, jumps, labels) matches Ok((tail, next)) && parse_name(
            buffer,
            position,
            jumps,
            before + labels,
        ) == Ok::<(Seq<Seq<u8>>, nat), FqdnError>((before + tail, next)),
    decreases MAX_REDIRECTIONS + 1 - jumps, buffer.len() - position,
{
    if position < buffer.len() && jumps <= MAX_REDIRECTIONS {
        match classify(buffer[position as int]) {
            Ok(FqdnParsingFSM::Pointer) => {
                lemma_labels_before(
                    buffer,
                    pointer_target(buffer, position),
                    jumps + 1,
                    before,
                    labels,
                );
            },
            Ok(FqdnParsingFSM::Length) => {
                if let Ok((label, next)) = parse_label(buffer, position) {
                    lemma_wire_length_concat(before, labels);
                    assert((before + labels).push(label) =~= before + labels.push(label));
                    lemma_labels_before(buffer, next, jumps, before, labels.push(label));
                }
            },
            _ => {},
        }
    }
}

/// Reading from `start`, behind the labels `before`, passes label by label
/// to `position`, where the labels read are `labels`.
pub open spec fn walks(
    buffer: Seq<u8>,
    start: nat,
    before: Seq<Seq<u8>>,
    position: nat,
    labels: Seq<Seq<u8>>,
) -> bool
    decreases buffer.len() - start,
{
    (start == position && before == labels) || (start < buffer.len() && classify(
        buffer[start as int],
    ) == Ok::<FqdnParsingFSM, FqdnError>(FqdnParsingFSM::Length) && match parse_label(
        buffer,
        start,
    ) {
        Ok((label, next)) => before.len() < MAX_NUMBER_OF_LABELS && wire_length(before)
            + label.len() + 1 <= MAX_FQDN_LENGTH && walks(
            buffer,
            next,
            before.push(label),
            position,
            labels,
        ),
        Err(_) => false,
    })
}

/// Where reading passes from one place to another, the name read from the
/// first is the name read from the second.
pub proof fn lemma_walk(
    buffer: Seq<u8>,
    start: nat,
    before: Seq<Seq<u8>>,
    position: nat,
    labels: Seq<Seq<u8>>,
    jumps: nat,
)
    requires
        jumps <= MAX_REDIRECTIONS,
        walks(buffer, start, before, position, labels),
    ensures
        parse_name(buffer, start, jumps, before) == parse_name(buffer, position, jumps, labels),
    decreases buffer.len() - start,
{
    if !(start == position && before == labels) {
        let next = parse_label(buffer, start)->Ok_0.1;
        let label = parse_label(buffer, start)->Ok_0.0;
        lemma_walk(buffer, next, before.push(label), position, labels, jumps);
    }
}

/// A stretch of a name that ends in a pointer: reading from `start`, behind
/// the labels `before`, comes to a pointer at `pointer` with the labels
/// `labels` read.
pub struct Hop {
    pub start: nat,
    pub before: Seq<Seq<u8>>,
    pub pointer: nat,
    pub labels: Seq<Seq<u8>>,
}

/// The buffer holds the hop.
pub open spec fn hop_in(buffer: Seq<u8>, hop: Hop) -> bool {
    walks(buffer, hop.start, hop.before, hop.pointer, hop.labels) && pointer_at(
        buffer,
        hop.pointer,
    )
}

/// Each hop's pointer leads to the start of the next hop.
pub open spec fn chained(buffer: Seq<u8>, hops: Seq<Hop>) -> bool {
    forall|i: int|
        0 <= i < hops.len() ==> hop_in(buffer, #[trigger] hops[i]) && (i + 1 < hops.len()
            ==> hops[i + 1].start == pointer_target(buffer, hops[i].pointer) && hops[i + 1].before
            == hops[i].labels)
}

/// A name read through a pointer is the labels before the pointer, then the
/// name that stands where the pointer points, read on its own.
pub proof fn lemma_pointer_reads_name_at_target(buffer: Seq<u8>, hop: Hop, jumps: nat)
    requires
        hop_in(buffer, hop),
        parse_name(buffer, hop.start, jumps, hop.before) is Ok,
    ensures
        parse_fqdn(buffer, pointer_target(buffer, hop.pointer)) matches Ok((tail, _))
            && parse_name(buffer, hop.start, jumps, hop.before) == Ok::<
            (Seq<Seq<u8>>, nat),
            FqdnError,
        >((hop.labels + tail, hop.pointer + 2)),
{
    let target = pointer_target(buffer, hop.pointer);
    lemma_walk(buffer, hop.start, hop.before, hop.pointer, hop.labels, jumps);
    lemma_pointer_is_followed(buffer, hop.pointer, jumps, hop.labels);
    lemma_fewer_jumps(buffer, target, jumps + 1, 0, hop.labels);
    assert(hop.labels + Seq::<Seq<u8>>::empty() =~= hop.labels);
    lemma_labels_before(buffer, target, 0, hop.labels, Seq::empty());
}

/// A name that leads through four pointers in a row is refused for its
/// redirections.
pub proof fn lemma_fourth_redirection_fails(buffer: Seq<u8>, hops: Seq<Hop>)
    requires
        hops.len() > MAX_REDIRECTIONS,
        chained(buffer, hops),
    ensures
        parse_name(buffer, hops[0].start, 0, hops[0].before) == Err::<
            (Seq<Seq<u8>>, nat),
            FqdnError,
        >(FqdnError::TooManyRedirections(4)),
{
    lemma_hops_fail(buffer, hops, 0);
}

/// Behind `done` pointers, the rest of a chain that leads through four is
/// refused.
proof fn lemma_hops_fail(buffer: Seq<u8>, hops: Seq<Hop>, done: nat)
    requires
        hops.len() > MAX_REDIRECTIONS,
        chained(buffer, hops),
        done <= MAX_REDIRECTIONS,
    ensures
        parse_name(buffer, hops[done as int].start, done, hops[done as int].before) == Err::<
            (Seq<Seq<u8>>, nat),
            FqdnError,
        >(FqdnError::TooManyRedirections(4)),
    decreases MAX_REDIRECTIONS - done,
{
    let hop = hops[done as int];
    lemma_walk(buffer, hop.start, hop.before, hop.pointer, hop.labels, done);
    lemma_pointer_is_followed(buffer, hop.pointer, done, hop.labels);
    if done < MAX_REDIRECTIONS {
        lemma_hops_fail(buffer, hops, done + 1);
    }
}

} // verus!
