//! A message that is written and read back is the same message.

use vstd::prelude::*;
use crate::packet::fqdn::{
    all_ascii, classify, dot_free, dotted, lowercase, parse_fqdn, parse_name, pointer_bytes,
    pointer_target, split_dots, valid_label, valid_name, wire_length, write_name, FqdnError,
    FqdnParsingFSM, FqdnResult, DOT, MAX_FQDN_LENGTH, MAX_NUMBER_OF_LABELS, MAX_REDIRECTIONS,
    POINTER_MARKER,
};
use crate::packet::headers::header::{header_bytes, parse_header, Header, HeaderError};
use crate::packet::headers::header_flags::{encode_flags, lemma_flags_round_trip, valid_flags};
use crate::packet::message::{
    decode, encode, parse_records, write_records, MessageError, MessageView,
};
use crate::packet::question::{parse_question, write_question, QuestionError, QuestionView};
use crate::packet::record::{parse_record, write_record, RecordError, RecordView};
use crate::records::record_class::record_class_code;
use crate::records::record_data::{data_bytes, RecordData};
use crate::records::record_type::{record_type_code, RecordType};
use crate::packet::name_laws::{
    lemma_pointer_is_followed, lemma_wire_length_concat, lemma_wire_length_first, redirected,
};
use crate::packet::seder::big_endian::{
    be_bytes, lemma_be_bytes_len, lemma_be_value_2, lemma_be_value_of_bytes, lemma_pow256_values,
    pow256,
};
use crate::packet::seder::deserializer::number_at;
use crate::packet::seder::serializer::{length_prefixed, WireState, POINTER_RANGE};
use crate::packet::text_laws::{lemma_dotted_longer, lemma_split_of_dotted};

verus! {

/// `buffer` starts with the bytes of `start`.
pub open spec fn extends(buffer: Seq<u8>, start: Seq<u8>) -> bool {
    &&& start.len() <= buffer.len()
    &&& forall|i: int|
        #![trigger buffer[i]]
        #![trigger start[i]]
        0 <= i < start.len() ==> buffer[i] == start[i]
}

/// A buffer that starts with a run of bytes starts with each start of that
/// run.
pub proof fn lemma_extends_transitive(buffer: Seq<u8>, middle: Seq<u8>, start: Seq<u8>)
    requires
        extends(buffer, middle),
        extends(middle, start),
    ensures
        extends(buffer, start),
{
}

/// In a buffer that starts with `written` and then `bytes`, `bytes` stand
/// at the offset where `written` ends.
pub proof fn lemma_bytes_written(buffer: Seq<u8>, written: Seq<u8>, bytes: Seq<u8>)
    requires
        extends(buffer, written + bytes),
    ensures
        buffer.subrange(written.len() as int, (written.len() + bytes.len()) as int) == bytes,
        extends(buffer, written),
{
    let found = buffer.subrange(written.len() as int, (written.len() + bytes.len()) as int);
    assert forall|i: int| 0 <= i < bytes.len() implies found[i] == bytes[i] by {
        assert(buffer[written.len() + i] == (written + bytes)[written.len() + i]);
    }
    assert(found =~= bytes);
    assert forall|i: int| 0 <= i < written.len() implies buffer[i] == written[i] by {
        assert(buffer[i] == (written + bytes)[i]);
    }
}

/// A number that is written in `width` bytes, and fits them, is read back
/// from where it was written.
pub proof fn lemma_number_written(buffer: Seq<u8>, written: Seq<u8>, value: nat, width: nat)
    requires
        width > 0,
        value < pow256(width),
        extends(buffer, written + be_bytes(value, width)),
    ensures
        number_at(buffer, written.len(), width) == Some(value),
{
    lemma_be_bytes_len(value, width);
    lemma_bytes_written(buffer, written, be_bytes(value, width));
    lemma_be_value_of_bytes(value, width);
}

/// The two bytes of a pointer to an offset below 2^14 start with a byte
/// that marks a pointer, and hold the offset.
pub proof fn lemma_pointer_written(buffer: Seq<u8>, written: Seq<u8>, offset: u16)
    requires
        offset < POINTER_RANGE,
        extends(buffer, written + pointer_bytes(offset)),
    ensures
        written.len() + 2 <= buffer.len(),
        classify(buffer[written.len() as int]) == Ok::<FqdnParsingFSM, FqdnError>(
            FqdnParsingFSM::Pointer,
        ),
        pointer_target(buffer, written.len()) == offset,
{
    let word = POINTER_MARKER | offset;
    assert(word == 0xC000 + offset) by (bit_vector)
        requires
            word == 0xC000u16 | offset,
            offset < 0x4000u16,
    ;
    lemma_pow256_values();
    lemma_be_bytes_len(word as nat, 2);
    lemma_bytes_written(buffer, written, pointer_bytes(offset));
    lemma_be_value_of_bytes(word as nat, 2);
    let found = buffer.subrange(written.len() as int, (written.len() + 2) as int);
    lemma_be_value_2(found);
    assert(found[0] == buffer[written.len() as int]);
}

/// A zero byte ends the name: the labels read before it are the name.
pub proof fn lemma_end_written(
    buffer: Seq<u8>,
    written: Seq<u8>,
    jumps: nat,
    before: Seq<Seq<u8>>,
)
    requires
        jumps <= MAX_REDIRECTIONS,
        extends(buffer, written + seq![0u8]),
    ensures
        parse_name(buffer, written.len(), jumps, before) == Ok::<(Seq<Seq<u8>>, nat), FqdnError>(
            (before, written.len() + 1),
        ),
{
    lemma_bytes_written(buffer, written, seq![0u8]);
    let found = buffer.subrange(written.len() as int, (written.len() + 1) as int);
    assert(found[0] == buffer[written.len() as int]);
}

/// A valid label that is written is read back, and reading goes on behind
/// it.
pub proof fn lemma_label_written(
    buffer: Seq<u8>,
    written: Seq<u8>,
    label: Seq<u8>,
    jumps: nat,
    before: Seq<Seq<u8>>,
)
    requires
        jumps <= MAX_REDIRECTIONS,
        valid_label(label),
        before.len() < MAX_NUMBER_OF_LABELS,
        wire_length(before) + label.len() + 1 <= MAX_FQDN_LENGTH,
        extends(buffer, written + length_prefixed(label)),
    ensures
        parse_name(buffer, written.len(), jumps, before) == parse_name(
            buffer,
            written.len() + 1 + label.len(),
            jumps,
            before.push(label),
        ),
{
    let position = written.len();
    lemma_bytes_written(buffer, written, length_prefixed(label));
    let found = buffer.subrange(position as int, (position + 1 + label.len()) as int);
    assert(found == length_prefixed(label));
    assert(buffer[position as int] == found[0]);
    assert(found[0] == label.len());
    let raw = buffer.subrange(position + 1 as int, position + 1 + buffer[position as int]);
    assert(raw =~= label) by {
        assert forall|i: int| 0 <= i < label.len() implies raw[i] == label[i] by {
            assert(buffer[position + 1 + i] == found[1 + i]);
        }
    }
    assert(all_ascii(raw));
    assert(lowercase(raw) =~= label);
}

/// A pointer that is written to an offset before it is followed, unless it
/// is the fourth in a row.
pub proof fn lemma_pointer_followed(
    buffer: Seq<u8>,
    written: Seq<u8>,
    offset: u16,
    jumps: nat,
    before: Seq<Seq<u8>>,
)
    requires
        jumps <= MAX_REDIRECTIONS,
        offset < POINTER_RANGE,
        offset < written.len(),
        extends(buffer, written + pointer_bytes(offset)),
    ensures
        parse_name(buffer, written.len(), jumps, before) == if jumps == MAX_REDIRECTIONS {
            Err(FqdnError::TooManyRedirections(4))
        } else {
            redirected(parse_name(buffer, offset as nat, jumps + 1, before), written.len() + 2)
        },
{
    lemma_pointer_written(buffer, written, offset);
    lemma_pointer_is_followed(buffer, written.len(), jumps, before);
}

/// What reading a name gives when the name and what was read before make
/// `hops` pointers in a row: the labels, or a refusal once the pointers are
/// more than three.
pub open spec fn outcome(
    result: FqdnResult<(Seq<Seq<u8>>, nat)>,
    labels: Seq<Seq<u8>>,
    hops: nat,
) -> bool {
    if hops <= MAX_REDIRECTIONS {
        result matches Ok((found, _)) && found == labels
    } else {
        result == Err::<(Seq<Seq<u8>>, nat), FqdnError>(FqdnError::TooManyRedirections(4))
    }
}

/// As [`outcome`], with the offset at which reading ends.
pub open spec fn outcome_at(
    result: FqdnResult<(Seq<Seq<u8>>, nat)>,
    labels: Seq<Seq<u8>>,
    hops: nat,
    next: nat,
) -> bool {
    if hops <= MAX_REDIRECTIONS {
        result == Ok::<(Seq<Seq<u8>>, nat), FqdnError>((labels, next))
    } else {
        result == Err::<(Seq<Seq<u8>>, nat), FqdnError>(FqdnError::TooManyRedirections(4))
    }
}

/// Whatever is written behind `written`, whatever labels were read before
/// and however many pointers were followed, the name at `offset` reads as
/// `labels` and takes `depth` pointers in a row, as long as the whole is a
/// valid name.
pub open spec fn reads_as(written: Seq<u8>, offset: nat, labels: Seq<Seq<u8>>, depth: nat) -> bool {
    forall|buffer: Seq<u8>, before: Seq<Seq<u8>>, jumps: nat|
        extends(buffer, written) && valid_name(before + labels) && jumps <= MAX_REDIRECTIONS
            ==> outcome(
            #[trigger] parse_name(buffer, offset, jumps, before),
            before + labels,
            jumps + depth,
        )
}

/// Every name of the dictionary stands where the dictionary says: at an
/// offset that a pointer can hold, in what was written, as the labels
/// between the dots of the name, and as many pointers deep as `depths`
/// says.
pub open spec fn sound(state: WireState, depths: Map<Seq<u8>, nat>) -> bool {
    forall|name: Seq<u8>| #[trigger]
        state.names.contains_key(name) ==> state.names[name] < POINTER_RANGE && state.names[name]
            < state.output.len() && reads_as(
            state.output,
            state.names[name] as nat,
            split_dots(name),
            depths[name],
        )
}

/// Labels that can be written and read back: each is valid, and none holds
/// a dot.
pub open spec fn plain_labels(labels: Seq<Seq<u8>>) -> bool {
    &&& dot_free(labels)
    &&& forall|i: int| 0 <= i < labels.len() ==> valid_label(#[trigger] labels[i])
}

/// The number of pointers in a row that reading the name takes, once it is
/// written in `state`: none where it ends with a zero byte, and one more
/// than the name that its pointer leads to where it ends with a pointer.
pub open spec fn name_depth(
    state: WireState,
    depths: Map<Seq<u8>, nat>,
    labels: Seq<Seq<u8>>,
) -> nat
    decreases labels.len(),
{
    if labels.len() == 0 {
        0
    } else if state.names.contains_key(dotted(labels)) {
        depths[dotted(labels)] + 1
    } else {
        name_depth(
            state.register(dotted(labels)).write(length_prefixed(labels[0])),
            depths,
            labels.drop_first(),
        )
    }
}

/// The depths of the names of the dictionary once the name is written in
/// `state`: each suffix that is entered is as deep as the whole name,
/// `depth`.
pub open spec fn depths_entered(
    state: WireState,
    depths: Map<Seq<u8>, nat>,
    labels: Seq<Seq<u8>>,
    depth: nat,
) -> Map<Seq<u8>, nat>
    decreases labels.len(),
{
    if labels.len() == 0 || state.names.contains_key(dotted(labels)) {
        depths
    } else {
        depths_entered(
            state.register(dotted(labels)).write(length_prefixed(labels[0])),
            depths.insert(dotted(labels), depth),
            labels.drop_first(),
            depth,
        )
    }
}

/// The depths of the names of the dictionary once the name is written in
/// `state`.
pub open spec fn depths_after_name(
    state: WireState,
    depths: Map<Seq<u8>, nat>,
    labels: Seq<Seq<u8>>,
) -> Map<Seq<u8>, nat> {
    depths_entered(state, depths, labels, name_depth(state, depths, labels))
}

/// The names that `state` holds beyond those of `base` are longer than
/// `labels` joined by dots: they are longer suffixes of the name that is
/// being written.
pub open spec fn pending(base: WireState, state: WireState, labels: Seq<Seq<u8>>) -> bool {
    forall|name: Seq<u8>| #[trigger]
        state.names.contains_key(name) ==> (base.names.contains_key(name) && base.names[name]
            == state.names[name]) || name.len() > dotted(labels).len()
}

/// What holds once `labels` are written in `state`, up to `end`, where the
/// whole name is `depth` pointers deep.
pub open spec fn name_stands(
    state: WireState,
    labels: Seq<Seq<u8>>,
    depth: nat,
    end: WireState,
) -> bool {
    &&& extends(end.output, state.output)
    &&& forall|buffer: Seq<u8>, before: Seq<Seq<u8>>, jumps: nat|
        extends(buffer, end.output) && valid_name(before + labels) && jumps <= MAX_REDIRECTIONS
            ==> outcome_at(
            #[trigger] parse_name(buffer, state.position(), jumps, before),
            before + labels,
            jumps + depth,
            end.position(),
        )
    &&& forall|name: Seq<u8>| #[trigger]
        end.names.contains_key(name) ==> (state.names.contains_key(name) && state.names[name]
            == end.names[name]) || (end.names[name] < POINTER_RANGE && end.names[name]
            < end.output.len() && reads_as(
            end.output,
            end.names[name] as nat,
            split_dots(name),
            depth,
        ))
}

/// The rest of a plain name is plain.
pub proof fn lemma_plain_rest(labels: Seq<Seq<u8>>)
    requires
        plain_labels(labels),
        labels.len() >= 1,
    ensures
        plain_labels(labels.drop_first()),
{
    let rest = labels.drop_first();
    assert forall|i: int, j: int| 0 <= i < rest.len() && 0 <= j < rest[i].len() implies #[trigger] rest[i][j]
        != DOT by {
        assert(labels[i + 1][j] != DOT);
    }
    assert forall|i: int| 0 <= i < rest.len() implies valid_label(#[trigger] rest[i]) by {
        assert(valid_label(labels[i + 1]));
    }
}

/// A plain name that is written, in a state whose dictionary is sound but
/// for the longer suffixes of the same name, reads back from where it was
/// written; and each suffix that is entered in the dictionary reads as
/// itself, as deep as the whole name.
pub proof fn lemma_name_stands(
    base: WireState,
    depths: Map<Seq<u8>, nat>,
    state: WireState,
    labels: Seq<Seq<u8>>,
)
    requires
        sound(base, depths),
        extends(state.output, base.output),
        pending(base, state, labels),
        plain_labels(labels),
    ensures
        name_stands(state, labels, name_depth(state, depths, labels), write_name(state, labels)),
    decreases labels.len(),
{
    let end = write_name(state, labels);
    let depth = name_depth(state, depths, labels);
    let position = state.position();
    if labels.len() == 0 {
        assert forall|buffer: Seq<u8>, before: Seq<Seq<u8>>, jumps: nat|
            extends(buffer, end.output) && valid_name(before + labels) && jumps
                <= MAX_REDIRECTIONS implies outcome_at(
            #[trigger] parse_name(buffer, position, jumps, before),
            before + labels,
            jumps + depth,
            end.position(),
        ) by {
            lemma_end_written(buffer, state.output, jumps, before);
            assert(before + labels =~= before);
        }
    } else {
        let name = dotted(labels);
        let first = labels[0];
        let rest = labels.drop_first();
        assert(valid_label(first));
        lemma_split_of_dotted(labels);
        if state.names.contains_key(name) {
            let offset = state.names[name];
            assert(base.names.contains_key(name) && base.names[name] == offset);
            assert(reads_as(base.output, offset as nat, labels, depths[name]));
            assert forall|buffer: Seq<u8>, before: Seq<Seq<u8>>, jumps: nat|
                extends(buffer, end.output) && valid_name(before + labels) && jumps
                    <= MAX_REDIRECTIONS implies outcome_at(
                #[trigger] parse_name(buffer, position, jumps, before),
                before + labels,
                jumps + depth,
                end.position(),
            ) by {
                lemma_pointer_followed(buffer, state.output, offset, jumps, before);
                lemma_bytes_written(buffer, state.output, pointer_bytes(offset));
                lemma_extends_transitive(buffer, state.output, base.output);
                lemma_be_bytes_len((POINTER_MARKER | offset) as nat, 2);
                if jumps < MAX_REDIRECTIONS {
                    assert(outcome(
                        parse_name(buffer, offset as nat, jumps + 1, before),
                        before + labels,
                        jumps + 1 + depths[name],
                    ));
                }
            }
        } else {
            let entered = state.register(name);
            let next = entered.write(length_prefixed(first));
            lemma_dotted_longer(labels);
            lemma_plain_rest(labels);
            assert(pending(base, next, rest));
            lemma_name_stands(base, depths, next, rest);
            assert(name_stands(next, rest, depth, end));
            let step = position + 1 + first.len();
            assert(next.position() == step);
            assert forall|buffer: Seq<u8>, before: Seq<Seq<u8>>, jumps: nat|
                extends(buffer, end.output) && valid_name(before + labels) && jumps
                    <= MAX_REDIRECTIONS implies outcome_at(
                #[trigger] parse_name(buffer, position, jumps, before),
                before + labels,
                jumps + depth,
                end.position(),
            ) by {
                lemma_extends_transitive(buffer, end.output, next.output);
                lemma_wire_length_concat(before, labels);
                lemma_wire_length_first(labels);
                lemma_label_written(buffer, state.output, first, jumps, before);
                assert(before.push(first) + rest =~= before + labels);
                assert(outcome_at(
                    parse_name(buffer, step, jumps, before.push(first)),
                    before.push(first) + rest,
                    jumps + depth,
                    end.position(),
                ));
            }
            assert(extends(end.output, state.output)) by {
                lemma_bytes_written(next.output, state.output, length_prefixed(first));
                lemma_extends_transitive(end.output, next.output, state.output);
            }
            assert forall|other: Seq<u8>| #[trigger] end.names.contains_key(other) implies (
            state.names.contains_key(other) && state.names[other] == end.names[other]) || (
            end.names[other] < POINTER_RANGE && end.names[other] < end.output.len() && reads_as(
                end.output,
                end.names[other] as nat,
                split_dots(other),
                depth,
            )) by {
                if next.names.contains_key(other) && next.names[other] == end.names[other]
                    && !state.names.contains_key(other) {
                    assert(other == name);
                    assert(end.names[other] == position);
                    assert forall|buffer: Seq<u8>, before: Seq<Seq<u8>>, jumps: nat|
                        extends(buffer, end.output) && valid_name(before + labels) && jumps
                            <= MAX_REDIRECTIONS implies outcome(
                        #[trigger] parse_name(buffer, position, jumps, before),
                        before + labels,
                        jumps + depth,
                    ) by {
                        assert(outcome_at(
                            parse_name(buffer, position, jumps, before),
                            before + labels,
                            jumps + depth,
                            end.position(),
                        ));
                    }
                }
            }
        }
    }
}

/// Where a name is written, the names that the dictionary held before keep
/// their depths, and each name that is entered gets the depth `depth`.
pub proof fn lemma_depths_entered(
    state: WireState,
    depths: Map<Seq<u8>, nat>,
    labels: Seq<Seq<u8>>,
    depth: nat,
)
    requires
        forall|i: int| 0 <= i < labels.len() ==> labels[i].len() >= 1,
    ensures
        forall|name: Seq<u8>|
            state.names.contains_key(name) ==> #[trigger] depths_entered(
                state,
                depths,
                labels,
                depth,
            )[name] == depths[name],
        forall|name: Seq<u8>|
            #![trigger write_name(state, labels).names.contains_key(name)]
            write_name(state, labels).names.contains_key(name) && !state.names.contains_key(name)
                ==> depths_entered(state, depths, labels, depth)[name] == depth,
        forall|name: Seq<u8>|
            #![trigger write_name(state, labels).names.contains_key(name)]
            state.names.contains_key(name) ==> write_name(state, labels).names.contains_key(name)
                && write_name(state, labels).names[name] == state.names[name],
    decreases labels.len(),
{
    let end = write_name(state, labels);
    let after = depths_entered(state, depths, labels, depth);
    if labels.len() > 0 && !state.names.contains_key(dotted(labels)) {
        let name = dotted(labels);
        let next = state.register(name).write(length_prefixed(labels[0]));
        let rest = labels.drop_first();
        let marked = depths.insert(name, depth);
        assert forall|i: int| 0 <= i < rest.len() implies rest[i].len() >= 1 by {
            assert(labels[i + 1].len() >= 1);
        }
        lemma_depths_entered(next, marked, rest, depth);
        assert(end == write_name(next, rest));
        assert(after == depths_entered(next, marked, rest, depth));
        assert forall|other: Seq<u8>| state.names.contains_key(other) implies #[trigger] after[other]
            == depths[other] by {
            assert(next.names.contains_key(other));
            assert(depths_entered(next, marked, rest, depth)[other] == marked[other]);
        }
        assert forall|other: Seq<u8>|
            #![trigger end.names.contains_key(other)]
            end.names.contains_key(other) && !state.names.contains_key(other) implies after[other]
            == depth by {
            if next.names.contains_key(other) {
                assert(other == name);
                assert(depths_entered(next, marked, rest, depth)[other] == marked[other]);
            } else {
                assert(write_name(next, rest).names.contains_key(other));
            }
        }
        assert forall|other: Seq<u8>|
            #![trigger end.names.contains_key(other)]
            state.names.contains_key(other) implies end.names.contains_key(other)
            && end.names[other] == state.names[other] by {
            assert(next.names.contains_key(other) && next.names[other] == state.names[other]);
            assert(write_name(next, rest).names.contains_key(other));
        }
    }
}

/// A sound dictionary stays sound when more is written.
pub proof fn lemma_sound_after_write(state: WireState, depths: Map<Seq<u8>, nat>, bytes: Seq<u8>)
    requires
        sound(state, depths),
    ensures
        sound(state.write(bytes), depths),
        extends(state.write(bytes).output, state.output),
{
    let end = state.write(bytes);
    assert forall|name: Seq<u8>| #[trigger] end.names.contains_key(name) implies reads_as(
        end.output,
        end.names[name] as nat,
        split_dots(name),
        depths[name],
    ) by {
        assert(reads_as(state.output, state.names[name] as nat, split_dots(name), depths[name]));
        assert forall|buffer: Seq<u8>, before: Seq<Seq<u8>>, jumps: nat|
            extends(buffer, end.output) && valid_name(before + split_dots(name)) && jumps
                <= MAX_REDIRECTIONS implies outcome(
            #[trigger] parse_name(buffer, end.names[name] as nat, jumps, before),
            before + split_dots(name),
            jumps + depths[name],
        ) by {
            lemma_extends_transitive(buffer, end.output, state.output);
        }
    }
}

/// A plain name that is written in a state with a sound dictionary reads
/// back from where it was written, unless it leads through more than three
/// pointers in a row; and it leaves the dictionary sound.
pub proof fn lemma_name_written(state: WireState, depths: Map<Seq<u8>, nat>, labels: Seq<Seq<u8>>)
    requires
        sound(state, depths),
        plain_labels(labels),
    ensures
        sound(write_name(state, labels), depths_after_name(state, depths, labels)),
        extends(write_name(state, labels).output, state.output),
        forall|buffer: Seq<u8>|
            #![trigger parse_fqdn(buffer, state.position())]
            extends(buffer, write_name(state, labels).output) && valid_name(labels) ==> outcome_at(
                parse_fqdn(buffer, state.position()),
                labels,
                name_depth(state, depths, labels),
                write_name(state, labels).position(),
            ),
{
    let end = write_name(state, labels);
    let depth = name_depth(state, depths, labels);
    let after = depths_after_name(state, depths, labels);
    lemma_name_stands(state, depths, state, labels);
    assert forall|i: int| 0 <= i < labels.len() implies labels[i].len() >= 1 by {
        assert(valid_label(labels[i]));
    }
    lemma_depths_entered(state, depths, labels, depth);
    assert forall|buffer: Seq<u8>|
        #![trigger parse_fqdn(buffer, state.position())]
        extends(buffer, end.output) && valid_name(labels) implies outcome_at(
        parse_fqdn(buffer, state.position()),
        labels,
        depth,
        end.position(),
    ) by {
        assert(Seq::<Seq<u8>>::empty() + labels =~= labels);
        assert(outcome_at(
            parse_name(buffer, state.position(), 0, Seq::empty()),
            Seq::<Seq<u8>>::empty() + labels,
            0 + depth,
            end.position(),
        ));
    }
    assert forall|name: Seq<u8>| #[trigger] end.names.contains_key(name) implies end.names[name]
        < POINTER_RANGE && end.names[name] < end.output.len() && reads_as(
        end.output,
        end.names[name] as nat,
        split_dots(name),
        after[name],
    ) by {
        if state.names.contains_key(name) {
            assert(after[name] == depths[name]);
            assert(end.names[name] == state.names[name]);
            assert(reads_as(
                state.output,
                state.names[name] as nat,
                split_dots(name),
                depths[name],
            ));
            assert forall|buffer: Seq<u8>, before: Seq<Seq<u8>>, jumps: nat|
                extends(buffer, end.output) && valid_name(before + split_dots(name)) && jumps
                    <= MAX_REDIRECTIONS implies outcome(
                #[trigger] parse_name(buffer, end.names[name] as nat, jumps, before),
                before + split_dots(name),
                jumps + depths[name],
            ) by {
                lemma_extends_transitive(buffer, end.output, state.output);
            }
        } else {
            assert(after[name] == depth);
        }
    }
}

/// What is written behind a name leaves the name in place.
pub proof fn lemma_write_name_extends(state: WireState, labels: Seq<Seq<u8>>)
    ensures
        extends(write_name(state, labels).output, state.output),
    decreases labels.len(),
{
    if labels.len() > 0 && !state.names.contains_key(dotted(labels)) {
        let next = state.register(dotted(labels)).write(length_prefixed(labels[0]));
        lemma_write_name_extends(next, labels.drop_first());
    }
}

/// What is written behind a record leaves what was written before in place.
pub proof fn lemma_write_record_extends(state: WireState, record: RecordView)
    ensures
        extends(write_record(state, record).output, state.output),
{
    lemma_write_name_extends(state, record.owner_name);
}

/// What is written behind records leaves what was written before in place.
pub proof fn lemma_write_records_extends(state: WireState, records: Seq<RecordView>)
    ensures
        extends(write_records(state, records).output, state.output),
    decreases records.len(),
{
    if records.len() > 0 {
        lemma_write_record_extends(state, records[0]);
        lemma_write_records_extends(write_record(state, records[0]), records.drop_first());
    }
}

/// A question that can be written and read back: its name is valid and no
/// label holds a dot.
pub open spec fn valid_question(question: QuestionView) -> bool {
    valid_name(question.qname) && dot_free(question.qname)
}

/// A record that can be written and read back: the name of its owner is
/// valid, no label holds a dot, and the data are those of its type.
pub open spec fn valid_record(record: RecordView) -> bool {
    &&& valid_name(record.owner_name)
    &&& dot_free(record.owner_name)
    &&& match record.record_type {
        RecordType::A => record.data is A,
        RecordType::AAAA => record.data is AAAA,
    }
}

/// A message that can be written and read back: it announces one question
/// and as many records in each section as it holds, its flags are valid,
/// and so are its question and its records.
pub open spec fn valid_message(message: MessageView) -> bool {
    &&& message.header.question_count == 1
    &&& valid_flags(message.header.flags)
    &&& message.header.answer_count == message.answer_records.len()
    &&& message.header.authoritative_count == message.authority_records.len()
    &&& message.header.additional_count == message.additional_records.len()
    &&& valid_question(message.question)
    &&& forall|i: int|
        0 <= i < message.answer_records.len() ==> valid_record(#[trigger] message.answer_records[i])
    &&& forall|i: int|
        0 <= i < message.authority_records.len() ==> valid_record(
            #[trigger] message.authority_records[i],
        )
    &&& forall|i: int|
        0 <= i < message.additional_records.len() ==> valid_record(
            #[trigger] message.additional_records[i],
        )
}

/// The depths of the names of the dictionary once the records are written,
/// one behind the other from `state` on.
pub open spec fn depths_after_records(
    state: WireState,
    depths: Map<Seq<u8>, nat>,
    records: Seq<RecordView>,
) -> Map<Seq<u8>, nat>
    decreases records.len(),
{
    if records.len() == 0 {
        depths
    } else {
        depths_after_records(
            write_record(state, records[0]),
            depths_after_name(state, depths, records[0].owner_name),
            records.drop_first(),
        )
    }
}

/// None of the names of the owners of `records`, written one record behind
/// the other from `state` on, leads through more than three pointers in a
/// row.
pub open spec fn records_shallow(
    state: WireState,
    depths: Map<Seq<u8>, nat>,
    records: Seq<RecordView>,
) -> bool
    decreases records.len(),
{
    records.len() == 0 || (name_depth(state, depths, records[0].owner_name) <= MAX_REDIRECTIONS
        && records_shallow(
        write_record(state, records[0]),
        depths_after_name(state, depths, records[0].owner_name),
        records.drop_first(),
    ))
}

/// None of the names of the message, once it is written into an empty
/// buffer, leads through more than three pointers in a row.
pub open spec fn message_shallow(message: MessageView) -> bool {
    let start = WireState::empty().write(header_bytes(message.header));
    let none = Map::<Seq<u8>, nat>::empty();
    let asked = write_question(start, message.question);
    let first = depths_after_name(start, none, message.question.qname);
    let answered = write_records(asked, message.answer_records);
    let second = depths_after_records(asked, first, message.answer_records);
    let referred = write_records(answered, message.authority_records);
    let third = depths_after_records(answered, second, message.authority_records);
    &&& name_depth(start, none, message.question.qname) <= MAX_REDIRECTIONS
    &&& records_shallow(asked, first, message.answer_records)
    &&& records_shallow(answered, second, message.authority_records)
    &&& records_shallow(referred, third, message.additional_records)
}

/// A valid question that is written in a state with a sound dictionary
/// reads back from where it was written, unless its name leads through
/// more than three pointers in a row; the dictionary stays sound.
pub proof fn lemma_question_written(
    state: WireState,
    depths: Map<Seq<u8>, nat>,
    question: QuestionView,
    buffer: Seq<u8>,
)
    requires
        sound(state, depths),
        valid_question(question),
        extends(buffer, write_question(state, question).output),
    ensures
        parse_question(buffer, state.position()) == if name_depth(state, depths, question.qname)
            <= MAX_REDIRECTIONS {
            Ok::<(QuestionView, nat), QuestionError>(
                (question, write_question(state, question).position()),
            )
        } else {
            Err::<(QuestionView, nat), QuestionError>(QuestionError::NameReadingError)
        },
        sound(
            write_question(state, question),
            depths_after_name(state, depths, question.qname),
        ),
        extends(write_question(state, question).output, state.output),
{
    let after = depths_after_name(state, depths, question.qname);
    let named = write_name(state, question.qname);
    let type_bytes = be_bytes(record_type_code(question.qtype) as nat, 2);
    let class_bytes = be_bytes(record_class_code(question.qclass) as nat, 2);
    let typed = named.write(type_bytes);
    let end = typed.write(class_bytes);
    lemma_pow256_values();
    lemma_be_bytes_len(record_type_code(question.qtype) as nat, 2);
    lemma_be_bytes_len(record_class_code(question.qclass) as nat, 2);
    lemma_name_written(state, depths, question.qname);
    lemma_sound_after_write(named, after, type_bytes);
    lemma_sound_after_write(typed, after, class_bytes);
    lemma_bytes_written(buffer, typed.output, class_bytes);
    lemma_bytes_written(buffer, named.output, type_bytes);
    lemma_number_written(buffer, named.output, record_type_code(question.qtype) as nat, 2);
    lemma_number_written(buffer, typed.output, record_class_code(question.qclass) as nat, 2);
    lemma_extends_transitive(typed.output, named.output, state.output);
    lemma_extends_transitive(end.output, typed.output, state.output);
    assert(outcome_at(
        parse_fqdn(buffer, state.position()),
        question.qname,
        name_depth(state, depths, question.qname),
        named.position(),
    ));
}

/// A valid record that is written in a state with a sound dictionary reads
/// back from where it was written, unless the name of its owner leads
/// through more than three pointers in a row; the dictionary stays sound.
pub proof fn lemma_record_written(
    state: WireState,
    depths: Map<Seq<u8>, nat>,
    record: RecordView,
    buffer: Seq<u8>,
)
    requires
        sound(state, depths),
        valid_record(record),
        extends(buffer, write_record(state, record).output),
    ensures
        parse_record(buffer, state.position()) == if name_depth(state, depths, record.owner_name)
            <= MAX_REDIRECTIONS {
            Ok::<(RecordView, nat), RecordError>((record, write_record(state, record).position()))
        } else {
            Err::<(RecordView, nat), RecordError>(RecordError::InvalidName)
        },
        sound(write_record(state, record), depths_after_name(state, depths, record.owner_name)),
        extends(write_record(state, record).output, state.output),
{
    let after = depths_after_name(state, depths, record.owner_name);
    let named = write_name(state, record.owner_name);
    let type_code = record_type_code(record.record_type) as nat;
    let class_code = record_class_code(record.class) as nat;
    let type_bytes = be_bytes(type_code, 2);
    let class_bytes = be_bytes(class_code, 2);
    let ttl_bytes = be_bytes(record.ttl as nat, 4);
    let typed = named.write(type_bytes);
    let classed = typed.write(class_bytes);
    let timed = classed.write(ttl_bytes);
    let end = timed.write(data_bytes(record.data));
    lemma_pow256_values();
    lemma_be_bytes_len(type_code, 2);
    lemma_be_bytes_len(class_code, 2);
    lemma_be_bytes_len(record.ttl as nat, 4);
    lemma_name_written(state, depths, record.owner_name);
    lemma_sound_after_write(named, after, type_bytes);
    lemma_sound_after_write(typed, after, class_bytes);
    lemma_sound_after_write(classed, after, ttl_bytes);
    lemma_sound_after_write(timed, after, data_bytes(record.data));
    lemma_bytes_written(buffer, timed.output, data_bytes(record.data));
    lemma_bytes_written(buffer, classed.output, ttl_bytes);
    lemma_bytes_written(buffer, typed.output, class_bytes);
    lemma_bytes_written(buffer, named.output, type_bytes);
    lemma_number_written(buffer, named.output, type_code, 2);
    lemma_number_written(buffer, typed.output, class_code, 2);
    lemma_number_written(buffer, classed.output, record.ttl as nat, 4);
    lemma_extends_transitive(typed.output, named.output, state.output);
    lemma_extends_transitive(classed.output, typed.output, state.output);
    lemma_extends_transitive(timed.output, classed.output, state.output);
    lemma_extends_transitive(end.output, timed.output, state.output);
    assert(outcome_at(
        parse_fqdn(buffer, state.position()),
        record.owner_name,
        name_depth(state, depths, record.owner_name),
        named.position(),
    ));
    let after_name = named.position();
    assert(typed.position() == after_name + 2);
    assert(classed.position() == after_name + 4);
    assert(timed.position() == after_name + 8);
    match record.data {
        RecordData::A(a) => {
            let length_bytes = be_bytes(4, 2);
            let address_bytes = be_bytes(a.address as nat, 4);
            lemma_be_bytes_len(4, 2);
            lemma_be_bytes_len(a.address as nat, 4);
            assert(timed.output + data_bytes(record.data) =~= (timed.output + length_bytes)
                + address_bytes);
            lemma_bytes_written(buffer, timed.output + length_bytes, address_bytes);
            lemma_number_written(buffer, timed.output, 4, 2);
            lemma_number_written(buffer, timed.output + length_bytes, a.address as nat, 4);
            assert(end.position() == after_name + 14);
        },
        RecordData::AAAA(aaaa) => {
            let length_bytes = be_bytes(16, 2);
            let address_bytes = be_bytes(aaaa.address as nat, 16);
            lemma_be_bytes_len(16, 2);
            lemma_be_bytes_len(aaaa.address as nat, 16);
            assert(timed.output + data_bytes(record.data) =~= (timed.output + length_bytes)
                + address_bytes);
            lemma_bytes_written(buffer, timed.output + length_bytes, address_bytes);
            lemma_number_written(buffer, timed.output, 16, 2);
            lemma_number_written(buffer, timed.output + length_bytes, aaaa.address as nat, 16);
            assert(end.position() == after_name + 26);
        },
        RecordData::UNKNOWN => {},
    }
}

/// Valid records that are written one behind the other, in a state with a
/// sound dictionary, read back from where they were written, unless one of
/// their names leads through more than three pointers in a row; the
/// dictionary stays sound.
pub proof fn lemma_records_written(
    state: WireState,
    depths: Map<Seq<u8>, nat>,
    records: Seq<RecordView>,
    read: Seq<RecordView>,
    buffer: Seq<u8>,
)
    requires
        sound(state, depths),
        forall|i: int| 0 <= i < records.len() ==> valid_record(#[trigger] records[i]),
        extends(buffer, write_records(state, records).output),
    ensures
        parse_records(buffer, state.position(), records.len(), read) == if records_shallow(
            state,
            depths,
            records,
        ) {
            Some((read + records, write_records(state, records).position()))
        } else {
            None
        },
        sound(write_records(state, records), depths_after_records(state, depths, records)),
    decreases records.len(),
{
    if records.len() == 0 {
        assert(read + records =~= read);
    } else {
        let first = records[0];
        let rest = records.drop_first();
        let next = write_record(state, first);
        let after = depths_after_name(state, depths, first.owner_name);
        assert(valid_record(first));
        lemma_write_records_extends(next, rest);
        lemma_extends_transitive(buffer, write_records(next, rest).output, next.output);
        lemma_record_written(state, depths, first, buffer);
        assert forall|i: int| 0 <= i < rest.len() implies valid_record(#[trigger] rest[i]) by {
            assert(valid_record(records[i + 1]));
        }
        lemma_records_written(next, after, rest, read.push(first), buffer);
        assert(read.push(first) + rest =~= read + records);
    }
}

/// The twelve bytes of a header read back as the header, where it announces
/// one question and its flags are valid.
pub proof fn lemma_header_written(header: Header, buffer: Seq<u8>)
    requires
        header.question_count == 1,
        valid_flags(header.flags),
        extends(buffer, header_bytes(header)),
    ensures
        header_bytes(header).len() == 12,
        parse_header(buffer, 0) == Ok::<(Header, nat), HeaderError>((header, 12)),
{
    let id = be_bytes(header.id as nat, 2);
    let flags = be_bytes(encode_flags(header.flags) as nat, 2);
    let questions = be_bytes(header.question_count as nat, 2);
    let answers = be_bytes(header.answer_count as nat, 2);
    let authorities = be_bytes(header.authoritative_count as nat, 2);
    let additional = be_bytes(header.additional_count as nat, 2);
    lemma_pow256_values();
    lemma_be_bytes_len(header.id as nat, 2);
    lemma_be_bytes_len(encode_flags(header.flags) as nat, 2);
    lemma_be_bytes_len(header.question_count as nat, 2);
    lemma_be_bytes_len(header.answer_count as nat, 2);
    lemma_be_bytes_len(header.authoritative_count as nat, 2);
    lemma_be_bytes_len(header.additional_count as nat, 2);
    lemma_flags_round_trip(header.flags);
    let nothing = Seq::<u8>::empty();
    let a = nothing + id;
    let b = a + flags;
    let c = b + questions;
    let d = c + answers;
    let e = d + authorities;
    assert(header_bytes(header) =~= e + additional);
    lemma_bytes_written(buffer, e, additional);
    lemma_bytes_written(buffer, d, authorities);
    lemma_bytes_written(buffer, c, answers);
    lemma_bytes_written(buffer, b, questions);
    lemma_bytes_written(buffer, a, flags);
    lemma_number_written(buffer, nothing, header.id as nat, 2);
    lemma_number_written(buffer, a, encode_flags(header.flags) as nat, 2);
    lemma_number_written(buffer, b, header.question_count as nat, 2);
    lemma_number_written(buffer, c, header.answer_count as nat, 2);
    lemma_number_written(buffer, d, header.authoritative_count as nat, 2);
    lemma_number_written(buffer, e, header.additional_count as nat, 2);
}

/// A valid message that is written into an empty buffer and read back is
/// the same message, where none of its names leads through more than three
/// pointers in a row; where one does, the written message cannot be read.
pub proof fn lemma_message_round_trip(message: MessageView)
    requires
        valid_message(message),
    ensures
        message_shallow(message) ==> decode(encode(message)) == Ok::<MessageView, MessageError>(
            message,
        ),
        !message_shallow(message) ==> decode(encode(message)) is Err,
{
    let buffer = encode(message);
    let nothing = WireState::empty();
    let none = Map::<Seq<u8>, nat>::empty();
    let start = nothing.write(header_bytes(message.header));
    let asked = write_question(start, message.question);
    let first = depths_after_name(start, none, message.question.qname);
    let answered = write_records(asked, message.answer_records);
    let second = depths_after_records(asked, first, message.answer_records);
    let referred = write_records(answered, message.authority_records);
    let third = depths_after_records(answered, second, message.authority_records);
    let end = write_records(referred, message.additional_records);
    assert(buffer == end.output);
    assert(sound(nothing, none));
    lemma_sound_after_write(nothing, none, header_bytes(message.header));
    assert(nothing.output + header_bytes(message.header) =~= header_bytes(message.header));
    lemma_write_records_extends(referred, message.additional_records);
    lemma_write_records_extends(answered, message.authority_records);
    lemma_write_records_extends(asked, message.answer_records);
    lemma_write_name_extends(start, message.question.qname);
    lemma_extends_transitive(buffer, referred.output, answered.output);
    lemma_extends_transitive(buffer, answered.output, asked.output);
    assert(extends(asked.output, start.output)) by {
        let named = write_name(start, message.question.qname);
        let typed = named.write(be_bytes(record_type_code(message.question.qtype) as nat, 2));
        lemma_extends_transitive(typed.output, named.output, start.output);
        lemma_extends_transitive(asked.output, typed.output, start.output);
    }
    lemma_extends_transitive(buffer, asked.output, start.output);
    lemma_header_written(message.header, buffer);
    lemma_question_written(start, none, message.question, buffer);
    lemma_records_written(asked, first, message.answer_records, Seq::empty(), buffer);
    lemma_records_written(answered, second, message.authority_records, Seq::empty(), buffer);
    lemma_records_written(referred, third, message.additional_records, Seq::empty(), buffer);
    assert(Seq::<RecordView>::empty() + message.answer_records =~= message.answer_records);
    assert(Seq::<RecordView>::empty() + message.authority_records =~= message.authority_records);
    assert(Seq::<RecordView>::empty() + message.additional_records =~= message.additional_records);
}

} // verus!
