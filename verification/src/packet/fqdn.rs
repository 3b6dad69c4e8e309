//! Domain names: a list of labels, read from and written to the wire with
//! compression pointers.

use vstd::prelude::*;
use vstd::utf8::{decode_utf8, encode_utf8, valid_utf8};
use crate::packet::seder::big_endian::{be_bytes, be_value};
use crate::packet::seder::deserializer::Deserialize;
use crate::packet::seder::serializer::{length_prefixed, Serialize, WireState};
use crate::packet::seder::{ToBytes, TryFromBytes};
use crate::packet::name_laws::lemma_read_fqdn_is_valid;
use crate::packet::text_laws::{ascii_text, lemma_ascii_text, lemma_dotted_is_ascii};

verus! {

/// The mask of the two bits that mark a pointer in the first byte of a label.
pub const PTR_MASK: u8 = 0xC0;

/// The mask of the offset in a pointer's two bytes.
pub const OFFSET_MASK: u16 = 0x3FFF;

/// The two bits that mark a pointer, in its two bytes.
pub const POINTER_MARKER: u16 = 0xC000;

/// The number of pointers that may be followed while one name is read.
pub const MAX_REDIRECTIONS: u8 = 3;

/// The most bytes that the labels of a name, each with its length byte, may take.
pub const MAX_FQDN_LENGTH: usize = 255;

/// The most labels that a name may have.
pub const MAX_NUMBER_OF_LABELS: usize = 127;

/// The most bytes that a label may have.
pub const MAX_LABEL_LENGTH: u8 = 63;

/// The byte that separates the labels of a name written as text.
pub const DOT: u8 = 0x2E;

/// Why a name could not be read.
#[derive(Debug, PartialEq, Eq, Clone, Copy, Structural)]
pub enum FqdnError {
    /// The buffer ends where a length byte or a pointer should stand.
    MissingLabelLength,
    /// The buffer ends inside the two bytes of a pointer.
    MissingLabelPointerOffset,
    /// A length byte announces this many bytes and the buffer holds fewer.
    NotEnoughLabelData(u8),
    /// This byte stands where a label begins and is neither a pointer nor a
    /// length of at most 63: its two high bits are `01` or `10`.
    MalformedLenOrPtrInfo(u8),
    /// The name has more than 127 labels.
    ExceedingMaxNumberOfLabels,
    /// The labels, each with its length byte, take more than 255 bytes.
    FqdnTooLong,
    /// A pointer does not point before itself.
    IncorrectPointerOffset,
    /// This many pointers in a row were met, more than 3.
    TooManyRedirections(u8),
    /// A label holds a byte that is not ASCII.
    NotAsciiCharacter,
}

pub type FqdnResult<T> = Result<T, FqdnError>;

/// What the byte at the start of a label announces.
#[derive(Debug, PartialEq, Eq, Clone, Copy, Structural)]
pub enum FqdnParsingFSM {
    /// A label follows: the byte is its length.
    Length,
    /// The byte is the first of a pointer.
    Pointer,
    /// The name ends here.
    End,
}

/// A byte, with an upper-case ASCII letter turned to lower case.
pub open spec fn lower(byte: u8) -> u8 {
    if 0x41 <= byte <= 0x5A {
        (byte + 0x20) as u8
    } else {
        byte
    }
}

/// A label with its upper-case ASCII letters turned to lower case.
pub open spec fn lowercase(label: Seq<u8>) -> Seq<u8> {
    Seq::new(label.len(), |i: int| lower(label[i]))
}

/// Every byte is ASCII.
pub open spec fn all_ascii(label: Seq<u8>) -> bool {
    forall|i: int| 0 <= i < label.len() ==> label[i] < 0x80
}

/// The bytes that the labels take on the wire, each with its length byte,
/// without what ends the name.
pub open spec fn wire_length(labels: Seq<Seq<u8>>) -> nat
    decreases labels.len(),
{
    if labels.len() == 0 {
        0
    } else {
        wire_length(labels.drop_last()) + labels.last().len() + 1
    }
}

/// The labels joined by dots.
pub open spec fn dotted(labels: Seq<Seq<u8>>) -> Seq<u8>
    decreases labels.len(),
{
    if labels.len() == 0 {
        Seq::empty()
    } else if labels.len() == 1 {
        labels[0]
    } else {
        dotted(labels.drop_last()) + seq![DOT] + labels.last()
    }
}

/// The pieces of `text` between its dots; a text without a dot is one piece.
pub open spec fn split_dots(text: Seq<u8>) -> Seq<Seq<u8>>
    decreases text.len(),
{
    if text.len() == 0 {
        seq![Seq::empty()]
    } else {
        let before = split_dots(text.drop_last());
        if text.last() == DOT {
            before.push(Seq::empty())
        } else {
            before.update(before.len() - 1, before.last().push(text.last()))
        }
    }
}

/// What the byte that starts a label announces, or why it cannot start one.
pub open spec fn classify(byte: u8) -> FqdnResult<FqdnParsingFSM> {
    if byte == 0 {
        Ok(FqdnParsingFSM::End)
    } else if byte >= PTR_MASK {
        Ok(FqdnParsingFSM::Pointer)
    } else if byte <= MAX_LABEL_LENGTH {
        Ok(FqdnParsingFSM::Length)
    } else {
        Err(FqdnError::MalformedLenOrPtrInfo(byte))
    }
}

/// The label whose length byte stands at `position`, in lower case, and the
/// offset behind it.
pub open spec fn parse_label(buffer: Seq<u8>, position: nat) -> FqdnResult<(Seq<u8>, nat)> {
    if position >= buffer.len() {
        Err(FqdnError::MissingLabelLength)
    } else {
        let length = buffer[position as int];
        if position + 1 >= buffer.len() || position + 1 + length > buffer.len() {
            Err(FqdnError::NotEnoughLabelData(length))
        } else {
            let label = buffer.subrange(position + 1 as int, position + 1 + length);
            if !all_ascii(label) {
                Err(FqdnError::NotAsciiCharacter)
            } else {
                Ok((lowercase(label), (position + 1 + length) as nat))
            }
        }
    }
}

/// The offset that the pointer at `position` holds: the low fourteen bits of
/// its two bytes.
pub open spec fn pointer_target(buffer: Seq<u8>, position: nat) -> nat {
    be_value(buffer.subrange(position as int, position + 2 as int)) % 0x4000
}

/// Reads a name from `position` on, after `jumps` pointers and with `labels`
/// already read. The result is all the labels and the offset behind what was
/// read at this level: behind the zero byte, or behind the first pointer.
pub open spec fn parse_name(
    buffer: Seq<u8>,
    position: nat,
    jumps: nat,
    labels: Seq<Seq<u8>>,
) -> FqdnResult<(Seq<Seq<u8>>, nat)>
    decreases MAX_REDIRECTIONS + 1 - jumps, buffer.len() - position,
{
    if jumps > MAX_REDIRECTIONS {
        Err(FqdnError::TooManyRedirections(jumps as u8))
    } else if position >= buffer.len() {
        Err(FqdnError::MissingLabelLength)
    } else {
        match classify(buffer[position as int]) {
            Err(e) => Err(e),
            Ok(FqdnParsingFSM::End) => Ok((labels, position + 1)),
            Ok(FqdnParsingFSM::Pointer) => {
                if position + 2 > buffer.len() {
                    Err(FqdnError::MissingLabelPointerOffset)
                } else if pointer_target(buffer, position) >= position {
                    Err(FqdnError::IncorrectPointerOffset)
                } else {
                    match parse_name(buffer, pointer_target(buffer, position), jumps + 1, labels) {
                        Ok((all, _)) => Ok((all, position + 2)),
                        Err(e) => Err(e),
                    }
                }
            },
            Ok(FqdnParsingFSM::Length) => {
                match parse_label(buffer, position) {
                    Err(e) => Err(e),
                    Ok((label, next)) => {
                        if labels.len() >= MAX_NUMBER_OF_LABELS {
                            Err(FqdnError::ExceedingMaxNumberOfLabels)
                        } else if wire_length(labels) + label.len() + 1 > MAX_FQDN_LENGTH {
                            Err(FqdnError::FqdnTooLong)
                        } else {
                            parse_name(buffer, next, jumps, labels.push(label))
                        }
                    },
                }
            },
        }
    }
}

/// The name that starts at `position`, and the offset behind it.
pub open spec fn parse_fqdn(buffer: Seq<u8>, position: nat) -> FqdnResult<(Seq<Seq<u8>>, nat)> {
    parse_name(buffer, position, 0, Seq::empty())
}

/// The two bytes of a pointer to `offset`.
pub open spec fn pointer_bytes(offset: u16) -> Seq<u8> {
    be_bytes((POINTER_MARKER | offset) as nat, 2)
}

/// The state after a name is written. Each suffix of the name is looked up,
/// longest first: one that was written before ends the name with a pointer to
/// it; one that was not is entered, and its first label is written. A name
/// of which no suffix was written before ends with a zero byte.
pub open spec fn write_name(state: WireState, labels: Seq<Seq<u8>>) -> WireState
    decreases labels.len(),
{
    if labels.len() == 0 {
        state.write(seq![0u8])
    } else if state.names.contains_key(dotted(labels)) {
        state.write(pointer_bytes(state.names[dotted(labels)]))
    } else {
        write_name(
            state.register(dotted(labels)).write(length_prefixed(labels[0])),
            labels.drop_first(),
        )
    }
}

/// The labels that a list of byte vectors holds.
pub open spec fn label_views(labels: Seq<Vec<u8>>) -> Seq<Seq<u8>> {
    Seq::new(labels.len(), |i: int| labels[i]@)
}

/// `String::from_utf8_lossy`: bytes that are valid UTF-8 come back as the
/// text that they encode.
#[verifier::external_body]
fn text_of(bytes: &[u8]) -> (text: String)
    ensures
        valid_utf8(bytes@) ==> text@ == decode_utf8(bytes@),
{
    String::from_utf8_lossy(bytes).into_owned()
}

/// A domain name: its labels, from the most specific to the top-level one.
#[derive(Debug, PartialEq, Clone)]
pub struct Fqdn {
    labels: Vec<Vec<u8>>,
}

impl View for Fqdn {
    type V = Seq<Seq<u8>>;

    closed spec fn view(&self) -> Seq<Seq<u8>> {
        label_views(self.labels@)
    }
}

/// A label as a name that is read holds it: 1 to 63 ASCII bytes, none an
/// upper-case letter.
pub open spec fn valid_label(label: Seq<u8>) -> bool {
    &&& 1 <= label.len() <= MAX_LABEL_LENGTH
    &&& forall|i: int| 0 <= i < label.len() ==> #[trigger] label[i] < 0x80 && lower(label[i]) == label[i]
}

/// A name as it can be read: at most 127 valid labels, which take at most
/// 255 bytes with their length bytes.
pub open spec fn valid_name(labels: Seq<Seq<u8>>) -> bool {
    &&& labels.len() <= MAX_NUMBER_OF_LABELS
    &&& wire_length(labels) <= MAX_FQDN_LENGTH
    &&& forall|i: int| 0 <= i < labels.len() ==> valid_label(#[trigger] labels[i])
}

/// No label holds a dot, so that the labels can be told from the name
/// written as text.
pub open spec fn dot_free(labels: Seq<Seq<u8>>) -> bool {
    forall|i: int, j: int|
        0 <= i < labels.len() && 0 <= j < labels[i].len() ==> #[trigger] labels[i][j] != DOT
}

impl TryFromBytes for Fqdn {
    type Error = FqdnError;

    open spec fn reads(
        buffer: Seq<u8>,
        position: nat,
        result: Result<Self, FqdnError>,
        next: nat,
    ) -> bool {
        match result {
            Ok(fqdn) => parse_fqdn(buffer, position) == Ok::<(Seq<Seq<u8>>, nat), FqdnError>(
                (fqdn@, next),
            ),
            Err(e) => parse_fqdn(buffer, position) == Err::<(Seq<Seq<u8>>, nat), FqdnError>(e)
                && next == position,
        }
    }

    /// Reads a name at the reader's position. On failure the reader stays
    /// where it was. A name that is read is valid.
    fn try_from_bytes(decoder: &mut Deserialize) -> (result: FqdnResult<Fqdn>)
        ensures
            result matches Ok(fqdn) ==> valid_name(fqdn@),
    {
        proof {
            lemma_read_fqdn_is_valid(decoder.buffer(), decoder.position());
        }
        match FqdnBuilder::new().generate_from_bytes(decoder) {
            Ok(builder) => Ok(builder.build()),
            Err(e) => Err(e),
        }
    }
}

impl ToBytes for Fqdn {
    open spec fn written(&self, state: WireState) -> WireState {
        write_name(state, self@)
    }

    /// Writes the name, with a pointer in place of the longest suffix that
    /// the writer has met before.
    fn to_bytes(&self, encoder: &mut Serialize)
    {
        let count = self.labels.len();
        let mut i: usize = 0;
        assert(self@.subrange(0, count as int) =~= self@);
        while i < count
            invariant
                i <= count == self.labels@.len(),
                write_name(old(encoder)@, self@) == write_name(
                    encoder@,
                    self@.subrange(i as int, count as int),
                ),
            decreases count - i,
        {
            let ghost rest = self@.subrange(i as int, count as int);
            assert(rest.drop_first() =~= self@.subrange(i + 1, count as int));
            assert(rest[0] == self.labels@[i as int]@);
            let name = self.convert_to_bytes(i);
            match encoder.compression_target(name) {
                None => encoder.write_label(self.labels[i].as_slice()),
                Some(position) => {
                    encoder.write_u16(POINTER_MARKER | position);
                    return ;
                },
            }
            i += 1;
        }
        assert(self@.subrange(i as int, count as int) =~= Seq::<Seq<u8>>::empty());
        encoder.write_u8(0);
    }
}

impl Fqdn {
    /// The name as text, its labels joined by dots. The text of a valid
    /// name holds one ASCII character for each byte.
    pub fn to_owned_str(&self) -> (text: String)
        ensures
            valid_utf8(dotted(self@)) ==> text@ == decode_utf8(dotted(self@)),
            valid_name(self@) ==> text@ == ascii_text(dotted(self@)),
    {
        let bytes = self.convert_to_bytes(0);
        assert(self@.subrange(0, self@.len() as int) =~= self@);
        proof {
            if valid_name(self@) {
                lemma_dotted_is_ascii(self@);
                lemma_ascii_text(dotted(self@));
            }
        }
        text_of(bytes.as_slice())
    }

    /// The labels from the `i`-th on, joined by dots.
    fn convert_to_bytes(&self, i: usize) -> (name: Vec<u8>)
        requires
            i <= self@.len(),
        ensures
            name@ == dotted(self@.subrange(i as int, self@.len() as int)),
    {
        let count = self.labels.len();
        let mut name: Vec<u8> = Vec::new();
        let mut j: usize = i;
        assert(self@.subrange(i as int, j as int) =~= Seq::<Seq<u8>>::empty());
        while j < count
            invariant
                i <= j <= count == self.labels@.len(),
                name@ == dotted(self@.subrange(i as int, j as int)),
            decreases count - j,
        {
            let ghost before = self@.subrange(i as int, j as int);
            let ghost upto = self@.subrange(i as int, j + 1);
            assert(upto.drop_last() =~= before);
            assert(upto.last() == self.labels@[j as int]@);
            if j > i {
                name.push(DOT);
            }
            let label = &self.labels[j];
            let mut k: usize = 0;
            let ghost start = name@;
            while k < label.len()
                invariant
                    k <= label@.len(),
                    name@ == start + label@.subrange(0, k as int),
                decreases label@.len() - k,
            {
                name.push(label[k]);
                k += 1;
                assert(name@ =~= start + label@.subrange(0, k as int));
            }
            assert(label@.subrange(0, k as int) =~= label@);
            assert(name@ =~= dotted(upto)) by {
                if j > i {
                    assert(start =~= dotted(before) + seq![DOT]);
                } else {
                    assert(start =~= Seq::<u8>::empty());
                }
            }
            j += 1;
        }
        name
    }
}

/// The state of a builder that holds no name yet.
#[derive(Debug, Clone)]
pub struct FqdnUnset;

/// The state of a builder that holds a name.
#[derive(Debug, Clone)]
pub struct FqdnSet;

/// The states of a [`FqdnBuilder`].
pub trait FqdnState {

}

impl FqdnState for FqdnUnset {

}

impl FqdnState for FqdnSet {

}

/// Builds a name from the wire or from text; only a builder that holds a
/// name can build.
pub struct FqdnBuilder<S: FqdnState> {
    labels: Vec<Vec<u8>>,
    state: S,
}

impl<S: FqdnState> FqdnBuilder<S> {
    /// The labels that the builder holds.
    pub closed spec fn labels(&self) -> Seq<Seq<u8>> {
        label_views(self.labels@)
    }
}

/// The result of a name read at one level, with the offset replaced by
/// `resume` where a pointer was followed before.
pub open spec fn resumed(
    result: FqdnResult<(Seq<Seq<u8>>, nat)>,
    resume: Option<nat>,
) -> FqdnResult<(Seq<Seq<u8>>, nat)> {
    match (result, resume) {
        (Ok((labels, _)), Some(next)) => Ok((labels, next)),
        _ => result,
    }
}

impl FqdnBuilder<FqdnUnset> {
    /// A builder without a name.
    pub fn new() -> (builder: Self)
        ensures
            builder.labels() == Seq::<Seq<u8>>::empty(),
    {
        let builder = FqdnBuilder { labels: Vec::new(), state: FqdnUnset };
        assert(builder.labels() =~= Seq::<Seq<u8>>::empty());
        builder
    }

    /// Reads a name at the reader's position. On failure the reader stays
    /// where it was.
    pub fn generate_from_bytes(self, decoder: &mut Deserialize) -> (result: FqdnResult<
        FqdnBuilder<FqdnSet>,
    >)
        ensures
            final(decoder).buffer() == old(decoder).buffer(),
            old(decoder).wf() ==> final(decoder).wf(),
            match result {
                Ok(builder) => parse_fqdn(old(decoder).buffer(), old(decoder).position()) == Ok::<
                    (Seq<Seq<u8>>, nat),
                    FqdnError,
                >((builder.labels(), final(decoder).position())),
                Err(e) => parse_fqdn(old(decoder).buffer(), old(decoder).position()) == Err::<
                    (Seq<Seq<u8>>, nat),
                    FqdnError,
                >(e) && final(decoder).position() == old(decoder).position(),
            },
    {
        let mut labels: Vec<Vec<u8>> = Vec::new();
        let mut length: usize = 0;
        let mut jumps: u8 = 0;
        let mut reader: Deserialize = *decoder;
        let mut resume: Option<Deserialize> = None;
        let ghost buffer = decoder.buffer();
        let ghost wanted = parse_fqdn(buffer, decoder.position());
        assert(label_views(labels@) =~= Seq::<Seq<u8>>::empty());
        loop
            invariant_except_break
                wanted == resumed(
                    parse_name(buffer, reader.position(), jumps as nat, label_views(labels@)),
                    match resume {
                        Some(r) => Some(r.position()),
                        None => None,
                    },
                ),
            invariant
                *decoder == *old(decoder),
                buffer == decoder.buffer(),
                wanted == parse_fqdn(buffer, decoder.position()),
                reader.buffer() == buffer,
                jumps <= MAX_REDIRECTIONS,
                length == wire_length(label_views(labels@)),
                length <= MAX_FQDN_LENGTH,
                labels@.len() <= MAX_NUMBER_OF_LABELS,
                resume matches Some(r) ==> r.buffer() == buffer,
                old(decoder).wf() ==> reader.wf(),
                old(decoder).wf() ==> (resume matches Some(r) ==> r.wf()),
            ensures
                wanted == Ok::<(Seq<Seq<u8>>, nat), FqdnError>(
                    (
                        label_views(labels@),
                        match resume {
                            Some(r) => r.position(),
                            None => reader.position(),
                        },
                    ),
                ),
            decreases MAX_REDIRECTIONS + 1 - jumps, buffer.len() - reader.position(),
        {
            let state = match Self::get_parsing_state(&reader) {
                Ok(state) => state,
                Err(e) => {
                    return Err(e);
                },
            };
            match state {
                FqdnParsingFSM::End => {
                    let _ = reader.read_u8();
                    break ;
                },
                FqdnParsingFSM::Length => {
                    let label = match Self::get_label(&mut reader) {
                        Ok(label) => label,
                        Err(e) => {
                            return Err(e);
                        },
                    };
                    if labels.len() >= MAX_NUMBER_OF_LABELS {
                        return Err(FqdnError::ExceedingMaxNumberOfLabels);
                    }
                    if length + label.len() + 1 > MAX_FQDN_LENGTH {
                        return Err(FqdnError::FqdnTooLong);
                    }
                    length = length + label.len() + 1;
                    let ghost before = label_views(labels@);
                    labels.push(label);
                    proof {
                        assert(label_views(labels@) =~= before.push(label@));
                        assert(label_views(labels@).drop_last() =~= before);
                    }
                },
                FqdnParsingFSM::Pointer => {
                    let at = reader.cursor();
                    let word = match reader.read_u16() {
                        Ok(word) => word,
                        Err(_) => {
                            return Err(FqdnError::MissingLabelPointerOffset);
                        },
                    };
                    let offset = word & OFFSET_MASK;
                    assert(offset == word % 0x4000 && offset < 0x4000) by (bit_vector)
                        requires
                            offset == word & 0x3FFF,
                    ;
                    if offset as usize >= at {
                        return Err(FqdnError::IncorrectPointerOffset);
                    }
                    assert(pointer_target(buffer, at as nat) == offset);
                    if jumps >= MAX_REDIRECTIONS {
                        assert(parse_name(
                            buffer,
                            offset as nat,
                            (jumps + 1) as nat,
                            label_views(labels@),
                        ) == Err::<(Seq<Seq<u8>>, nat), FqdnError>(
                            FqdnError::TooManyRedirections((jumps + 1) as u8),
                        ));
                        return Err(FqdnError::TooManyRedirections(jumps + 1));
                    }
                    if resume.is_none() {
                        resume = Some(reader);
                    }
                    jumps = jumps + 1;
                    reader = reader.cheap_clone(offset);
                },
            }
        }
        *decoder = match resume {
            Some(r) => r,
            None => reader,
        };
        Ok(FqdnBuilder { labels, state: FqdnSet })
    }

    /// Takes the pieces of `qname` between its dots as the labels.
    pub fn generate_from_string(self, qname: String) -> (builder: FqdnBuilder<FqdnSet>)
        ensures
            builder.labels() == split_dots(encode_utf8(qname@)),
    {
        let bytes = qname.as_str().as_bytes();
        let mut labels: Vec<Vec<u8>> = Vec::new();
        let mut current: Vec<u8> = Vec::new();
        let mut i: usize = 0;
        assert(bytes@.subrange(0, 0) =~= Seq::<u8>::empty());
        assert(label_views(labels@).push(current@) =~= seq![Seq::<u8>::empty()]);
        while i < bytes.len()
            invariant
                i <= bytes@.len(),
                label_views(labels@).push(current@) == split_dots(bytes@.subrange(0, i as int)),
            decreases bytes@.len() - i,
        {
            let ghost before = label_views(labels@);
            let ghost piece = current@;
            let ghost upto = bytes@.subrange(0, i + 1);
            assert(upto.drop_last() =~= bytes@.subrange(0, i as int));
            assert(upto.last() == bytes@[i as int]);
            if bytes[i] == DOT {
                labels.push(current);
                current = Vec::new();
                assert(label_views(labels@).push(current@) =~= before.push(piece).push(
                    Seq::<u8>::empty(),
                ));
            } else {
                current.push(bytes[i]);
                assert(label_views(labels@).push(current@) =~= before.push(piece).update(
                    before.len() as int,
                    piece.push(bytes@[i as int]),
                ));
            }
            i += 1;
        }
        assert(bytes@.subrange(0, i as int) =~= bytes@);
        let ghost before = label_views(labels@);
        labels.push(current);
        assert(label_views(labels@) =~= before.push(current@));
        FqdnBuilder { labels, state: FqdnSet }
    }

    /// Tells what the byte at the reader's position announces.
    fn get_parsing_state(decoder: &Deserialize) -> (result: FqdnResult<FqdnParsingFSM>)
        ensures
            result == if decoder.position() >= decoder.buffer().len() {
                Err(FqdnError::MissingLabelLength)
            } else {
                classify(decoder.buffer()[decoder.position() as int])
            },
    {
        let ptr_or_len = match decoder.peek() {
            Ok(byte) => byte,
            Err(_) => {
                return Err(FqdnError::MissingLabelLength);
            },
        };
        if ptr_or_len == 0 {
            Ok(FqdnParsingFSM::End)
        } else if ptr_or_len >= PTR_MASK {
            Ok(FqdnParsingFSM::Pointer)
        } else if ptr_or_len <= MAX_LABEL_LENGTH {
            Ok(FqdnParsingFSM::Length)
        } else {
            Err(FqdnError::MalformedLenOrPtrInfo(ptr_or_len))
        }
    }

    /// Reads a length byte and the label it announces, and turns the label
    /// to lower case. On failure the reader stays where it was.
    fn get_label(decoder: &mut Deserialize) -> (result: FqdnResult<Vec<u8>>)
        ensures
            final(decoder).buffer() == old(decoder).buffer(),
            old(decoder).wf() ==> final(decoder).wf(),
            match result {
                Ok(label) => parse_label(old(decoder).buffer(), old(decoder).position()) == Ok::<
                    (Seq<u8>, nat),
                    FqdnError,
                >((label@, final(decoder).position())),
                Err(e) => parse_label(old(decoder).buffer(), old(decoder).position()) == Err::<
                    (Seq<u8>, nat),
                    FqdnError,
                >(e) && final(decoder).position() == old(decoder).position(),
            },
    {
        let mut reader: Deserialize = *decoder;
        let label_len = match reader.read_u8() {
            Ok(length) => length,
            Err(_) => {
                return Err(FqdnError::MissingLabelLength);
            },
        };
        let raw = match reader.read_n_bytes(label_len as u16) {
            Ok(raw) => raw,
            Err(_) => {
                return Err(FqdnError::NotEnoughLabelData(label_len));
            },
        };
        let mut label: Vec<u8> = Vec::new();
        let mut i: usize = 0;
        while i < raw.len()
            invariant
                i <= raw@.len(),
                *decoder == *old(decoder),
                parse_label(decoder.buffer(), decoder.position()) == if all_ascii(raw@) {
                    Ok::<(Seq<u8>, nat), FqdnError>((lowercase(raw@), reader.position()))
                } else {
                    Err::<(Seq<u8>, nat), FqdnError>(FqdnError::NotAsciiCharacter)
                },
                reader.buffer() == decoder.buffer(),
                all_ascii(raw@.subrange(0, i as int)),
                label@ == lowercase(raw@.subrange(0, i as int)),
            decreases raw@.len() - i,
        {
            let byte = raw[i];
            if byte >= 0x80 {
                assert(raw@[i as int] >= 0x80);
                return Err(FqdnError::NotAsciiCharacter);
            }
            let folded = if 0x41 <= byte && byte <= 0x5A {
                byte + 0x20
            } else {
                byte
            };
            label.push(folded);
            i += 1;
            assert(label@ =~= lowercase(raw@.subrange(0, i as int)));
        }
        assert(raw@.subrange(0, i as int) =~= raw@);
        *decoder = reader;
        Ok(label)
    }
}

impl FqdnBuilder<FqdnSet> {
    /// The name that the builder holds.
    pub fn build(self) -> (fqdn: Fqdn)
        ensures
            fqdn@ == self.labels(),
    {
        Fqdn { labels: self.labels }
    }
}

} // verus!
