//! An append-only writer with the dictionary that name compression needs.

use vstd::prelude::*;
use vstd::slice::slice_to_vec;
use vstd::string::StringSliceAdditionalSpecFns;
use vstd::utf8::encode_utf8;
use crate::packet::seder::big_endian::be_bytes;

verus! {

/// The first offset that a compression pointer cannot address: a pointer
/// holds fourteen bits.
pub const POINTER_RANGE: usize = 0x4000;

/// What has been written so far, as mathematics.
pub struct WireState {
    /// The bytes, in the order they were written.
    pub output: Seq<u8>,
    /// For each name met so far, dot-joined, the offset at which it was first
    /// written.
    pub names: Map<Seq<u8>, u16>,
}

impl WireState {
    /// Nothing written, no name met.
    pub open spec fn empty() -> WireState {
        WireState { output: Seq::empty(), names: Map::empty() }
    }

    /// The offset of the next byte to write.
    pub open spec fn position(self) -> nat {
        self.output.len()
    }

    /// The state after `bytes` are appended.
    pub open spec fn write(self, bytes: Seq<u8>) -> WireState {
        WireState { output: self.output + bytes, names: self.names }
    }

    /// The state after `name` is met for the first time: it is entered at the
    /// current offset, unless no pointer could address that offset.
    pub open spec fn register(self, name: Seq<u8>) -> WireState {
        if self.position() < POINTER_RANGE {
            WireState { output: self.output, names: self.names.insert(name, self.position() as u16) }
        } else {
            self
        }
    }
}

/// The bytes of a label as they stand on the wire: a length byte, which holds
/// the length modulo 256, and the label.
pub open spec fn length_prefixed(bytes: Seq<u8>) -> Seq<u8> {
    seq![(bytes.len() % 256) as u8] + bytes
}

/// The dictionary that a list of entries stands for: a later entry for a name
/// replaces an earlier one.
pub open spec fn dictionary(entries: Seq<(Vec<u8>, u16)>) -> Map<Seq<u8>, u16>
    decreases entries.len(),
{
    if entries.len() == 0 {
        Map::empty()
    } else {
        dictionary(entries.drop_last()).insert(entries.last().0@, entries.last().1)
    }
}

/// Whether two byte strings hold the same bytes.
pub fn same_bytes(left: &[u8], right: &[u8]) -> (same: bool)
    ensures
        same == (left@ == right@),
{
    if left.len() != right.len() {
        return false;
    }
    let mut i: usize = 0;
    while i < left.len()
        invariant
            i <= left@.len() == right@.len(),
            forall|j: int| 0 <= j < i ==> left@[j] == right@[j],
        decreases left@.len() - i,
    {
        if left[i] != right[i] {
            return false;
        }
        i += 1;
    }
    assert(left@ =~= right@);
    true
}

/// An output buffer that only grows, and the names written into it.
pub struct Serialize {
    bin_data: Vec<u8>,
    name_compression: Vec<(Vec<u8>, u16)>,
}

impl View for Serialize {
    type V = WireState;

    closed spec fn view(&self) -> WireState {
        WireState { output: self.bin_data@, names: dictionary(self.name_compression@) }
    }
}

impl Serialize {
    /// An empty buffer with an empty dictionary.
    pub fn new() -> (writer: Serialize)
        ensures
            writer@ == WireState::empty(),
    {
        Serialize { bin_data: Vec::new(), name_compression: Vec::new() }
    }

    /// Appends one byte.
    pub fn write_u8(&mut self, data: u8)
        ensures
            final(self)@ == old(self)@.write(seq![data]),
    {
        self.bin_data.push(data);
        assert(self.bin_data@ =~= old(self).bin_data@ + seq![data]);
    }

    /// Appends a 16-bit number, most significant byte first.
    pub fn write_u16(&mut self, data: u16)
        ensures
            final(self)@ == old(self)@.write(be_bytes(data as nat, 2)),
    {
        self.bin_data.push((data / 256) as u8);
        self.bin_data.push((data % 256) as u8);
        proof {
            reveal_with_fuel(be_bytes, 3);
            assert(self.bin_data@ =~= old(self).bin_data@ + be_bytes(data as nat, 2));
        }
    }

    /// Appends a 32-bit number, most significant byte first.
    pub fn write_u32(&mut self, data: u32)
        ensures
            final(self)@ == old(self)@.write(be_bytes(data as nat, 4)),
    {
        self.bin_data.push((data / 0x100_0000) as u8);
        self.bin_data.push((data / 0x1_0000 % 256) as u8);
        self.bin_data.push((data / 0x100 % 256) as u8);
        self.bin_data.push((data % 256) as u8);
        proof {
            reveal_with_fuel(be_bytes, 5);
            assert(self.bin_data@ =~= old(self).bin_data@ + be_bytes(data as nat, 4));
        }
    }

    /// Appends a label: a length byte, then the bytes of `data`.
    pub fn write_string(&mut self, data: &str)
        ensures
            final(self)@ == old(self)@.write(length_prefixed(data.spec_bytes())),
    {
        self.write_label(data.as_bytes());
    }

    /// Appends a label: a length byte, then `label`.
    pub fn write_label(&mut self, label: &[u8])
        ensures
            final(self)@ == old(self)@.write(length_prefixed(label@)),
    {
        self.bin_data.push((label.len() % 256) as u8);
        let mut i: usize = 0;
        while i < label.len()
            invariant
                i <= label@.len(),
                self.name_compression == old(self).name_compression,
                self.bin_data@ == old(self).bin_data@ + length_prefixed(label@).subrange(0, i + 1),
            decreases label@.len() - i,
        {
            self.bin_data.push(label[i]);
            i += 1;
            assert(self.bin_data@ =~= old(self).bin_data@ + length_prefixed(label@).subrange(
                0,
                i + 1,
            ));
        }
        assert(length_prefixed(label@).subrange(0, i + 1) =~= length_prefixed(label@));
    }

    /// Appends `byte_data` as it is.
    pub fn write_n_bytes(&mut self, byte_data: Vec<u8>)
        ensures
            final(self)@ == old(self)@.write(byte_data@),
    {
        let mut byte_data = byte_data;
        self.bin_data.append(&mut byte_data);
    }

    /// Looks `partial_fqdn` up in the dictionary. A name that is there comes
    /// back with its offset and nothing changes; a name that is not is
    /// entered at the current offset.
    pub fn set_name_compression(&mut self, partial_fqdn: String) -> (target: Option<u16>)
        ensures
            target == Self::lookup(old(self)@, encode_utf8(partial_fqdn@)),
            final(self)@ == Self::after_lookup(old(self)@, encode_utf8(partial_fqdn@)),
    {
        let name = slice_to_vec(partial_fqdn.as_str().as_bytes());
        self.compression_target(name)
    }

    /// What a lookup of `name` returns in state `state`.
    pub open spec fn lookup(state: WireState, name: Seq<u8>) -> Option<u16> {
        if state.names.contains_key(name) {
            Some(state.names[name])
        } else {
            None
        }
    }

    /// The state that a lookup of `name` leaves behind.
    pub open spec fn after_lookup(state: WireState, name: Seq<u8>) -> WireState {
        if state.names.contains_key(name) {
            state
        } else {
            state.register(name)
        }
    }

    /// As [`Serialize::set_name_compression`], for a name held as bytes.
    pub fn compression_target(&mut self, name: Vec<u8>) -> (target: Option<u16>)
        ensures
            target == Self::lookup(old(self)@, name@),
            final(self)@ == Self::after_lookup(old(self)@, name@),
    {
        let mut i: usize = self.name_compression.len();
        assert(self.name_compression@.subrange(0, i as int) =~= self.name_compression@);
        while i > 0
            invariant
                i <= self.name_compression@.len(),
                *self == *old(self),
                dictionary(self.name_compression@).contains_key(name@) == dictionary(
                    self.name_compression@.subrange(0, i as int),
                ).contains_key(name@),
                dictionary(self.name_compression@).contains_key(name@) ==> dictionary(
                    self.name_compression@,
                )[name@] == dictionary(self.name_compression@.subrange(0, i as int))[name@],
            decreases i,
        {
            i -= 1;
            let ghost upto = self.name_compression@.subrange(0, i + 1);
            assert(upto.drop_last() =~= self.name_compression@.subrange(0, i as int));
            assert(upto.last() == self.name_compression@[i as int]);
            if same_bytes(self.name_compression[i].0.as_slice(), name.as_slice()) {
                return Some(self.name_compression[i].1);
            }
        }
        assert(self.name_compression@.subrange(0, 0) =~= Seq::empty());
        if self.bin_data.len() < POINTER_RANGE {
            let offset = self.bin_data.len() as u16;
            self.name_compression.push((name, offset));
            assert(self.name_compression@.drop_last() =~= old(self).name_compression@);
        }
        None
    }

    /// A copy of the bytes written so far.
    pub fn bin_data(&self) -> (bytes: Vec<u8>)
        ensures
            bytes@ == self@.output,
    {
        slice_to_vec(self.bin_data.as_slice())
    }
}

} // verus!
